//! Text helpers: comparison, lists of strings and decimal numerals.

use vstd::prelude::*;

verus! {

/// `<str as PartialEq>::eq` of std: two strings are equal exactly when they hold the same
/// characters in the same order.
pub assume_specification[ <str as PartialEq<str>>::eq ](a: &str, b: &str) -> (r: bool)
    ensures
        r == (a@ == b@),
;

/// `String::push` of std: the character is appended at the end of the string.
pub assume_specification[ String::push ](s: &mut String, c: char)
    ensures
        final(s)@ == old(s)@.push(c),
;

/// Whether two strings hold the same characters.
pub(crate) fn igual(a: &str, b: &str) -> (r: bool)
    ensures
        r == (a@ == b@),
{
    *a == *b
}

/// The characters of each string of a list.
pub open spec fn textos(lista: Seq<String>) -> Seq<Seq<char>> {
    Seq::new(lista.len(), |i: int| lista[i]@)
}

/// Whether the list holds the string `s`.
pub(crate) fn contiene(lista: &Vec<String>, s: &str) -> (r: bool)
    ensures
        r == textos(lista@).contains(s@),
{
    let mut i: usize = 0;
    while i < lista.len()
        invariant
            i <= lista.len(),
            forall|j: int| 0 <= j < i ==> #[trigger] textos(lista@)[j] != s@,
        decreases lista.len() - i,
    {
        if igual(lista[i].as_str(), s) {
            assert(textos(lista@)[i as int] == s@);
            return true;
        }
        i = i + 1;
    }
    false
}

/// A list with the same strings.
pub(crate) fn copiar_textos(lista: &Vec<String>) -> (r: Vec<String>)
    ensures
        textos(r@) == textos(lista@),
{
    let r = lista.clone();
    assert(r@ =~= lista@);
    r
}

/// The decimal digit for `d`, which is less than ten.
pub open spec fn digito(d: nat) -> char {
    (48 + d) as char
}

/// The decimal numeral of `n`, without leading zeros.
pub open spec fn decimal(n: nat) -> Seq<char>
    decreases n,
{
    if n < 10 {
        seq![digito(n)]
    } else {
        decimal(n / 10).push(digito(n % 10))
    }
}

/// The decimal numeral of an integer, with a minus sign in front of a negative one.
pub open spec fn numeral(n: int) -> Seq<char> {
    if n < 0 {
        seq!['-'] + decimal((-n) as nat)
    } else {
        decimal(n as nat)
    }
}

/// The decimal numeral of `n`.
pub fn escribir_decimal(n: u128) -> (r: String)
    ensures
        r@ == decimal(n as nat),
    decreases n,
{
    let mut r = if n < 10 {
        String::new()
    } else {
        escribir_decimal(n / 10)
    };
    let d: u8 = (n % 10) as u8;
    r.push((48u8 + d) as char);
    assert(r@ =~= decimal(n as nat));
    r
}

/// The decimal numeral of `n`, with its sign where it is negative.
pub fn escribir_entero(n: i32) -> (r: String)
    ensures
        r@ == numeral(n as int),
{
    if n < 0 {
        let mut r = String::new();
        r.push('-');
        let m: i64 = n as i64;
        let absoluto = escribir_decimal((-m) as u128);
        r.append(absoluto.as_str());
        assert(r@ =~= numeral(n as int));
        r
    } else {
        escribir_decimal(n as u128)
    }
}

} // verus!
