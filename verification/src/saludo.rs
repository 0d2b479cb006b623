//! The opening handshake of a WebSocket connection.

use vstd::prelude::*;
use vstd::utf8::{decode_utf8, encode_utf8, is_ascii_chars, valid_utf8};
use base64::Engine;

verus! {

/// The text that `String::from_utf8_lossy` makes of bytes.
pub uninterp spec fn utf8_tolerante(bytes: Seq<u8>) -> Seq<char>;

/// `String::from_utf8_lossy` of std: a text that is a function of the bytes, namely the one that
/// they encode where they are valid UTF-8.
#[verifier::external_body]
fn texto_tolerante(bytes: &[u8]) -> (r: String)
    ensures
        r@ == utf8_tolerante(bytes@),
        valid_utf8(bytes@) ==> r@ == decode_utf8(bytes@),
{
    String::from_utf8_lossy(bytes).into_owned()
}

/// The lowercase form that `str::to_lowercase` makes of a text.
pub uninterp spec fn minusculas(s: Seq<char>) -> Seq<char>;

/// The lowercase form of an ASCII character.
pub open spec fn minuscula_ascii(c: char) -> char {
    if 'A' <= c <= 'Z' {
        (c as u32 + 32) as char
    } else {
        c
    }
}

/// The lowercase form of an ASCII text.
pub open spec fn minusculas_ascii(s: Seq<char>) -> Seq<char> {
    s.map_values(|c: char| minuscula_ascii(c))
}

/// `str::to_lowercase` of std: a text that is a function of the given one. In an ASCII text the
/// letters from A to Z, and nothing else, are replaced.
pub assume_specification[ str::to_lowercase ](s: &str) -> (r: String)
    ensures
        r@ == minusculas(s@),
        is_ascii_chars(s@) ==> r@ == minusculas_ascii(s@),
;

/// Lowercasing an ASCII text replaces each letter from A to Z by the letter 32 places further, and
/// nothing else.
pub proof fn ley_minusculas_ascii(s: Seq<char>, i: int)
    requires
        0 <= i < s.len(),
    ensures
        minusculas_ascii(s).len() == s.len(),
        65 <= s[i] as u32 <= 90 ==> minusculas_ascii(s)[i] as u32 == s[i] as u32 + 32,
        !(65 <= s[i] as u32 <= 90) ==> minusculas_ascii(s)[i] == s[i],
{
}

/// Whether a character has the Unicode property `White_Space`.
pub open spec fn es_blanco(c: char) -> bool {
    let n = c as u32;
    ||| 0x9 <= n <= 0xd
    ||| n == 0x20
    ||| n == 0x85
    ||| n == 0xa0
    ||| n == 0x1680
    ||| 0x2000 <= n <= 0x200a
    ||| n == 0x2028
    ||| n == 0x2029
    ||| n == 0x202f
    ||| n == 0x205f
    ||| n == 0x3000
}

/// `char::is_whitespace` of std: whether the character has the Unicode property `White_Space`.
pub assume_specification[ char::is_whitespace ](c: char) -> (r: bool)
    ensures
        r == es_blanco(c),
;

/// The SHA-1 digest of bytes.
pub uninterp spec fn sha1_resumen(datos: Seq<u8>) -> Seq<u8>;

/// `Sha1::digest` of `sha1`: the digest is a function of the bytes and has twenty bytes.
#[verifier::external_body]
fn resumen_sha1(datos: &[u8]) -> (r: Vec<u8>)
    ensures
        r@ == sha1_resumen(datos@),
        r@.len() == 20,
{
    <sha1::Sha1 as sha1::Digest>::digest(datos).to_vec()
}

/// The standard Base64 form of bytes, with padding.
pub uninterp spec fn base64_estandar(datos: Seq<u8>) -> Seq<char>;

/// `Engine::encode` of `base64` with the standard alphabet and padding: a text that is a function
/// of the bytes, with four characters for every three bytes or part of three. There may not be so
/// many bytes that the text outgrows what can be allocated.
#[verifier::external_body]
fn codificar_base64(datos: &[u8]) -> (r: String)
    requires
        datos@.len() <= usize::MAX / 4,
    ensures
        r@ == base64_estandar(datos@),
        r@.len() == (datos@.len() + 2) / 3 * 4,
{
    base64::engine::general_purpose::STANDARD.encode(datos)
}

/// The characters of a text.
fn caracteres(s: &str) -> (v: Vec<char>)
    ensures
        v@ == s@,
{
    let mut v: Vec<char> = Vec::new();
    for c in it: s.chars()
        invariant
            v@ == it.seq().take(it.index() as int),
            it.seq() == s@,
    {
        v.push(c);
        assert(v@ =~= it.seq().take(it.index() + 1));
    }
    assert(v@ =~= s@);
    v
}

/// The text of the characters from `desde` up to `hasta`.
fn texto_entre(v: &Vec<char>, desde: usize, hasta: usize) -> (r: String)
    requires
        desde <= hasta <= v@.len(),
    ensures
        r@ == v@.subrange(desde as int, hasta as int),
{
    let mut r = String::new();
    let mut i: usize = desde;
    while i < hasta
        invariant
            desde <= i <= hasta <= v@.len(),
            r@ == v@.subrange(desde as int, i as int),
        decreases hasta - i,
    {
        r.push(v[i]);
        i = i + 1;
        assert(r@ =~= v@.subrange(desde as int, i as int));
    }
    r
}

/// Where the character `c` stands first; the length where it does not occur.
pub open spec fn hasta(s: Seq<char>, c: char) -> nat
    decreases s.len(),
{
    if s.len() == 0 || s[0] == c {
        0
    } else {
        1 + hasta(s.drop_first(), c)
    }
}

/// Finds where the character `c` stands first from `desde` up to `fin`.
fn buscar_caracter(v: &Vec<char>, desde: usize, fin: usize, c: char) -> (r: usize)
    requires
        desde <= fin <= v@.len(),
    ensures
        desde <= r <= fin,
        r - desde == hasta(v@.subrange(desde as int, fin as int), c),
        r < fin ==> v@[r as int] == c,
{
    let ghost s = v@.subrange(desde as int, fin as int);
    let mut i: usize = desde;
    assert(s.skip(0) =~= s);
    while i < fin && v[i] != c
        invariant
            desde <= i <= fin <= v@.len(),
            s == v@.subrange(desde as int, fin as int),
            hasta(s, c) == i - desde + hasta(s.skip(i - desde), c),
        decreases fin - i,
    {
        assert(s.skip(i - desde)[0] == v@[i as int]);
        assert(s.skip(i - desde).drop_first() =~= s.skip(i + 1 - desde));
        i = i + 1;
    }
    assert(i < fin ==> s.skip(i - desde)[0] == v@[i as int]);
    i
}

/// A line without the carriage return that is part of its ending.
pub open spec fn sin_retorno(l: Seq<char>) -> Seq<char> {
    if l.len() > 0 && l.last() == '\r' {
        l.drop_last()
    } else {
        l
    }
}

/// The lines of a text, without their endings. A line ends with a line feed, or with a carriage
/// return and a line feed; the last one may end with the text.
pub open spec fn lineas(s: Seq<char>) -> Seq<Seq<char>>
    decreases s.len(),
{
    if s.len() == 0 {
        seq![]
    } else {
        let f = hasta(s, '\n') as int;
        if f >= s.len() {
            seq![s]
        } else {
            seq![sin_retorno(s.take(f))] + lineas(s.skip(f + 1))
        }
    }
}

/// How the line with the key starts, in lowercase.
pub open spec fn prefijo() -> Seq<char> {
    "sec-websocket-key:"@
}

/// Whether a line that is `m` in lowercase is the line with the key.
pub open spec fn lleva_clave(m: Seq<char>) -> bool {
    prefijo().is_prefix_of(m)
}

/// The first line with the key, where `f` makes the lowercase form of a line.
pub open spec fn primera(ls: Seq<Seq<char>>, f: spec_fn(Seq<char>) -> Seq<char>) -> Option<
    Seq<char>,
>
    decreases ls.len(),
{
    if ls.len() == 0 {
        None
    } else if lleva_clave(f(ls[0])) {
        Some(ls[0])
    } else {
        primera(ls.drop_first(), f)
    }
}

/// A text without the white space at its start.
pub open spec fn sin_inicio(s: Seq<char>) -> Seq<char>
    decreases s.len(),
{
    if s.len() > 0 && es_blanco(s[0]) {
        sin_inicio(s.drop_first())
    } else {
        s
    }
}

/// A text without the white space at its end.
pub open spec fn sin_final(s: Seq<char>) -> Seq<char>
    decreases s.len(),
{
    if s.len() > 0 && es_blanco(s.last()) {
        sin_final(s.drop_last())
    } else {
        s
    }
}

/// A text without the white space around it.
pub open spec fn recortar(s: Seq<char>) -> Seq<char> {
    sin_final(sin_inicio(s))
}

/// What stands behind the first colon of a line, without the white space around it.
pub open spec fn valor_linea(l: Seq<char>) -> Option<Seq<char>> {
    let p = hasta(l, ':') as int;
    if p >= l.len() {
        None
    } else {
        Some(recortar(l.skip(p + 1)))
    }
}

/// The key that a request holds, where `f` makes the lowercase form of a line.
pub open spec fn clave_con(s: Seq<char>, f: spec_fn(Seq<char>) -> Seq<char>) -> Option<Seq<char>> {
    match primera(lineas(s), f) {
        Some(l) => valor_linea(l),
        None => None,
    }
}

/// The key that a request holds.
pub open spec fn clave_de(s: Seq<char>) -> Option<Seq<char>> {
    clave_con(s, |l: Seq<char>| minusculas(l))
}

/// The key that a request in ASCII holds.
pub open spec fn clave_ascii(s: Seq<char>) -> Option<Seq<char>> {
    clave_con(s, |l: Seq<char>| minusculas_ascii(l))
}

/// Whether a line that is `minuscula` in lowercase is the line with the key.
pub fn es_linea_clave(minuscula: &str) -> (r: bool)
    ensures
        r == lleva_clave(minuscula@),
{
    let m = caracteres(minuscula);
    let p = caracteres("sec-websocket-key:");
    if m.len() < p.len() {
        return false;
    }
    let mut i: usize = 0;
    while i < p.len()
        invariant
            i <= p.len() <= m.len(),
            p@ == prefijo(),
            m@ == minuscula@,
            forall|j: int| 0 <= j < i ==> p@[j] == m@[j],
        decreases p.len() - i,
    {
        if p[i] != m[i] {
            assert(!(prefijo() =~= m@.subrange(0, prefijo().len() as int))) by {
                assert(m@.subrange(0, prefijo().len() as int)[i as int] == m@[i as int]);
            }
            return false;
        }
        i = i + 1;
    }
    assert(prefijo() =~= m@.subrange(0, prefijo().len() as int));
    true
}

/// The text from `desde` up to `hasta` without the white space around it.
fn recortar_entre(v: &Vec<char>, desde: usize, hasta: usize) -> (r: String)
    requires
        desde <= hasta <= v@.len(),
    ensures
        r@ == recortar(v@.subrange(desde as int, hasta as int)),
{
    let ghost s = v@.subrange(desde as int, hasta as int);
    let mut i: usize = desde;
    while i < hasta
        invariant
            desde <= i <= hasta <= v@.len(),
            s == v@.subrange(desde as int, hasta as int),
            sin_inicio(s) == sin_inicio(v@.subrange(i as int, hasta as int)),
        ensures
            desde <= i <= hasta <= v@.len(),
            sin_inicio(s) == v@.subrange(i as int, hasta as int),
        decreases hasta - i,
    {
        let ghost t = v@.subrange(i as int, hasta as int);
        assert(t[0] == v@[i as int]);
        assert(t.drop_first() =~= v@.subrange(i + 1, hasta as int));
        if !v[i].is_whitespace() {
            break;
        }
        i = i + 1;
    }
    let ghost t = v@.subrange(i as int, hasta as int);
    let mut j: usize = hasta;
    while i < j
        invariant
            desde <= i <= j <= hasta <= v@.len(),
            t == v@.subrange(i as int, hasta as int),
            sin_final(t) == sin_final(v@.subrange(i as int, j as int)),
        ensures
            desde <= i <= j <= hasta <= v@.len(),
            sin_final(t) == v@.subrange(i as int, j as int),
        decreases j,
    {
        let ghost w = v@.subrange(i as int, j as int);
        assert(w.last() == v@[j - 1]);
        assert(w.drop_last() =~= v@.subrange(i as int, j - 1));
        if !v[j - 1].is_whitespace() {
            break;
        }
        j = j - 1;
    }
    texto_entre(v, i, j)
}

/// Finds the key in a request.
pub fn clave_websocket(texto: &str) -> (r: Option<String>)
    ensures
        match r {
            Some(k) => clave_de(texto@) == Some(k@),
            None => clave_de(texto@) is None,
        },
        is_ascii_chars(texto@) ==> match r {
            Some(k) => clave_ascii(texto@) == Some(k@),
            None => clave_ascii(texto@) is None,
        },
{
    let v = caracteres(texto);
    let n: usize = v.len();
    let ghost s = texto@;
    let ghost f = |l: Seq<char>| minusculas(l);
    let ghost g = |l: Seq<char>| minusculas_ascii(l);
    let mut i: usize = 0;
    assert(s.skip(0) =~= s);
    while i < n
        invariant
            i <= n,
            n == v@.len(),
            v@ == s,
            s == texto@,
            f == (|l: Seq<char>| minusculas(l)),
            g == (|l: Seq<char>| minusculas_ascii(l)),
            primera(lineas(s), f) == primera(lineas(s.skip(i as int)), f),
            is_ascii_chars(s) ==> primera(lineas(s), g) == primera(lineas(s.skip(i as int)), g),
        decreases n - i,
    {
        let ghost t = s.skip(i as int);
        let fin: usize = buscar_caracter(&v, i, n, '\n');
        let e: usize = if fin < n && fin > i && v[fin - 1] == '\r' {
            fin - 1
        } else {
            fin
        };
        let ghost l = v@.subrange(i as int, e as int);
        proof {
            assert(v@.subrange(i as int, n as int) =~= t);
            let ls = lineas(t);
            if fin < n {
                assert(t.take(fin - i) =~= v@.subrange(i as int, fin as int));
                assert(sin_retorno(t.take(fin - i)) =~= l);
                assert(t.skip(fin - i + 1) =~= s.skip(fin + 1));
                assert(ls.drop_first() =~= lineas(s.skip(fin + 1)));
            } else {
                assert(t =~= l);
                assert(ls.drop_first() =~= seq![]);
                assert(s.skip(n as int) =~= seq![]);
            }
            assert(ls[0] == l);
        }
        let linea = texto_entre(&v, i, e);
        let minuscula = linea.as_str().to_lowercase();
        assert(f(l) == minuscula@);
        assert(is_ascii_chars(s) ==> is_ascii_chars(l) && g(l) == minuscula@);
        if es_linea_clave(minuscula.as_str()) {
            let p: usize = buscar_caracter(&v, i, e, ':');
            if p >= e {
                return None;
            }
            assert(l.skip(p - i + 1) =~= v@.subrange(p + 1, e as int));
            return Some(recortar_entre(&v, p + 1, e));
        }
        if fin >= n {
            i = n;
        } else {
            i = fin + 1;
        }
    }
    assert(s.skip(n as int) =~= seq![]);
    None
}

/// A line feed behind a carriage return.
pub open spec fn fin_de_linea() -> Seq<char> {
    seq!['\r', '\n']
}

/// Where the character is that does not occur in what stands before it.
proof fn lema_hasta(a: Seq<char>, c: char, z: Seq<char>)
    requires
        !a.contains(c),
    ensures
        hasta(a + seq![c] + z, c) == a.len(),
    decreases a.len(),
{
    let s = a + seq![c] + z;
    if a.len() > 0 {
        assert(a.contains(a[0]));
        assert(s[0] == a[0]);
        assert(s.drop_first() =~= a.drop_first() + seq![c] + z);
        assert forall|x: char| a.drop_first().contains(x) implies a.contains(x) by {
            let i = a.drop_first().index_of(x);
            assert(a[i + 1] == x);
        }
        lema_hasta(a.drop_first(), c, z);
    } else {
        assert(s[0] == c);
    }
}

/// The lines of a text that starts with the line `l`.
proof fn lema_lineas(l: Seq<char>, s: Seq<char>)
    requires
        !l.contains('\n'),
    ensures
        lineas(l + fin_de_linea() + s) == seq![l] + lineas(s),
{
    let t = l + fin_de_linea() + s;
    let a = l.push('\r');
    assert forall|x: char| x == '\n' implies !a.contains(x) by {
        if a.contains(x) {
            let i = a.index_of(x);
            assert(i < l.len());
            assert(l[i] == x);
        }
    }
    assert(t =~= a + seq!['\n'] + s);
    lema_hasta(a, '\n', s);
    assert(t.take(a.len() as int) =~= a);
    assert(a.drop_last() =~= l);
    assert(t.skip(a.len() as int + 1) =~= s);
}

/// A line that does not hold the key has no influence on the key that is found behind it.
pub proof fn ley_linea_ajena(l: Seq<char>, s: Seq<char>, f: spec_fn(Seq<char>) -> Seq<char>)
    requires
        !l.contains('\n'),
        !lleva_clave(f(l)),
    ensures
        clave_con(l + fin_de_linea() + s, f) == clave_con(s, f),
{
    lema_lineas(l, s);
    let ls = seq![l] + lineas(s);
    assert(ls[0] == l);
    assert(ls.drop_first() =~= lineas(s));
}

/// Leading white space is taken off, and no more.
proof fn lema_sin_inicio(p: Seq<char>, k: Seq<char>)
    requires
        forall|i: int| 0 <= i < p.len() ==> es_blanco(#[trigger] p[i]),
        k.len() > 0,
        !es_blanco(k[0]),
    ensures
        sin_inicio(p + k) == k,
    decreases p.len(),
{
    if p.len() > 0 {
        assert((p + k)[0] == p[0]);
        assert((p + k).drop_first() =~= p.drop_first() + k);
        lema_sin_inicio(p.drop_first(), k);
    } else {
        assert(p + k =~= k);
    }
}

/// Trailing white space is taken off, and no more.
proof fn lema_sin_final(k: Seq<char>, q: Seq<char>)
    requires
        forall|i: int| 0 <= i < q.len() ==> es_blanco(#[trigger] q[i]),
        k.len() > 0,
        !es_blanco(k.last()),
    ensures
        sin_final(k + q) == k,
    decreases q.len(),
{
    if q.len() > 0 {
        assert((k + q).last() == q.last());
        assert((k + q).drop_last() =~= k + q.drop_last());
        lema_sin_final(k, q.drop_last());
    } else {
        assert(k + q =~= k);
    }
}

/// The name of the header holds neither a colon nor a line feed, and a colon behind it makes the
/// prefix.
proof fn lema_prefijo()
    ensures
        prefijo() == "sec-websocket-key"@ + seq![':'],
        forall|i: int|
            0 <= i < "sec-websocket-key"@.len() ==> #[trigger] "sec-websocket-key"@[i] != ':'
                && "sec-websocket-key"@[i] != '\n',
{
    reveal_strlit("sec-websocket-key");
    reveal_strlit("sec-websocket-key:");
    let nombre = seq![
        's', 'e', 'c', '-', 'w', 'e', 'b', 's', 'o', 'c', 'k', 'e', 't', '-', 'k', 'e', 'y',
    ];
    assert("sec-websocket-key"@ =~= nombre);
    assert(prefijo() =~= nombre + seq![':']);
    assert(forall|i: int|
        0 <= i < nombre.len() ==> #[trigger] nombre[i] != ':' && nombre[i] != '\n');
}

/// The lines of a text. A line ends with a line feed, and a carriage return right before that is
/// part of the ending; what stands behind the last ending is a line too, unless it is empty.
pub proof fn ley_lineas(l: Seq<char>, s: Seq<char>)
    requires
        !l.contains('\n'),
    ensures
        lineas(l + seq!['\r', '\n'] + s) == seq![l] + lineas(s),
        l.len() == 0 || l.last() != '\r' ==> lineas(l + seq!['\n'] + s) == seq![l] + lineas(s),
        l.len() > 0 ==> lineas(l) == seq![l],
        l.len() == 0 ==> lineas(l).len() == 0,
{
    lema_lineas(l, s);
    lema_hasta(l, '\n', s);
    let t = l + seq!['\n'] + s;
    assert(t.take(l.len() as int) =~= l);
    assert(t.skip(l.len() as int + 1) =~= s);
    lema_hasta_fin(l, '\n');
}

/// A character that does not occur is looked for up to the end.
proof fn lema_hasta_fin(s: Seq<char>, c: char)
    requires
        !s.contains(c),
    ensures
        hasta(s, c) == s.len(),
    decreases s.len(),
{
    if s.len() > 0 {
        assert(s.contains(s[0]));
        assert forall|x: char| s.drop_first().contains(x) implies s.contains(x) by {
            let i = s.drop_first().index_of(x);
            assert(s[i + 1] == x);
        }
        lema_hasta_fin(s.drop_first(), c);
    }
}

/// What is left without the white space at the start is the end of the text, behind white space
/// only, and does not start with white space.
proof fn lema_inicio(s: Seq<char>) -> (i: int)
    ensures
        0 <= i <= s.len(),
        sin_inicio(s) == s.skip(i),
        forall|p: int| 0 <= p < i ==> es_blanco(#[trigger] s[p]),
        i < s.len() ==> !es_blanco(s[i]),
    decreases s.len(),
{
    if s.len() > 0 && es_blanco(s[0]) {
        let t = s.drop_first();
        let i = lema_inicio(t);
        assert(t.skip(i) =~= s.skip(i + 1));
        assert forall|p: int| 0 <= p < i + 1 implies es_blanco(#[trigger] s[p]) by {
            if p > 0 {
                assert(t[p - 1] == s[p]);
            }
        }
        if i < t.len() {
            assert(t[i] == s[i + 1]);
        }
        i + 1
    } else {
        assert(s.skip(0) =~= s);
        0
    }
}

/// What is left without the white space at the end is the start of the text, before white space
/// only, and does not end with white space.
proof fn lema_final(s: Seq<char>) -> (j: int)
    ensures
        0 <= j <= s.len(),
        sin_final(s) == s.take(j),
        forall|p: int| j <= p < s.len() ==> es_blanco(#[trigger] s[p]),
        j > 0 ==> !es_blanco(s[j - 1]),
    decreases s.len(),
{
    if s.len() > 0 && es_blanco(s.last()) {
        let t = s.drop_last();
        let j = lema_final(t);
        assert(t.take(j) =~= s.take(j));
        assert forall|p: int| j <= p < s.len() implies es_blanco(#[trigger] s[p]) by {
            if p < t.len() {
                assert(t[p] == s[p]);
            }
        }
        j
    } else {
        assert(s.take(s.len() as int) =~= s);
        s.len() as int
    }
}

/// Trimming takes white space off both ends of a text, and nothing but white space, and leaves none
/// there.
pub proof fn ley_recortar(s: Seq<char>)
    ensures
        ({
            let r = recortar(s);
            &&& r.len() > 0 ==> !es_blanco(r[0]) && !es_blanco(r.last())
            &&& exists|i: int|
                #![trigger s.subrange(i, i + r.len())]
                {
                    &&& 0 <= i && i + r.len() <= s.len()
                    &&& r == s.subrange(i, i + r.len())
                    &&& forall|p: int|
                        0 <= p < s.len() && (p < i || i + r.len() <= p) ==> es_blanco(#[trigger] s[p])
                }
        }),
{
    let i = lema_inicio(s);
    let t = s.skip(i);
    let j = lema_final(t);
    let r = recortar(s);
    assert(r == t.take(j));
    assert(r =~= s.subrange(i, i + j));
    assert forall|p: int| 0 <= p < s.len() && (p < i || i + r.len() <= p) implies es_blanco(
        #[trigger] s[p],
    ) by {
        if p >= i {
            assert(t[p - i] == s[p]);
        }
    }
    if r.len() > 0 {
        assert(r[0] == s[i]);
        assert(r.last() == t[j - 1]);
    }
}

/// The first line of those from `p` on that satisfies the condition is at the position where it is.
proof fn lema_primera(ls: Seq<Seq<char>>, f: spec_fn(Seq<char>) -> Seq<char>, p: int)
    ensures
        0 <= p < ls.len() && lleva_clave(f(ls[p])) && (forall|q: int|
            0 <= q < p ==> !lleva_clave(f(#[trigger] ls[q]))) ==> primera(ls, f) == Some(ls[p]),
        (forall|q: int| 0 <= q < ls.len() ==> !lleva_clave(f(#[trigger] ls[q]))) ==> primera(ls, f)
            is None,
    decreases ls.len(),
{
    if ls.len() > 0 {
        let resto = ls.drop_first();
        lema_primera(resto, f, p - 1);
        if forall|q: int| 0 <= q < ls.len() ==> !lleva_clave(f(#[trigger] ls[q])) {
            assert(!lleva_clave(f(ls[0])));
            assert forall|q: int| 0 <= q < resto.len() implies !lleva_clave(
                f(#[trigger] resto[q]),
            ) by {
                assert(resto[q] == ls[q + 1]);
            }
        }
        if 0 < p < ls.len() && lleva_clave(f(ls[p])) && (forall|q: int|
            0 <= q < p ==> !lleva_clave(f(#[trigger] ls[q]))) {
            assert(!lleva_clave(f(ls[0])));
            assert(resto[p - 1] == ls[p]);
            assert forall|q: int| 0 <= q < p - 1 implies !lleva_clave(f(#[trigger] resto[q])) by {
                assert(resto[q] == ls[q + 1]);
            }
        }
    }
}

/// Whether a line, in lowercase ASCII, starts with the name of the key header and a colon.
pub open spec fn con_cabecera(l: Seq<char>) -> bool {
    "sec-websocket-key:"@.is_prefix_of(minusculas_ascii(l))
}

/// A request in ASCII is refused exactly where no line of it starts with the name of the key header
/// and a colon, in any mixture of upper and lower case. Where some do, the first of them counts, and
/// the key is what stands behind these eighteen characters, without the white space around it.
pub proof fn ley_clave(s: Seq<char>, p: int)
    ensures
        clave_ascii(s) is None <==> forall|q: int|
            0 <= q < lineas(s).len() ==> !con_cabecera(#[trigger] lineas(s)[q]),
        0 <= p < lineas(s).len() && con_cabecera(lineas(s)[p]) && (forall|q: int|
            0 <= q < p ==> !con_cabecera(#[trigger] lineas(s)[q])) ==> clave_ascii(s) == Some(
            recortar(lineas(s)[p].skip(18)),
        ),
{
    let ls = lineas(s);
    let f = |l: Seq<char>| minusculas_ascii(l);
    lema_primera(ls, f, p);
    assert forall|q: int| 0 <= q < ls.len() implies con_cabecera(#[trigger] ls[q]) == lleva_clave(
        f(ls[q]),
    ) by {}
    assert forall|q: int| 0 <= q < ls.len() && con_cabecera(#[trigger] ls[q]) implies valor_linea(
        ls[q],
    ) == Some(recortar(ls[q].skip(18))) by {
        lema_dieciocho(ls[q]);
    }
    if 0 <= p < ls.len() && con_cabecera(ls[p]) && (forall|q: int|
        0 <= q < p ==> !con_cabecera(#[trigger] ls[q])) {
        assert forall|q: int| 0 <= q < p implies !lleva_clave(f(#[trigger] ls[q])) by {
            assert(!con_cabecera(ls[q]));
        }
    }
    if exists|q: int| 0 <= q < ls.len() && con_cabecera(#[trigger] ls[q]) {
        let q = choose|q: int| 0 <= q < ls.len() && con_cabecera(#[trigger] ls[q]);
        lema_alguna(ls, f, q);
    } else {
        assert forall|q: int| 0 <= q < ls.len() implies !lleva_clave(f(#[trigger] ls[q])) by {
            assert(!con_cabecera(ls[q]));
        }
    }
}

/// Any request: only lines whose lowercase form starts with the name of the key header and a colon
/// count, and of these only the first. The key is what stands behind the first colon of that line,
/// without the white space around it; a line without a colon holds none.
pub proof fn ley_clave_general(s: Seq<char>, p: int, a: Seq<char>, b: Seq<char>)
    ensures
        (forall|q: int|
            0 <= q < lineas(s).len() ==> !"sec-websocket-key:"@.is_prefix_of(
                minusculas(#[trigger] lineas(s)[q]),
            )) ==> clave_de(s) is None,
        0 <= p < lineas(s).len() && "sec-websocket-key:"@.is_prefix_of(minusculas(lineas(s)[p]))
            && (forall|q: int|
            0 <= q < p ==> !"sec-websocket-key:"@.is_prefix_of(
                minusculas(#[trigger] lineas(s)[q]),
            )) ==> {
            &&& lineas(s)[p] == a + seq![':'] + b && !a.contains(':') ==> clave_de(s) == Some(
                recortar(b),
            )
            &&& !lineas(s)[p].contains(':') ==> clave_de(s) is None
        },
{
    let ls = lineas(s);
    let f = |l: Seq<char>| minusculas(l);
    lema_primera(ls, f, p);
    assert forall|q: int| 0 <= q < ls.len() implies lleva_clave(f(#[trigger] ls[q]))
        == "sec-websocket-key:"@.is_prefix_of(minusculas(ls[q])) by {}
    if 0 <= p < ls.len() {
        if ls[p] == a + seq![':'] + b && !a.contains(':') {
            lema_hasta(a, ':', b);
            assert(ls[p].skip(a.len() as int + 1) =~= b);
        }
        if !ls[p].contains(':') {
            lema_hasta_fin(ls[p], ':');
        }
    }
}

/// Where some line satisfies the condition, the first that does is found.
proof fn lema_alguna(ls: Seq<Seq<char>>, f: spec_fn(Seq<char>) -> Seq<char>, q: int)
    requires
        0 <= q < ls.len(),
        lleva_clave(f(ls[q])),
    ensures
        primera(ls, f) matches Some(l) && ls.contains(l) && lleva_clave(f(l)),
    decreases ls.len(),
{
    if lleva_clave(f(ls[0])) {
        assert(ls.contains(ls[0]));
    } else {
        assert(ls.drop_first()[q - 1] == ls[q]);
        lema_alguna(ls.drop_first(), f, q - 1);
        let l = primera(ls, f)->0;
        let i = ls.drop_first().index_of(l);
        assert(ls[i + 1] == l);
    }
}

/// A line with the key has its first colon at the end of the name.
proof fn lema_dieciocho(l: Seq<char>)
    requires
        con_cabecera(l),
    ensures
        valor_linea(l) == Some(recortar(l.skip(18))),
{
    lema_prefijo();
    reveal_strlit("sec-websocket-key:");
    let m = minusculas_ascii(l);
    let n = 17int;
    assert("sec-websocket-key:"@.len() == 18);
    assert("sec-websocket-key:"@ == m.subrange(0, 18));
    let h = l.take(n);
    assert forall|i: int| 0 <= i < 18 implies #[trigger] prefijo()[i] == minuscula_ascii(l[i]) by {
        assert(m.subrange(0, 18)[i] == m[i]);
    }
    assert(prefijo()[17] == ':');
    assert(l[17] == ':') by {
        assert(prefijo()[17] == minuscula_ascii(l[17]));
    }
    assert(!h.contains(':')) by {
        if h.contains(':') {
            let i = h.index_of(':');
            assert(l[i] == ':');
            assert(prefijo()[i] == minuscula_ascii(l[i]));
            assert("sec-websocket-key"@[i] == prefijo()[i]);
        }
    }
    lema_hasta(h, ':', l.skip(18));
    assert(l =~= h + seq![':'] + l.skip(18));
}

/// The key is found: in a line whose name is that of the key header in any mixture of upper and
/// lower case, it is what stands behind the colon, without the white space around it.
pub proof fn ley_clave_hallada(
    h: Seq<char>,
    izq: Seq<char>,
    k: Seq<char>,
    der: Seq<char>,
    s: Seq<char>,
)
    requires
        minusculas_ascii(h) == "sec-websocket-key"@,
        forall|i: int| 0 <= i < izq.len() ==> es_blanco(#[trigger] izq[i]) && izq[i] != '\n',
        forall|i: int| 0 <= i < der.len() ==> es_blanco(#[trigger] der[i]) && der[i] != '\n',
        k.len() > 0,
        !k.contains('\n'),
        !es_blanco(k[0]),
        !es_blanco(k.last()),
    ensures
        clave_ascii(h + seq![':'] + izq + k + der + fin_de_linea() + s) == Some(k),
{
    lema_prefijo();
    let f = |l: Seq<char>| minusculas_ascii(l);
    let valor = izq + k + der;
    let l = h + seq![':'] + valor;
    assert(h.len() == "sec-websocket-key"@.len());
    assert forall|i: int| 0 <= i < h.len() implies #[trigger] h[i] != ':' && h[i] != '\n' by {
        assert(minusculas_ascii(h)[i] == minuscula_ascii(h[i]));
        assert("sec-websocket-key"@[i] != ':');
        assert("sec-websocket-key"@[i] != '\n');
    }
    assert(!l.contains('\n')) by {
        if l.contains('\n') {
            let i = l.index_of('\n');
            if i >= h.len() + 1 {
                let j = i - h.len() - 1;
                assert(valor[j] == '\n');
                if j >= izq.len() {
                    if j < izq.len() + k.len() {
                        assert(k[j - izq.len()] == '\n');
                    } else {
                        assert(der[j - izq.len() - k.len()] == '\n');
                    }
                }
            }
        }
    }
    assert(h + seq![':'] + izq + k + der + fin_de_linea() + s =~= l + fin_de_linea() + s);
    lema_lineas(l, s);
    let ls = seq![l] + lineas(s);
    assert(ls[0] == l);
    assert(lleva_clave(f(l))) by {
        assert(prefijo() =~= f(l).subrange(0, prefijo().len() as int)) by {
            assert forall|i: int| 0 <= i < prefijo().len() implies prefijo()[i] == #[trigger] f(
                l,
            )[i] by {
                if i < h.len() {
                    assert(minusculas_ascii(h)[i] == minuscula_ascii(h[i]));
                    assert(prefijo()[i] == "sec-websocket-key"@[i]);
                } else {
                    assert(l[i] == ':');
                }
            }
        }
    }
    lema_hasta(h, ':', valor);
    assert(l.skip(h.len() as int + 1) =~= izq + (k + der));
    assert((k + der)[0] == k[0]);
    lema_sin_inicio(izq, k + der);
    lema_sin_final(k, der);
}

/// What the protocol appends to the key before it is digested.
pub open spec fn magia() -> Seq<char> {
    "258EAFA5-E914-47DA-95CA-C5AB0DC85B11"@
}

/// The answer to a key: the Base64 form of the SHA-1 digest of the key and the fixed text.
pub open spec fn aceptacion(clave: Seq<char>) -> Seq<char> {
    base64_estandar(sha1_resumen(encode_utf8(clave + magia())))
}

/// The bytes of two texts in a row are the bytes of the first and then those of the second.
proof fn lema_utf8_suma(a: Seq<char>, b: Seq<char>)
    ensures
        encode_utf8(a + b) == encode_utf8(a) + encode_utf8(b),
    decreases a.len(),
{
    reveal_with_fuel(encode_utf8, 2);
    if a.len() == 0 {
        assert(a + b =~= b);
        assert(encode_utf8(a) + encode_utf8(b) =~= encode_utf8(b));
    } else {
        assert((a + b).drop_first() =~= a.drop_first() + b);
        assert((a + b)[0] == a[0]);
        lema_utf8_suma(a.drop_first(), b);
        assert(encode_utf8(a + b) =~= encode_utf8(a) + encode_utf8(b));
    }
}

/// The answer to a key is the Base64 form of the SHA-1 digest of the bytes of the key followed by
/// those of the identifier that the protocol fixes.
pub proof fn ley_aceptacion(clave: Seq<char>)
    ensures
        aceptacion(clave) == base64_estandar(
            sha1_resumen(
                encode_utf8(clave) + encode_utf8("258EAFA5-E914-47DA-95CA-C5AB0DC85B11"@),
            ),
        ),
{
    lema_utf8_suma(clave, "258EAFA5-E914-47DA-95CA-C5AB0DC85B11"@);
}

/// Computes the answer to a key, which has 28 characters.
pub fn aceptar_clave(clave: &str) -> (r: String)
    ensures
        r@ == aceptacion(clave@),
        r@.len() == 28,
{
    let mut texto = clave.to_string();
    texto.append("258EAFA5-E914-47DA-95CA-C5AB0DC85B11");
    let resumen = resumen_sha1(texto.as_str().as_bytes());
    codificar_base64(resumen.as_slice())
}

/// The response that opens the connection with the given answer to the key.
pub open spec fn respuesta(accept: Seq<char>) -> Seq<char> {
    "HTTP/1.1 101 Switching Protocols\r\nUpgrade: websocket\r\nConnection: Upgrade\r\nSec-WebSocket-Accept: "@
        + accept + "\r\n\r\n"@
}

/// The fixed part of the response, line by line.
proof fn lema_cabeceras()
    ensures
        "HTTP/1.1 101 Switching Protocols\r\nUpgrade: websocket\r\nConnection: Upgrade\r\nSec-WebSocket-Accept: "@
            == "HTTP/1.1 101 Switching Protocols"@ + fin_de_linea() + "Upgrade: websocket"@ + fin_de_linea()
            + "Connection: Upgrade"@ + fin_de_linea() + "Sec-WebSocket-Accept: "@,
        !"HTTP/1.1 101 Switching Protocols"@.contains('\n'),
        !"Upgrade: websocket"@.contains('\n'),
        !"Connection: Upgrade"@.contains('\n'),
        !"Sec-WebSocket-Accept: "@.contains('\n'),
        "\r\n\r\n"@ == fin_de_linea() + fin_de_linea(),
{
    reveal_strlit("HTTP/1.1 101 Switching Protocols\r\nUpgrade: websocket\r\nConnection: Upgrade\r\nSec-WebSocket-Accept: ");
    reveal_strlit("HTTP/1.1 101 Switching Protocols");
    reveal_strlit("Upgrade: websocket");
    reveal_strlit("Connection: Upgrade");
    reveal_strlit("Sec-WebSocket-Accept: ");
    reveal_strlit("\r\n\r\n");
    let p0 = seq!['H', 'T', 'T', 'P', '/', '1', '.', '1', ' ', '1', '0', '1', ' ', 'S', 'w', 'i', 't', 'c', 'h', 'i', 'n', 'g', ' ', 'P', 'r', 'o', 't', 'o', 'c', 'o', 'l', 's'];
    assert("HTTP/1.1 101 Switching Protocols"@ =~= p0);
    assert(forall|i: int| 0 <= i < p0.len() ==> #[trigger] p0[i] != '\n');
    let p1 = seq!['U', 'p', 'g', 'r', 'a', 'd', 'e', ':', ' ', 'w', 'e', 'b', 's', 'o', 'c', 'k', 'e', 't'];
    assert("Upgrade: websocket"@ =~= p1);
    assert(forall|i: int| 0 <= i < p1.len() ==> #[trigger] p1[i] != '\n');
    let p2 = seq!['C', 'o', 'n', 'n', 'e', 'c', 't', 'i', 'o', 'n', ':', ' ', 'U', 'p', 'g', 'r', 'a', 'd', 'e'];
    assert("Connection: Upgrade"@ =~= p2);
    assert(forall|i: int| 0 <= i < p2.len() ==> #[trigger] p2[i] != '\n');
    let p3 = seq!['S', 'e', 'c', '-', 'W', 'e', 'b', 'S', 'o', 'c', 'k', 'e', 't', '-', 'A', 'c', 'c', 'e', 'p', 't', ':', ' '];
    assert("Sec-WebSocket-Accept: "@ =~= p3);
    assert(forall|i: int| 0 <= i < p3.len() ==> #[trigger] p3[i] != '\n');
    assert("HTTP/1.1 101 Switching Protocols\r\nUpgrade: websocket\r\nConnection: Upgrade\r\nSec-WebSocket-Accept: "@
        =~= p0 + fin_de_linea() + p1 + fin_de_linea() + p2 + fin_de_linea() + p3);
    assert("\r\n\r\n"@ =~= fin_de_linea() + fin_de_linea());
}

/// The response is read by its lines: the status line, the two headers that announce the change of
/// protocol, the header with the answer to the key, and an empty line.
pub proof fn ley_respuesta(accept: Seq<char>)
    requires
        !accept.contains('\n'),
    ensures
        lineas(respuesta(accept)) == seq![
            "HTTP/1.1 101 Switching Protocols"@,
            "Upgrade: websocket"@,
            "Connection: Upgrade"@,
            "Sec-WebSocket-Accept: "@ + accept,
            Seq::<char>::empty(),
        ],
{
    lema_cabeceras();
    let a = "HTTP/1.1 101 Switching Protocols"@;
    let b = "Upgrade: websocket"@;
    let c = "Connection: Upgrade"@;
    let d = "Sec-WebSocket-Accept: "@ + accept;
    let z = Seq::<char>::empty();
    let n = fin_de_linea();
    assert(!d.contains('\n')) by {
        if d.contains('\n') {
            let i = d.index_of('\n');
            let k = "Sec-WebSocket-Accept: "@.len() as int;
            if i < k {
                assert("Sec-WebSocket-Accept: "@[i] == '\n');
            } else {
                assert(accept[i - k] == '\n');
            }
        }
    }
    let r4 = z + n + z;
    let r3 = d + n + r4;
    let r2 = c + n + r3;
    let r1 = b + n + r2;
    assert(respuesta(accept) =~= a + n + r1);
    lema_lineas(a, r1);
    lema_lineas(b, r2);
    lema_lineas(c, r3);
    lema_lineas(d, r4);
    lema_lineas(z, z);
    assert(lineas(z).len() == 0);
    assert(lineas(respuesta(accept)) =~= seq![a, b, c, d, z]);
}

/// Writes the response that opens the connection with the given answer to the key.
pub fn escribir_respuesta(accept: &str) -> (r: String)
    ensures
        r@ == respuesta(accept@),
{
    let mut r =
        "HTTP/1.1 101 Switching Protocols\r\nUpgrade: websocket\r\nConnection: Upgrade\r\nSec-WebSocket-Accept: ".to_string();
    r.append(accept);
    r.append("\r\n\r\n");
    r
}

/// Why a connection cannot be opened.
#[derive(Debug, Clone, Copy, PartialEq, Eq, Structural)]
pub enum ErrorSaludo {
    /// The request holds no key.
    SinClave,
}

impl ErrorSaludo {
    /// What is reported of the error.
    pub fn texto(self) -> (r: &'static str)
        ensures
            r@ == "no sec-websocket-key"@,
    {
        match self {
            ErrorSaludo::SinClave => "no sec-websocket-key",
        }
    }
}

/// The characters that ASCII bytes stand for.
pub open spec fn texto_ascii(bytes: Seq<u8>) -> Seq<char> {
    bytes.map_values(|b: u8| b as char)
}

/// Whether all bytes are ASCII.
pub open spec fn bytes_ascii(bytes: Seq<u8>) -> bool {
    forall|i: int| 0 <= i < bytes.len() ==> #[trigger] bytes[i] < 128
}

/// Each ASCII byte stands for the character with its number.
pub proof fn ley_texto_ascii(bytes: Seq<u8>, i: int)
    requires
        0 <= i < bytes.len(),
    ensures
        texto_ascii(bytes).len() == bytes.len(),
        texto_ascii(bytes)[i] as u32 == bytes[i],
{
}

/// ASCII bytes are valid UTF-8 and encode the characters that they stand for.
proof fn lema_ascii(bytes: Seq<u8>)
    requires
        bytes_ascii(bytes),
    ensures
        valid_utf8(bytes),
        decode_utf8(bytes) == texto_ascii(bytes),
        is_ascii_chars(texto_ascii(bytes)),
{
    let t = texto_ascii(bytes);
    assert(is_ascii_chars(t));
    vstd::utf8::is_ascii_chars_encode_utf8(t);
    assert(encode_utf8(t) =~= bytes);
    vstd::utf8::encode_utf8_valid_utf8(t);
    vstd::utf8::encode_utf8_decode_utf8(t);
}

/// Answers the request that opens a WebSocket connection: the response for the key that the
/// request holds, or an error where it holds none.
pub fn ws_handshake(peticion: &[u8]) -> (r: Result<String, ErrorSaludo>)
    ensures
        match r {
            Ok(t) => clave_de(utf8_tolerante(peticion@)) matches Some(k) && t@ == respuesta(
                aceptacion(k),
            ),
            Err(_) => clave_de(utf8_tolerante(peticion@)) is None,
        },
        bytes_ascii(peticion@) ==> match r {
            Ok(t) => clave_ascii(texto_ascii(peticion@)) matches Some(k) && t@ == respuesta(
                aceptacion(k),
            ),
            Err(_) => clave_ascii(texto_ascii(peticion@)) is None,
        },
{
    let texto = texto_tolerante(peticion);
    proof {
        if bytes_ascii(peticion@) {
            lema_ascii(peticion@);
        }
    }
    match clave_websocket(texto.as_str()) {
        Some(clave) => {
            let accept = aceptar_clave(clave.as_str());
            Ok(escribir_respuesta(accept.as_str()))
        },
        None => Err(ErrorSaludo::SinClave),
    }
}

} // verus!
