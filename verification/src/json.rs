//! JSON values, as `serde_json` reads, takes apart, builds and writes them.

use vstd::prelude::*;

verus! {

/// What a JSON value holds.
pub enum Json {
    Nulo,
    Bool(bool),
    /// A number that is an integer.
    Entero(int),
    /// Any other number, by the bits of its double-precision form.
    Decimal(u64),
    Texto(Seq<char>),
    Lista(Seq<Json>),
    /// The fields of an object, in their order.
    Objeto(Seq<(Seq<char>, Json)>),
}

/// The field `clave` in a list of fields.
pub open spec fn campo_en(campos: Seq<(Seq<char>, Json)>, clave: Seq<char>) -> Option<Json>
    decreases campos.len(),
{
    if campos.len() == 0 {
        None
    } else if campos[0].0 == clave {
        Some(campos[0].1)
    } else {
        campo_en(campos.drop_first(), clave)
    }
}

/// The field `clave` of a JSON value; only an object has fields.
pub open spec fn campo(j: Json, clave: Seq<char>) -> Option<Json> {
    match j {
        Json::Objeto(campos) => campo_en(campos, clave),
        _ => None,
    }
}

/// A field is found by its name. Where two have the same name, the first is found; what is not an
/// object has no fields.
pub proof fn ley_campo(campos: Seq<(Seq<char>, Json)>, clave: Seq<char>, i: int)
    ensures
        0 <= i < campos.len() && campos[i].0 == clave && (forall|j: int|
            0 <= j < i ==> (#[trigger] campos[j]).0 != clave) ==> campo(
            Json::Objeto(campos),
            clave,
        ) == Some(campos[i].1),
        (forall|j: int| 0 <= j < campos.len() ==> (#[trigger] campos[j]).0 != clave) ==> campo(
            Json::Objeto(campos),
            clave,
        ) is None,
        forall|x: Json| !(x is Objeto) ==> #[trigger] campo(x, clave) is None,
    decreases campos.len(),
{
    if campos.len() > 0 {
        let resto = campos.drop_first();
        ley_campo(resto, clave, i - 1);
        if forall|j: int| 0 <= j < campos.len() ==> (#[trigger] campos[j]).0 != clave {
            assert(campos[0].0 != clave);
            assert forall|j: int| 0 <= j < resto.len() implies (#[trigger] resto[j]).0 != clave by {
                assert(resto[j] == campos[j + 1]);
            }
        }
        if 0 < i < campos.len() && campos[i].0 == clave && (forall|j: int|
            0 <= j < i ==> (#[trigger] campos[j]).0 != clave) {
            assert(campos[0].0 != clave);
            assert(resto[i - 1] == campos[i]);
            assert forall|j: int| 0 <= j < i - 1 implies (#[trigger] resto[j]).0 != clave by {
                assert(resto[j] == campos[j + 1]);
            }
        }
    }
}

/// The string that the field `clave` holds, where there is one.
pub open spec fn campo_texto(j: Json, clave: Seq<char>) -> Option<Seq<char>> {
    match campo(j, clave) {
        Some(Json::Texto(s)) => Some(s),
        _ => None,
    }
}

/// The items that the field `clave` lists, where it holds a list.
pub open spec fn campo_lista(j: Json, clave: Seq<char>) -> Option<Seq<Json>> {
    match campo(j, clave) {
        Some(Json::Lista(s)) => Some(s),
        _ => None,
    }
}

/// The integer that the field `clave` holds, where there is one that fits in 64 bits with a sign.
pub open spec fn campo_entero(j: Json, clave: Seq<char>) -> Option<int> {
    match campo(j, clave) {
        Some(Json::Entero(n)) => if i64::MIN <= n <= i64::MAX {
            Some(n)
        } else {
            None
        },
        _ => None,
    }
}

/// The JSON value type of `serde_json`.
#[verifier::external_type_specification]
#[verifier::external_body]
pub struct ExValue(serde_json::Value);

/// The error type of `serde_json`.
#[verifier::external_type_specification]
#[verifier::external_body]
pub struct ExError(serde_json::Error);

/// What a `serde_json::Value` holds.
pub uninterp spec fn arbol(v: serde_json::Value) -> Json;

/// What `serde_json::from_str` reads from a text, where it accepts the text.
pub uninterp spec fn json_leido(texto: Seq<char>) -> Option<Json>;

/// The text that a `serde_json::Value` with these contents is written as.
pub uninterp spec fn json_escrito(j: Json) -> Seq<char>;

/// `serde_json::from_str` into a `Value`: whether the text is accepted, and what the value then
/// holds, is a function of the text.
#[verifier::external_body]
pub(crate) fn json_leer(texto: &str) -> (r: Result<serde_json::Value, serde_json::Error>)
    ensures
        match r {
            Ok(v) => json_leido(texto@) == Some(arbol(v)),
            Err(_) => json_leido(texto@) is None,
        },
{
    serde_json::from_str(texto)
}

/// `serde_json::Value::get` with a string: the field of that name, where the value is an object
/// that has it.
#[verifier::external_body]
fn json_campo<'a>(v: &'a serde_json::Value, clave: &str) -> (r: Option<&'a serde_json::Value>)
    ensures
        match r {
            Some(x) => campo(arbol(*v), clave@) == Some(arbol(*x)),
            None => campo(arbol(*v), clave@) is None,
        },
{
    v.get(clave)
}

/// `serde_json::Value::as_str`: the string, where the value is one.
pub assume_specification[ serde_json::Value::as_str ](v: &serde_json::Value) -> (r: Option<&str>)
    ensures
        match r {
            Some(s) => arbol(*v) == Json::Texto(s@),
            None => !(arbol(*v) is Texto),
        },
;

/// The contents of each value of a list.
pub open spec fn arboles(vs: Seq<serde_json::Value>) -> Seq<Json> {
    Seq::new(vs.len(), |i: int| arbol(vs[i]))
}

/// `serde_json::Value::as_array`: the items, where the value is an array.
pub assume_specification[ serde_json::Value::as_array ](v: &serde_json::Value) -> (r: Option<
    &Vec<serde_json::Value>,
>)
    ensures
        match r {
            Some(vs) => arbol(*v) == Json::Lista(arboles(vs@)),
            None => !(arbol(*v) is Lista),
        },
;

/// `serde_json::Value::as_i64`: the number, where the value is an integer that an `i64` can hold.
pub assume_specification[ serde_json::Value::as_i64 ](v: &serde_json::Value) -> (r: Option<i64>)
    ensures
        match r {
            Some(n) => arbol(*v) == Json::Entero(n as int),
            None => !(arbol(*v) is Entero && i64::MIN <= arbol(*v)->Entero_0 <= i64::MAX),
        },
;

/// `serde_json::Value::from` on a string: the JSON string.
#[verifier::external_body]
pub(crate) fn json_texto(s: &str) -> (r: serde_json::Value)
    ensures
        arbol(r) == Json::Texto(s@),
{
    serde_json::Value::from(s)
}

/// `serde_json::Value::from` on an `i64`: the JSON number.
#[verifier::external_body]
pub(crate) fn json_entero(n: i64) -> (r: serde_json::Value)
    ensures
        arbol(r) == Json::Entero(n as int),
{
    serde_json::Value::from(n)
}

/// `serde_json::Value::from` on a `bool`: the JSON boolean.
#[verifier::external_body]
pub(crate) fn json_bool(b: bool) -> (r: serde_json::Value)
    ensures
        arbol(r) == Json::Bool(b),
{
    serde_json::Value::from(b)
}

/// `serde_json::Value::from` on a list of values: the JSON array of these items.
#[verifier::external_body]
pub(crate) fn json_lista(vs: Vec<serde_json::Value>) -> (r: serde_json::Value)
    ensures
        arbol(r) == Json::Lista(arboles(vs@)),
{
    serde_json::Value::from(vs)
}

/// The names of a list of fields.
pub open spec fn nombres_de(campos: Seq<(String, serde_json::Value)>) -> Seq<Seq<char>> {
    Seq::new(campos.len(), |i: int| campos[i].0@)
}

/// The names and contents of a list of fields.
pub open spec fn campos_de(campos: Seq<(String, serde_json::Value)>) -> Seq<(Seq<char>, Json)> {
    Seq::new(campos.len(), |i: int| (campos[i].0@, arbol(campos[i].1)))
}

/// `serde_json::Value::from_iter` on names with values: the JSON object with these fields in this
/// order. No name may occur twice.
#[verifier::external_body]
pub(crate) fn json_objeto(campos: Vec<(String, serde_json::Value)>) -> (r: serde_json::Value)
    requires
        nombres_de(campos@).no_duplicates(),
    ensures
        arbol(r) == Json::Objeto(campos_de(campos@)),
{
    serde_json::Value::from_iter(campos)
}

/// `serde_json::Value::to_string`: the compact text of the value, a function of what it holds.
#[verifier::external_body]
pub(crate) fn json_escribir(v: &serde_json::Value) -> (r: String)
    ensures
        r@ == json_escrito(arbol(*v)),
{
    v.to_string()
}

/// The string that the field `clave` holds, where there is one.
pub(crate) fn leer_texto(v: &serde_json::Value, clave: &str) -> (r: Option<String>)
    ensures
        match r {
            Some(s) => campo_texto(arbol(*v), clave@) == Some(s@),
            None => campo_texto(arbol(*v), clave@) is None,
        },
{
    match json_campo(v, clave) {
        Some(x) => match x.as_str() {
            Some(s) => Some(s.to_string()),
            None => None,
        },
        None => None,
    }
}

/// The integer that the field `clave` holds, where there is one that an `i64` can hold.
pub(crate) fn leer_entero(v: &serde_json::Value, clave: &str) -> (r: Option<i64>)
    ensures
        match r {
            Some(n) => campo_entero(arbol(*v), clave@) == Some(n as int),
            None => campo_entero(arbol(*v), clave@) is None,
        },
{
    match json_campo(v, clave) {
        Some(x) => x.as_i64(),
        None => None,
    }
}

/// The strings among the items of a list, in their order.
pub open spec fn solo_textos(items: Seq<Json>) -> Seq<Seq<char>>
    decreases items.len(),
{
    if items.len() == 0 {
        seq![]
    } else {
        let previos = solo_textos(items.drop_last());
        match items.last() {
            Json::Texto(s) => previos.push(s),
            _ => previos,
        }
    }
}

/// The strings of a list are picked out one by one and in their order, and nothing else is.
pub proof fn ley_solo_textos(a: Seq<Json>, b: Seq<Json>, x: Json)
    ensures
        solo_textos(a + b) == solo_textos(a) + solo_textos(b),
        x matches Json::Texto(s) ==> solo_textos(seq![x]) == seq![s],
        !(x is Texto) ==> solo_textos(seq![x]).len() == 0,
    decreases b.len(),
{
    reveal_with_fuel(solo_textos, 2);
    assert(seq![x].drop_last().len() == 0);
    assert(seq![x].last() == x);
    if b.len() == 0 {
        assert(a + b =~= a);
        assert(solo_textos(a) + solo_textos(b) =~= solo_textos(a));
    } else {
        ley_solo_textos(a, b.drop_last(), x);
        assert((a + b).drop_last() =~= a + b.drop_last());
        assert((a + b).last() == b.last());
        assert(solo_textos(a + b) =~= solo_textos(a) + solo_textos(b));
    }
}

/// The strings among the items that the field `clave` lists, where it holds a list.
pub(crate) fn leer_textos(v: &serde_json::Value, clave: &str) -> (r: Option<Vec<String>>)
    ensures
        match r {
            Some(l) => campo_lista(arbol(*v), clave@) is Some && crate::texto::textos(l@)
                == solo_textos(campo_lista(arbol(*v), clave@)->0),
            None => campo_lista(arbol(*v), clave@) is None,
        },
{
    match json_campo(v, clave) {
        Some(x) => match x.as_array() {
            Some(items) => {
                let mut l: Vec<String> = Vec::new();
                let mut i: usize = 0;
                while i < items.len()
                    invariant
                        i <= items.len(),
                        crate::texto::textos(l@) == solo_textos(arboles(items@).take(i as int)),
                    decreases items.len() - i,
                {
                    proof {
                        let t = arboles(items@).take(i + 1);
                        assert(t.drop_last() =~= arboles(items@).take(i as int));
                        assert(t.last() == arbol(items@[i as int]));
                    }
                    let ghost previos = l@;
                    match items[i].as_str() {
                        Some(s) => {
                            l.push(s.to_string());
                            assert(crate::texto::textos(l@) =~= crate::texto::textos(previos).push(
                                s@,
                            ));
                        },
                        None => {},
                    }
                    i = i + 1;
                }
                assert(arboles(items@).take(items.len() as int) =~= arboles(items@));
                Some(l)
            },
            None => None,
        },
        None => None,
    }
}

} // verus!
