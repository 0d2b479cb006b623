//! What a client can ask for, and how it is read from a message.

use vstd::prelude::*;
use crate::json::{
    arbol, campo, campo_entero, campo_lista, campo_texto, json_leer, json_leido, leer_entero,
    leer_texto, leer_textos, solo_textos, Json,
};
use crate::texto::{igual, textos};

verus! {

/// What a client asks for, over mathematical values.
pub enum PeticionV {
    Unirse { nombre: Seq<char> },
    IniciarJuego,
    Alianza { alias: Seq<char>, miembros: Seq<Seq<char>> },
    Atacar { monstruo_id: Seq<char>, arma: Seq<char> },
    Intercambiar { para: Seq<char>, cantidad: i32 },
}

/// What a client asks for.
pub enum Peticion {
    /// Join under a name, or come back under it.
    Unirse { nombre: String },
    /// Start the game.
    IniciarJuego,
    /// Form the alliance `alias` with these members.
    Alianza { alias: String, miembros: Vec<String> },
    /// Attack a monster with a weapon.
    Atacar { monstruo_id: String, arma: String },
    /// Give points to an ally.
    Intercambiar { para: String, cantidad: i32 },
}

impl View for Peticion {
    type V = PeticionV;

    open spec fn view(&self) -> PeticionV {
        match *self {
            Peticion::Unirse { nombre } => PeticionV::Unirse { nombre: nombre@ },
            Peticion::IniciarJuego => PeticionV::IniciarJuego,
            Peticion::Alianza { alias, miembros } => PeticionV::Alianza {
                alias: alias@,
                miembros: textos(miembros@),
            },
            Peticion::Atacar { monstruo_id, arma } => PeticionV::Atacar {
                monstruo_id: monstruo_id@,
                arma: arma@,
            },
            Peticion::Intercambiar { para, cantidad } => PeticionV::Intercambiar {
                para: para@,
                cantidad,
            },
        }
    }
}

/// The view of an optional request.
pub open spec fn vista_opcional(p: Option<Peticion>) -> Option<PeticionV> {
    match p {
        Some(x) => Some(x@),
        None => None,
    }
}

/// The request that a JSON message stands for. A message without a known `tipo`, or without a
/// field that its `tipo` needs, stands for none. An amount is cut down to 32 bits.
pub open spec fn peticion_de(j: Json) -> Option<PeticionV> {
    match campo_texto(j, "tipo"@) {
        None => None,
        Some(tipo) => if tipo == "unirse"@ {
            match campo_texto(j, "nombre"@) {
                Some(nombre) => Some(PeticionV::Unirse { nombre }),
                None => None,
            }
        } else if tipo == "iniciar_juego"@ {
            Some(PeticionV::IniciarJuego)
        } else if tipo == "alianza"@ {
            match (campo_texto(j, "alias"@), campo_lista(j, "miembros"@)) {
                (Some(alias), Some(items)) => Some(
                    PeticionV::Alianza { alias, miembros: solo_textos(items) },
                ),
                _ => None,
            }
        } else if tipo == "atacar"@ {
            match (campo_texto(j, "monstruo_id"@), campo_texto(j, "arma"@)) {
                (Some(monstruo_id), Some(arma)) => Some(PeticionV::Atacar { monstruo_id, arma }),
                _ => None,
            }
        } else if tipo == "intercambiar"@ {
            match (campo_texto(j, "para"@), campo_entero(j, "cantidad"@)) {
                (Some(para), Some(n)) => Some(
                    PeticionV::Intercambiar { para, cantidad: n as i32 },
                ),
                _ => None,
            }
        } else {
            None
        },
    }
}

/// What a message asks for: exactly what the string in its field `tipo` and the fields for that
/// kind of request say, and nothing where one of these is missing or of another kind.
pub proof fn ley_peticion(
    j: Json,
    nombre: Seq<char>,
    alias: Seq<char>,
    items: Seq<Json>,
    monstruo_id: Seq<char>,
    arma: Seq<char>,
    para: Seq<char>,
    n: int,
)
    ensures
        peticion_de(j) == Some(PeticionV::Unirse { nombre }) <==> campo(j, "tipo"@) == Some(
            Json::Texto("unirse"@),
        ) && campo(j, "nombre"@) == Some(Json::Texto(nombre)),
        peticion_de(j) == Some(PeticionV::IniciarJuego) <==> campo(j, "tipo"@) == Some(
            Json::Texto("iniciar_juego"@),
        ),
        campo(j, "tipo"@) == Some(Json::Texto("alianza"@)) && campo(j, "alias"@) == Some(
            Json::Texto(alias),
        ) && campo(j, "miembros"@) == Some(Json::Lista(items)) ==> peticion_de(j) == Some(
            PeticionV::Alianza { alias, miembros: solo_textos(items) },
        ),
        peticion_de(j) is Some && peticion_de(j)->0 is Alianza ==> {
            &&& campo(j, "tipo"@) == Some(Json::Texto("alianza"@))
            &&& campo(j, "alias"@) is Some && campo(j, "alias"@)->0 is Texto
            &&& campo(j, "miembros"@) is Some && campo(j, "miembros"@)->0 is Lista
        },
        peticion_de(j) == Some(PeticionV::Atacar { monstruo_id, arma }) <==> campo(j, "tipo"@)
            == Some(Json::Texto("atacar"@)) && campo(j, "monstruo_id"@) == Some(
            Json::Texto(monstruo_id),
        ) && campo(j, "arma"@) == Some(Json::Texto(arma)),
        campo(j, "tipo"@) == Some(Json::Texto("intercambiar"@)) && campo(j, "para"@) == Some(
            Json::Texto(para),
        ) && campo(j, "cantidad"@) == Some(Json::Entero(n)) && i64::MIN <= n <= i64::MAX ==> {
            &&& peticion_de(j) is Some && peticion_de(j)->0 is Intercambiar
            &&& peticion_de(j)->0->para == para
            &&& (n - peticion_de(j)->0->cantidad) % 0x1_0000_0000 == 0
            &&& i32::MIN <= n <= i32::MAX ==> peticion_de(j)->0->cantidad == n
        },
        peticion_de(j) is Some && peticion_de(j)->0 is Intercambiar ==> {
            &&& campo(j, "tipo"@) == Some(Json::Texto("intercambiar"@))
            &&& campo(j, "para"@) is Some && campo(j, "para"@)->0 is Texto
            &&& campo(j, "cantidad"@) is Some && campo(j, "cantidad"@)->0 is Entero
            &&& i64::MIN <= campo(j, "cantidad"@)->0->Entero_0 <= i64::MAX
        },
{
    lema_tipos();
    lema_recorte(n as i64);
}

/// Cutting a number down to 32 bits changes it by a multiple of what these can count.
proof fn lema_recorte(n: i64)
    ensures
        (n - (n as i32)) % 0x1_0000_0000 == 0,
{
    assert((n - (n as i32)) % 0x1_0000_0000 == 0) by (bit_vector);
}

/// The kinds of requests have different names.
proof fn lema_tipos()
    ensures
        "unirse"@ != "iniciar_juego"@,
        "unirse"@ != "alianza"@,
        "unirse"@ != "atacar"@,
        "unirse"@ != "intercambiar"@,
        "iniciar_juego"@ != "alianza"@,
        "iniciar_juego"@ != "atacar"@,
        "iniciar_juego"@ != "intercambiar"@,
        "alianza"@ != "atacar"@,
        "alianza"@ != "intercambiar"@,
        "atacar"@ != "intercambiar"@,
{
    reveal_strlit("unirse");
    reveal_strlit("iniciar_juego");
    reveal_strlit("alianza");
    reveal_strlit("atacar");
    reveal_strlit("intercambiar");
    assert("unirse"@.len() == 6);
    assert("iniciar_juego"@.len() == 13);
    assert("alianza"@.len() == 7);
    assert("atacar"@.len() == 6);
    assert("intercambiar"@.len() == 12);
    assert("unirse"@[0] == 'u');
    assert("atacar"@[0] == 'a');
}

/// Reads the request that a JSON value stands for.
pub fn interpretar(msg: &serde_json::Value) -> (r: Option<Peticion>)
    ensures
        vista_opcional(r) == peticion_de(arbol(*msg)),
{
    let tipo = match leer_texto(msg, "tipo") {
        Some(t) => t,
        None => {
            return None;
        },
    };
    if igual(tipo.as_str(), "unirse") {
        match leer_texto(msg, "nombre") {
            Some(nombre) => Some(Peticion::Unirse { nombre }),
            None => None,
        }
    } else if igual(tipo.as_str(), "iniciar_juego") {
        Some(Peticion::IniciarJuego)
    } else if igual(tipo.as_str(), "alianza") {
        match (leer_texto(msg, "alias"), leer_textos(msg, "miembros")) {
            (Some(alias), Some(miembros)) => Some(Peticion::Alianza { alias, miembros }),
            _ => None,
        }
    } else if igual(tipo.as_str(), "atacar") {
        match (leer_texto(msg, "monstruo_id"), leer_texto(msg, "arma")) {
            (Some(monstruo_id), Some(arma)) => Some(Peticion::Atacar { monstruo_id, arma }),
            _ => None,
        }
    } else if igual(tipo.as_str(), "intercambiar") {
        match (leer_texto(msg, "para"), leer_entero(msg, "cantidad")) {
            (Some(para), Some(n)) => {
                #[verifier::truncate]
                let cantidad: i32 = n as i32;
                Some(Peticion::Intercambiar { para, cantidad })
            },
            _ => None,
        }
    } else {
        None
    }
}

/// The request that a text stands for: none where it is no JSON.
pub open spec fn peticion_en_texto(texto: Seq<char>) -> Option<PeticionV> {
    match json_leido(texto) {
        Some(j) => peticion_de(j),
        None => None,
    }
}

/// A text asks for something exactly where it is JSON that asks for it.
pub proof fn ley_peticion_en_texto(texto: Seq<char>, p: PeticionV)
    ensures
        peticion_en_texto(texto) == Some(p) <==> json_leido(texto) is Some && peticion_de(
            json_leido(texto)->0,
        ) == Some(p),
{
}

/// Reads the request that a text stands for.
pub fn leer_peticion(texto: &str) -> (r: Option<Peticion>)
    ensures
        vista_opcional(r) == peticion_en_texto(texto@),
{
    match json_leer(texto) {
        Ok(v) => interpretar(&v),
        Err(_) => None,
    }
}

} // verus!
