//! Giving points to an ally.

use vstd::prelude::*;
use crate::accion::{acciones, agregar, movimiento, nada, responder, Accion, AccionV};
use crate::mensaje::{json_intercambio, json_rechazo, Mensaje};
use crate::modelo::{operable, valido, EstadoJuego, EstadoV, JugadorV, Miembros};
use crate::partida::lema_poner_jugador;
use crate::tabla::{Tabla, TablaV};
use crate::texto::{contiene, escribir_entero, numeral};

verus! {

/// Whether some alliance has both members.
pub open spec fn aliados(a: TablaV<Seq<Seq<char>>>, x: Seq<char>, y: Seq<char>) -> bool {
    exists|k: Seq<char>| #[trigger]
        a.contiene(k) && a.valor(k).contains(x) && a.valor(k).contains(y)
}

/// Whether some alliance has both members.
fn son_aliados(a: &Tabla<Miembros>, x: &str, y: &str) -> (r: bool)
    requires
        a@.valida(),
    ensures
        r == aliados(a@, x@, y@),
{
    let mut i: usize = 0;
    while i < a.len()
        invariant
            a@.valida(),
            i <= a@.claves.len(),
            forall|j: int|
                0 <= j < i ==> {
                    let l = #[trigger] a@.valores()[j];
                    !(l.contains(x@) && l.contains(y@))
                },
        decreases a@.claves.len() - i,
    {
        let m = a.valor_en(i);
        if contiene(&m.lista, x) && contiene(&m.lista, y) {
            assert(a@.claves.contains(a@.claves[i as int]));
            assert(a@.contiene(a@.claves[i as int]));
            return true;
        }
        i = i + 1;
    }
    proof {
        if aliados(a@, x@, y@) {
            let k = choose|k: Seq<char>| #[trigger]
                a@.contiene(k) && a@.valor(k).contains(x@) && a@.valor(k).contains(y@);
            assert(a@.claves.contains(k));
            let j = a@.claves.index_of(k);
            assert(a@.valores()[j] == a@.valor(k));
        }
    }
    false
}

/// A player with `n` points more.
pub open spec fn con_puntos(j: JugadorV, n: int) -> JugadorV {
    JugadorV { puntos: j.puntos + n, ..j }
}

/// The players after the giver paid.
pub open spec fn pagado(t: TablaV<JugadorV>, de: Seq<char>, n: int) -> TablaV<JugadorV> {
    t.poner(de, con_puntos(t.valor(de), -n))
}

/// The players after `n` points went from one to another. Points for somebody who is not in the
/// game are lost.
pub open spec fn transferir(t: TablaV<JugadorV>, de: Seq<char>, para: Seq<char>, n: int) -> TablaV<
    JugadorV,
> {
    let p = pagado(t, de, n);
    if p.contiene(para) {
        p.poner(para, con_puntos(p.valor(para), n))
    } else {
        p
    }
}

/// Why points cannot be given, if there is a reason.
pub open spec fn impide_intercambio(e: EstadoV, id: Seq<char>, para: Seq<char>, n: int) -> Option<
    Seq<char>,
> {
    if !aliados(e.alianzas, id, para) {
        Some("No son aliados"@)
    } else if !(e.jugadores.contiene(id) && e.jugadores.valor(id).puntos >= n) {
        Some("Puntos insuficientes"@)
    } else {
        None
    }
}

/// The answer to a request to give points. One from an address without a player gets none.
pub open spec fn intercambio(e: EstadoV, addr: Seq<char>, para: Seq<char>, n: int) -> (
    EstadoV,
    Seq<AccionV>,
) {
    if !e.addr_to_id.contiene(addr) {
        (e, seq![])
    } else {
        let id = e.addr_to_id.valor(addr);
        match impide_intercambio(e, id, para, n) {
            Some(razon) => (e, seq![AccionV::Enviar { addr, mensaje: json_rechazo(razon) }]),
            None => {
                let f = EstadoV { jugadores: transferir(e.jugadores, id, para, n), ..e };
                (
                    f,
                    seq![
                        AccionV::Difundir(json_intercambio(f.jugadores.valores())),
                        AccionV::RegistrarMovimiento {
                            sesion_id: e.sesion_id,
                            tipo: "intercambiar"@,
                            datos: numeral(n) + " -> "@ + para + " puntos"@,
                        },
                    ],
                )
            },
        }
    }
}

/// Giving points keeps a state valid.
pub proof fn lema_intercambio_valido(e: EstadoV, addr: Seq<char>, para: Seq<char>, n: int)
    requires
        valido(e),
    ensures
        valido(intercambio(e, addr, para, n).0),
{
    if e.addr_to_id.contiene(addr) {
        let id = e.addr_to_id.valor(addr);
        if impide_intercambio(e, id, para, n) is None {
            lema_poner_jugador(e, con_puntos(e.jugadores.valor(id), -n));
            let p = pagado(e.jugadores, id, n);
            let f = EstadoV { jugadores: p, ..e };
            assert(valido(f));
            if p.contiene(para) {
                lema_poner_jugador(f, con_puntos(p.valor(para), n));
            }
        }
    }
}

/// Whether a number fits in 32 bits with a sign.
pub open spec fn cabe(n: int) -> bool {
    i32::MIN <= n <= i32::MAX
}

/// Whether the points of giver and receiver stay within 32 bits.
pub open spec fn intercambio_cabe(e: EstadoV, addr: Seq<char>, para: Seq<char>, n: int) -> bool {
    e.addr_to_id.contiene(addr) ==> {
        let id = e.addr_to_id.valor(addr);
        impide_intercambio(e, id, para, n) is None ==> {
            let p = pagado(e.jugadores, id, n);
            &&& cabe(p.valor(id).puntos)
            &&& p.contiene(para) ==> cabe(p.valor(para).puntos + n)
        }
    }
}

/// Why points cannot be given, if there is a reason.
fn motivo_rechazo(state: &EstadoJuego, id: &str, para: &str, cantidad: i32) -> (r: Option<
    &'static str,
>)
    requires
        operable(state@),
    ensures
        match r {
            Some(m) => impide_intercambio(state@, id@, para@, cantidad as int) == Some(m@),
            None => impide_intercambio(state@, id@, para@, cantidad as int) is None,
        },
{
    if !son_aliados(&state.alianzas, id, para) {
        return Some("No son aliados");
    }
    let tiene = match state.jugadores.buscar(id) {
        Some(j) => j.puntos >= cantidad,
        None => false,
    };
    if tiene {
        None
    } else {
        Some("Puntos insuficientes")
    }
}

/// Whether the points of giver and receiver would stay within 32 bits.
pub fn cabe_intercambio(state: &EstadoJuego, addr: &str, para: &str, cantidad: i32) -> (r: bool)
    requires
        operable(state@),
    ensures
        r == intercambio_cabe(state@, addr@, para@, cantidad as int),
{
    let id = match state.addr_to_id.buscar(addr) {
        Some(id) => id,
        None => {
            return true;
        },
    };
    match motivo_rechazo(state, id.as_str(), para, cantidad) {
        Some(_) => true,
        None => match state.jugadores.buscar(id.as_str()) {
            None => true,
            Some(j) => {
                let resto: i64 = j.puntos as i64 - cantidad as i64;
                if resto > i32::MAX as i64 {
                    return false;
                }
                if crate::texto::igual(id.as_str(), para) {
                    return true;
                }
                match state.jugadores.buscar(para) {
                    None => true,
                    Some(k) => {
                        let suma: i64 = k.puntos as i64 + cantidad as i64;
                        i32::MIN as i64 <= suma && suma <= i32::MAX as i64
                    },
                }
            },
        },
    }
}

/// Gives points to an ally.
pub fn intercambiar(state: &mut EstadoJuego, addr: &str, para: &str, cantidad: i32) -> (r: Vec<
    Accion,
>)
    requires
        operable(old(state)@),
        intercambio_cabe(old(state)@, addr@, para@, cantidad as int),
    ensures
        operable(final(state)@),
        valido(old(state)@) ==> valido(final(state)@),
        (final(state)@, acciones(r@)) == intercambio(
            old(state)@,
            addr@,
            para@,
            cantidad as int,
        ),
{
    let ghost e = state@;
    let id = match state.addr_to_id.buscar(addr) {
        Some(id) => id.clone(),
        None => {
            return nada();
        },
    };
    match motivo_rechazo(state, id.as_str(), para, cantidad) {
        Some(razon) => {
            return responder(addr, Mensaje::rechazo(razon));
        },
        None => {},
    }
    let mut r = nada();
    match state.jugadores.buscar(id.as_str()) {
        Some(j) => {
            let mut donante = j.clone();
            donante.puntos = donante.puntos - cantidad;
            state.jugadores.poner(id.clone(), donante);
        },
        None => {},
    }
    let ghost p = pagado(e.jugadores, id@, cantidad as int);
    assert(state@ =~= (EstadoV { jugadores: p, ..e }));
    match state.jugadores.buscar(para) {
        Some(k) => {
            let mut receptor = k.clone();
            receptor.puntos = receptor.puntos + cantidad;
            state.jugadores.poner(para.to_string(), receptor);
        },
        None => {},
    }
    proof {
        if valido(e) {
            lema_intercambio_valido(e, addr@, para@, cantidad as int);
        }
    }
    let ghost f = EstadoV {
        jugadores: transferir(e.jugadores, id@, para@, cantidad as int),
        ..e
    };
    assert(state@ =~= f);
    agregar(&mut r, Accion::Difundir(Mensaje::intercambio(&state.jugadores)));
    let mut datos = escribir_entero(cantidad);
    datos.append(" -> ");
    datos.append(para);
    datos.append(" puntos");
    agregar(&mut r, movimiento(state.sesion_id.as_str(), "intercambiar", datos.as_str()));
    assert(acciones(r@) =~= intercambio(e, addr@, para@, cantidad as int).1);
    r
}

} // verus!
