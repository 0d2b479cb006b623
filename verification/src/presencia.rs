//! Laws about who is in the game, who is away, and whose turn it can be.

use vstd::prelude::*;
use crate::accion::AccionV;
use crate::combate::{ataque, blanco, golpear, lema_ataque_valido, premiar};
use crate::intercambio::{intercambio, lema_intercambio_valido};
use crate::mensaje::{json_desconectado, json_estado};
use crate::modelo::{inicial, valido, EstadoV, Fase};
use crate::partida::{
    alianza, impide_inicio, inicio, lema_alianza_valida, lema_iniciado_valido, lema_llegada_valida,
    lema_regreso_valido, llegada, regreso,
};
use crate::peticion::PeticionV;
use crate::reglas::{lema_saltos_iguales, salvo};
use crate::servidor::{
    abandono, atendida, bienvenida, gracia_vencida, lema_abandono_valido, lema_gracia_valida, PasoV,
};
use crate::tabla::lema_poner_igual;
use crate::turnos::{
    lema_saltos, lema_turno_valido, presente, puesto, turno_siguiente, turno_vencido,
};

verus! {

/// Every address stands for a player of its own, who is in the game and not away.
pub open spec fn direcciones_claras(e: EstadoV) -> bool {
    &&& forall|a: Seq<char>| #[trigger]
        e.addr_to_id.contiene(a) ==> e.jugadores.contiene(e.addr_to_id.valor(a))
    &&& forall|a: Seq<char>, b: Seq<char>|
        #![trigger e.addr_to_id.contiene(a), e.addr_to_id.contiene(b)]
        e.addr_to_id.contiene(a) && e.addr_to_id.contiene(b) && a != b ==> e.addr_to_id.valor(a)
            != e.addr_to_id.valor(b)
    &&& forall|a: Seq<char>, n: Seq<char>|
        #![trigger e.addr_to_id.contiene(a), e.desconectados.contiene(n)]
        e.addr_to_id.contiene(a) && e.desconectados.contiene(n) ==> e.addr_to_id.valor(a)
            != e.desconectados.valor(n).0.id
}

/// Whoever is away is in the game under the name for which the place is kept.
pub open spec fn ausentes_en_juego(e: EstadoV) -> bool {
    forall|n: Seq<char>| #[trigger]
        e.desconectados.contiene(n) ==> {
            let id = e.desconectados.valor(n).0.id;
            e.jugadores.contiene(id) && e.jugadores.valor(id).nombre == n
        }
}

/// Whether somebody of the order of turns is in the game.
pub open spec fn alguien(e: EstadoV) -> bool {
    exists|i: int|
        0 <= i < e.orden_turnos.len() && e.jugadores.contiene(#[trigger] e.orden_turnos[i])
}

/// While somebody of the order of turns is in the game, the turn is not with somebody who left.
pub open spec fn turno_ocupado(e: EstadoV) -> bool {
    e.fase == Fase::Juego && alguien(e) ==> e.jugadores.contiene(e.turno_actual)
}

/// What holds of every state that the game can come to while identifiers do not repeat.
pub open spec fn coherente(e: EstadoV) -> bool {
    &&& valido(e)
    &&& direcciones_claras(e)
    &&& ausentes_en_juego(e)
    &&& turno_ocupado(e)
}

/// Whether `id` is new: nobody in the game or in the order of turns has it.
pub open spec fn fresco(e: EstadoV, id: Seq<char>) -> bool {
    !e.jugadores.contiene(id) && !e.orden_turnos.contains(id)
}

/// The state before anybody joined is coherent.
pub proof fn ley_coherente_inicial(sesion_id: Seq<char>)
    ensures
        coherente(inicial(sesion_id)),
{
}

/// The positions behind the current turn are all positions of the order.
proof fn lema_puestos(e: EstadoV, i: int) -> (a: int)
    requires
        0 <= i < e.orden_turnos.len(),
        0 <= e.turno_index < e.orden_turnos.len(),
    ensures
        0 <= a < e.orden_turnos.len(),
        puesto(e, a) == i,
{
    let n = e.orden_turnos.len() as int;
    let a = if i > e.turno_index {
        i - e.turno_index - 1
    } else {
        i + n - e.turno_index - 1
    };
    vstd::arithmetic::div_mod::lemma_mod_add_multiples_vanish(i, n);
    vstd::arithmetic::div_mod::lemma_small_mod(i as nat, n as nat);
    a
}

/// While somebody of the order of turns is in the game, passing the turn gives it to such a one.
pub proof fn ley_turno_pasa(e: EstadoV)
    requires
        0 <= e.turno_index < e.orden_turnos.len(),
        alguien(e),
    ensures
        e.jugadores.contiene(turno_siguiente(e).turno_actual),
{
    let i = choose|i: int|
        0 <= i < e.orden_turnos.len() && e.jugadores.contiene(#[trigger] e.orden_turnos[i]);
    let a = lema_puestos(e, i);
    assert(presente(e, a));
    lema_saltos(e, 0);
}

/// The arrival of a new player keeps a state coherent.
pub proof fn ley_coherente_llegada(
    e: EstadoV,
    addr: Seq<char>,
    nombre: Seq<char>,
    id: Seq<char>,
)
    requires
        coherente(e),
        fresco(e, id),
    ensures
        coherente(llegada(e, addr, nombre, id).0),
{
    lema_llegada_valida(e, addr, nombre, id);
    let f = llegada(e, addr, nombre, id).0;
    assert forall|a: Seq<char>| #[trigger] f.addr_to_id.contiene(a) && a != addr implies
        e.addr_to_id.contiene(a) by {}
    assert(direcciones_claras(f)) by {
        assert forall|a: Seq<char>| #[trigger] f.addr_to_id.contiene(a) implies
            f.jugadores.contiene(f.addr_to_id.valor(a)) by {
            if a != addr {
                assert(e.addr_to_id.contiene(a));
            }
        }
        assert forall|a: Seq<char>, b: Seq<char>|
            #![trigger f.addr_to_id.contiene(a), f.addr_to_id.contiene(b)]
            f.addr_to_id.contiene(a) && f.addr_to_id.contiene(b) && a != b implies
            f.addr_to_id.valor(a) != f.addr_to_id.valor(b) by {
            assert(a != addr ==> e.addr_to_id.contiene(a));
            assert(b != addr ==> e.addr_to_id.contiene(b));
        }
        assert forall|a: Seq<char>, n: Seq<char>|
            #![trigger f.addr_to_id.contiene(a), f.desconectados.contiene(n)]
            f.addr_to_id.contiene(a) && f.desconectados.contiene(n) implies f.addr_to_id.valor(a)
            != f.desconectados.valor(n).0.id by {
            assert(a != addr ==> e.addr_to_id.contiene(a));
            assert(e.desconectados.contiene(n));
        }
    }
    assert(ausentes_en_juego(f)) by {
        assert forall|n: Seq<char>| #[trigger] f.desconectados.contiene(n) implies ({
            let k = f.desconectados.valor(n).0.id;
            f.jugadores.contiene(k) && f.jugadores.valor(k).nombre == n
        }) by {
            assert(e.desconectados.contiene(n));
        }
    }
    if f.fase == Fase::Juego && alguien(f) {
        let i = choose|i: int|
            0 <= i < f.orden_turnos.len() && f.jugadores.contiene(#[trigger] f.orden_turnos[i]);
        assert(e.orden_turnos.contains(e.orden_turnos[i]));
        assert(e.jugadores.contiene(e.orden_turnos[i]));
    }
}

/// The return of an absent player keeps a state coherent.
pub proof fn ley_coherente_regreso(e: EstadoV, addr: Seq<char>, nombre: Seq<char>)
    requires
        coherente(e),
        e.desconectados.contiene(nombre),
    ensures
        coherente(regreso(e, addr, nombre).0),
{
    lema_regreso_valido(e, addr, nombre);
    let f = regreso(e, addr, nombre).0;
    let id = e.desconectados.valor(nombre).0.id;
    assert(direcciones_claras(f)) by {
        assert forall|a: Seq<char>| #[trigger] f.addr_to_id.contiene(a) implies
            f.jugadores.contiene(f.addr_to_id.valor(a)) by {
            if a != addr {
                assert(e.addr_to_id.contiene(a));
            }
        }
        assert forall|a: Seq<char>, b: Seq<char>|
            #![trigger f.addr_to_id.contiene(a), f.addr_to_id.contiene(b)]
            f.addr_to_id.contiene(a) && f.addr_to_id.contiene(b) && a != b implies
            f.addr_to_id.valor(a) != f.addr_to_id.valor(b) by {
            assert(a != addr ==> e.addr_to_id.contiene(a));
            assert(b != addr ==> e.addr_to_id.contiene(b));
        }
        assert forall|a: Seq<char>, n: Seq<char>|
            #![trigger f.addr_to_id.contiene(a), f.desconectados.contiene(n)]
            f.addr_to_id.contiene(a) && f.desconectados.contiene(n) implies f.addr_to_id.valor(a)
            != f.desconectados.valor(n).0.id by {
            assert(a != addr ==> e.addr_to_id.contiene(a));
            assert(e.desconectados.contiene(n));
        }
    }
    assert(ausentes_en_juego(f)) by {
        assert forall|n: Seq<char>| #[trigger] f.desconectados.contiene(n) implies ({
            let k = f.desconectados.valor(n).0.id;
            f.jugadores.contiene(k) && f.jugadores.valor(k).nombre == n
        }) by {
            assert(e.desconectados.contiene(n));
        }
    }
    if f.fase == Fase::Juego && alguien(f) {
        let i = choose|i: int|
            0 <= i < f.orden_turnos.len() && f.jugadores.contiene(#[trigger] f.orden_turnos[i]);
        assert(e.jugadores.contiene(e.orden_turnos[i]));
    }
}

/// The loss of a connection keeps a state coherent.
pub proof fn ley_coherente_abandono(e: EstadoV, addr: Seq<char>)
    requires
        coherente(e),
    ensures
        coherente(abandono(e, addr).0),
{
    lema_abandono_valido(e, addr);
    let f = abandono(e, addr).0;
    if e.addr_to_id.contiene(addr) {
        let id = e.addr_to_id.valor(addr);
        let nombre = e.jugadores.valor(id).nombre;
        assert(direcciones_claras(f)) by {
            assert forall|a: Seq<char>| #[trigger] f.addr_to_id.contiene(a) implies
                f.jugadores.contiene(f.addr_to_id.valor(a)) by {
                assert(e.addr_to_id.contiene(a));
            }
            assert forall|a: Seq<char>, b: Seq<char>|
                #![trigger f.addr_to_id.contiene(a), f.addr_to_id.contiene(b)]
                f.addr_to_id.contiene(a) && f.addr_to_id.contiene(b) && a != b implies
                f.addr_to_id.valor(a) != f.addr_to_id.valor(b) by {
                assert(e.addr_to_id.contiene(a));
                assert(e.addr_to_id.contiene(b));
            }
            assert forall|a: Seq<char>, n: Seq<char>|
                #![trigger f.addr_to_id.contiene(a), f.desconectados.contiene(n)]
                f.addr_to_id.contiene(a) && f.desconectados.contiene(n) implies
                f.addr_to_id.valor(a) != f.desconectados.valor(n).0.id by {
                assert(e.addr_to_id.contiene(a));
                assert(e.desconectados.contiene(n) || n == nombre);
            }
        }
        assert(ausentes_en_juego(f)) by {
            assert forall|n: Seq<char>| #[trigger] f.desconectados.contiene(n) implies ({
                let k = f.desconectados.valor(n).0.id;
                f.jugadores.contiene(k) && f.jugadores.valor(k).nombre == n
            }) by {
                assert(e.desconectados.contiene(n) || n == nombre);
            }
        }
        if f.fase == Fase::Juego && alguien(f) {
            let i = choose|i: int|
                0 <= i < f.orden_turnos.len() && f.jugadores.contiene(
                    #[trigger] f.orden_turnos[i],
                );
            assert(e.jugadores.contiene(e.orden_turnos[i]));
        }
    }
}

/// The end of a grace period keeps a state coherent, where it is that of a player who left under
/// that name and has not come back.
pub proof fn ley_coherente_gracia(e: EstadoV, nombre: Seq<char>, id: Seq<char>)
    requires
        coherente(e),
        e.jugadores.contiene(id) ==> e.jugadores.valor(id).nombre == nombre,
        forall|a: Seq<char>| #[trigger] e.addr_to_id.contiene(a) ==> e.addr_to_id.valor(a) != id,
    ensures
        coherente(gracia_vencida(e, nombre, id).0),
{
    lema_gracia_valida(e, nombre, id);
    if e.desconectados.contiene(nombre) {
        let s = EstadoV {
            desconectados: e.desconectados.quitar(nombre),
            jugadores: e.jugadores.quitar(id),
            ..e
        };
        let f = gracia_vencida(e, nombre, id).0;
        assert(direcciones_claras(f)) by {
            assert forall|a: Seq<char>| #[trigger] f.addr_to_id.contiene(a) implies
                f.jugadores.contiene(f.addr_to_id.valor(a)) by {
                assert(e.addr_to_id.contiene(a));
            }
            assert forall|a: Seq<char>, n: Seq<char>|
                #![trigger f.addr_to_id.contiene(a), f.desconectados.contiene(n)]
                f.addr_to_id.contiene(a) && f.desconectados.contiene(n) implies
                f.addr_to_id.valor(a) != f.desconectados.valor(n).0.id by {
                assert(e.addr_to_id.contiene(a));
                assert(e.desconectados.contiene(n));
            }
        }
        assert(ausentes_en_juego(f)) by {
            assert forall|n: Seq<char>| #[trigger] f.desconectados.contiene(n) implies ({
                let k = f.desconectados.valor(n).0.id;
                f.jugadores.contiene(k) && f.jugadores.valor(k).nombre == n
            }) by {
                assert(e.desconectados.contiene(n));
            }
        }
        if f.fase == Fase::Juego && alguien(f) {
            let i = choose|i: int|
                0 <= i < f.orden_turnos.len() && f.jugadores.contiene(
                    #[trigger] f.orden_turnos[i],
                );
            assert(e.jugadores.contiene(e.orden_turnos[i]));
            assert(s.jugadores.contiene(s.orden_turnos[i]));
            assert(alguien(s));
            if e.turno_actual == id {
                ley_turno_pasa(s);
            }
        }
    }
}

/// A state stays coherent when nobody comes or goes and a turn passes or stays.
proof fn lema_coherente_mismos(e: EstadoV, f: EstadoV)
    requires
        coherente(e),
        valido(f),
        f.addr_to_id == e.addr_to_id,
        f.desconectados == e.desconectados,
        forall|k: Seq<char>| #[trigger]
            f.jugadores.contiene(k) <==> e.jugadores.contiene(k),
        forall|k: Seq<char>| #[trigger]
            e.jugadores.contiene(k) ==> f.jugadores.valor(k).nombre == e.jugadores.valor(k).nombre,
        turno_ocupado(f),
    ensures
        coherente(f),
{
    assert(direcciones_claras(f)) by {
        assert forall|a: Seq<char>| #[trigger] f.addr_to_id.contiene(a) implies
            f.jugadores.contiene(f.addr_to_id.valor(a)) by {
            assert(e.addr_to_id.contiene(a));
        }
    }
    assert(ausentes_en_juego(f)) by {
        assert forall|n: Seq<char>| #[trigger] f.desconectados.contiene(n) implies ({
            let k = f.desconectados.valor(n).0.id;
            f.jugadores.contiene(k) && f.jugadores.valor(k).nombre == n
        }) by {
            assert(e.desconectados.contiene(n));
        }
    }
}

/// Starting the game keeps a state coherent.
pub proof fn ley_coherente_inicio(e: EstadoV, addr: Seq<char>)
    requires
        coherente(e),
    ensures
        coherente(inicio(e, addr).0),
{
    let f = inicio(e, addr).0;
    if impide_inicio(e) is None {
        lema_iniciado_valido(e);
        assert(e.jugadores.claves.contains(e.jugadores.claves[0]));
        assert(f.jugadores.contiene(f.turno_actual));
    }
    lema_coherente_mismos(e, f);
}

/// Forming an alliance keeps a state coherent.
pub proof fn ley_coherente_alianza(e: EstadoV, alias: Seq<char>, miembros: Seq<Seq<char>>)
    requires
        coherente(e),
    ensures
        coherente(alianza(e, alias, miembros).0),
{
    lema_alianza_valida(e, alias, miembros);
    let f = alianza(e, alias, miembros).0;
    assert(alguien(f) ==> alguien(e));
    lema_coherente_mismos(e, f);
}

/// Giving points keeps a state coherent.
pub proof fn ley_coherente_intercambio(e: EstadoV, addr: Seq<char>, para: Seq<char>, n: int)
    requires
        coherente(e),
    ensures
        coherente(intercambio(e, addr, para, n).0),
{
    lema_intercambio_valido(e, addr, para, n);
    let f = intercambio(e, addr, para, n).0;
    if alguien(f) {
        let i = choose|i: int|
            0 <= i < f.orden_turnos.len() && f.jugadores.contiene(#[trigger] f.orden_turnos[i]);
        assert(e.jugadores.contiene(e.orden_turnos[i]));
    }
    lema_coherente_mismos(e, f);
}

/// An attack keeps a state coherent.
pub proof fn ley_coherente_ataque(
    e: EstadoV,
    addr: Seq<char>,
    monstruo_id: Seq<char>,
    arma: Seq<char>,
    dano: int,
    critico: bool,
)
    requires
        coherente(e),
        dano >= 1,
    ensures
        coherente(ataque(e, addr, monstruo_id, arma, dano, critico).0),
{
    lema_ataque_valido(e, addr, monstruo_id, arma, dano, critico);
    let f = ataque(e, addr, monstruo_id, arma, dano, critico).0;
    match blanco(e, addr, monstruo_id, arma) {
        Ok((id, _, i)) => {
            let m = golpear(e.monstruos[i], dano);
            let g = EstadoV {
                monstruos: e.monstruos.update(i, m),
                jugadores: if m.eliminado {
                    e.jugadores.poner(
                        id,
                        premiar(e.jugadores.valor(id), m.hp_max),
                    )
                } else {
                    e.jugadores
                },
                ..e
            };
            assert(f.jugadores == g.jugadores);
            if alguien(f) {
                let p = choose|p: int|
                    0 <= p < f.orden_turnos.len() && f.jugadores.contiene(
                        #[trigger] f.orden_turnos[p],
                    );
                assert(g.jugadores.contiene(g.orden_turnos[p]));
                assert(alguien(g));
                ley_turno_pasa(g);
            }
        },
        Err(_) => {},
    }
    lema_coherente_mismos(e, f);
}

/// The end of the time of a turn keeps a state coherent.
pub proof fn ley_coherente_turno(e: EstadoV)
    requires
        coherente(e),
    ensures
        coherente(turno_vencido(e).0),
{
    lema_turno_valido(e);
    let f = turno_vencido(e).0;
    if e.fase == Fase::Juego && alguien(f) {
        let p = choose|p: int|
            0 <= p < f.orden_turnos.len() && f.jugadores.contiene(#[trigger] f.orden_turnos[p]);
        assert(e.jugadores.contiene(e.orden_turnos[p]));
        assert(alguien(e));
        ley_turno_pasa(e);
    }
    lema_coherente_mismos(e, f);
}

/// Whether the request `p`, if it made a new player of the one who asked, gave them a new
/// identifier.
pub open spec fn id_nuevo(e: EstadoV, addr: Seq<char>, p: PeticionV, f: EstadoV) -> bool {
    p matches PeticionV::Unirse { nombre } ==> !e.desconectados.contiene(nombre) ==> forall|
        id: Seq<char>,
    |
        f == #[trigger] llegada(e, addr, nombre, id).0 ==> fresco(e, id)
}

/// Whatever is asked for, the answer keeps a state coherent, as long as a new player gets a new
/// identifier.
pub proof fn ley_coherente_peticion(
    e: EstadoV,
    addr: Seq<char>,
    p: PeticionV,
    f: EstadoV,
    paso: PasoV,
)
    requires
        coherente(e),
        atendida(e, addr, p, f, paso),
        f != e ==> id_nuevo(e, addr, p, f),
    ensures
        coherente(f),
{
    match p {
        PeticionV::Unirse { nombre } => if e.desconectados.contiene(nombre) {
            ley_coherente_regreso(e, addr, nombre);
        } else if f != e {
            let id = choose|id: Seq<char>|
                {
                    let (g, l) = #[trigger] llegada(e, addr, nombre, id);
                    f == g && paso == PasoV::Acciones(l)
                };
            ley_coherente_llegada(e, addr, nombre, id);
        },
        PeticionV::IniciarJuego => ley_coherente_inicio(e, addr),
        PeticionV::Alianza { alias, miembros } => ley_coherente_alianza(e, alias, miembros),
        PeticionV::Atacar { monstruo_id, arma } => {},
        PeticionV::Intercambiar { para, cantidad } => if f != e {
            ley_coherente_intercambio(e, addr, para, cantidad as int);
        },
    }
}

/// Leaving and coming back, with nothing in between, restores the player: points, health and
/// weapons are as they were, the turn and the monsters too, and the new address stands for the
/// player.
pub proof fn ley_ida_y_vuelta(e: EstadoV, addr: Seq<char>, nueva: Seq<char>)
    requires
        valido(e),
        e.fase == Fase::Juego,
        e.addr_to_id.contiene(addr),
        e.jugadores.contiene(e.addr_to_id.valor(addr)),
    ensures
        ({
            let id = e.addr_to_id.valor(addr);
            let nombre = e.jugadores.valor(id).nombre;
            let f = abandono(e, addr).0;
            let g = regreso(f, nueva, nombre).0;
            &&& f.jugadores == e.jugadores
            &&& f.desconectados.contiene(nombre)
            &&& g.jugadores == e.jugadores
            &&& !g.desconectados.contiene(nombre)
            &&& g.addr_to_id.contiene(nueva) && g.addr_to_id.valor(nueva) == id
            &&& g == (EstadoV { addr_to_id: g.addr_to_id, desconectados: g.desconectados, ..e })
        }),
{
    lema_poner_igual(e.jugadores, e.addr_to_id.valor(addr));
}

/// Once a player came back, the end of the grace period changes nothing.
pub proof fn ley_gracia_tras_regreso(
    e: EstadoV,
    addr: Seq<char>,
    nombre: Seq<char>,
    id: Seq<char>,
)
    ensures
        ({
            let g = regreso(e, addr, nombre).0;
            gracia_vencida(g, nombre, id) == (g, seq![AccionV::OlvidarGracia { nombre }])
        }),
{
}

/// A player who does not come back within the grace period is out of the game, and does not keep
/// the turn while somebody else of the order of turns is in the game.
pub proof fn ley_gracia_agotada(e: EstadoV, nombre: Seq<char>, id: Seq<char>)
    requires
        valido(e),
        e.desconectados.contiene(nombre),
    ensures
        ({
            let f = gracia_vencida(e, nombre, id).0;
            &&& !f.jugadores.contiene(id)
            &&& !f.desconectados.contiene(nombre)
            &&& alguien(f) ==> f.turno_actual != id
        }),
{
    let s = EstadoV {
        desconectados: e.desconectados.quitar(nombre),
        jugadores: e.jugadores.quitar(id),
        ..e
    };
    let f = gracia_vencida(e, nombre, id).0;
    if alguien(f) && e.turno_actual == id {
        let p = choose|p: int|
            0 <= p < f.orden_turnos.len() && f.jugadores.contiene(#[trigger] f.orden_turnos[p]);
        assert(s.jugadores.contiene(s.orden_turnos[p]));
        ley_turno_pasa(s);
    }
}

/// The loss of a connection that stood for nobody changes nothing, and nobody is told.
pub proof fn ley_abandono_de_nadie(e: EstadoV, addr: Seq<char>)
    requires
        !e.addr_to_id.datos.contains_key(addr),
    ensures
        abandono(e, addr).0 == e,
        abandono(e, addr).1.len() == 0,
{
}

/// The loss of a connection in a running game. The player stays in the game; their place is kept
/// under their name, with what they are at that moment, and the address is free. Everybody else is
/// untouched, and so are turn, monsters and alliances. The countdown for the player is started and
/// everybody is told.
pub proof fn ley_abandono_en_juego(e: EstadoV, addr: Seq<char>)
    requires
        e.fase == Fase::Juego,
        e.addr_to_id.datos.contains_key(addr),
        e.jugadores.datos.contains_key(e.addr_to_id.datos[addr]),
    ensures
        ({
            let (f, l) = abandono(e, addr);
            let id = e.addr_to_id.datos[addr];
            let j = e.jugadores.datos[id];
            &&& f.jugadores == e.jugadores
            &&& !f.addr_to_id.datos.contains_key(addr)
            &&& salvo(e.addr_to_id, f.addr_to_id, addr)
            &&& f.desconectados.datos.contains_key(j.nombre)
            &&& f.desconectados.datos[j.nombre] == (j, addr)
            &&& salvo(e.desconectados, f.desconectados, j.nombre)
            &&& f == (EstadoV { addr_to_id: f.addr_to_id, desconectados: f.desconectados, ..e })
            &&& l == seq![
                AccionV::IniciarGracia { nombre: j.nombre, jugador_id: id },
                AccionV::Difundir(json_desconectado(j.nombre)),
            ]
        }),
{
}

/// The loss of a connection in a running game whose player is out of the game already: the address
/// is free, nothing else changes, and nobody is told.
pub proof fn ley_abandono_sin_lugar(e: EstadoV, addr: Seq<char>)
    requires
        e.fase == Fase::Juego,
        e.addr_to_id.datos.contains_key(addr),
        !e.jugadores.datos.contains_key(e.addr_to_id.datos[addr]),
    ensures
        ({
            let (f, l) = abandono(e, addr);
            &&& !f.addr_to_id.datos.contains_key(addr)
            &&& salvo(e.addr_to_id, f.addr_to_id, addr)
            &&& f == (EstadoV { addr_to_id: f.addr_to_id, ..e })
            &&& l.len() == 0
        }),
{
}

/// The loss of a connection while no game runs: the player is out at once, no place is kept, nobody
/// else is touched, and those who are left see the new state.
pub proof fn ley_abandono_sin_juego(e: EstadoV, addr: Seq<char>)
    requires
        e.fase != Fase::Juego,
        e.addr_to_id.datos.contains_key(addr),
    ensures
        ({
            let (f, l) = abandono(e, addr);
            let id = e.addr_to_id.datos[addr];
            &&& !f.jugadores.datos.contains_key(id)
            &&& salvo(e.jugadores, f.jugadores, id)
            &&& f.jugadores.claves == e.jugadores.quitar(id).claves
            &&& !f.addr_to_id.datos.contains_key(addr)
            &&& salvo(e.addr_to_id, f.addr_to_id, addr)
            &&& f == (EstadoV { addr_to_id: f.addr_to_id, jugadores: f.jugadores, ..e })
            &&& f.jugadores.claves.len() > 0 ==> l == seq![AccionV::Difundir(json_estado(f))]
            &&& f.jugadores.claves.len() == 0 ==> l.len() == 0
        }),
{
}

/// The end of a grace period for which no place is kept any more changes nothing; the countdown is
/// dropped and nobody is told.
pub proof fn ley_gracia_sin_lugar(e: EstadoV, nombre: Seq<char>, id: Seq<char>)
    requires
        !e.desconectados.datos.contains_key(nombre),
    ensures
        gracia_vencida(e, nombre, id) == (e, seq![AccionV::OlvidarGracia { nombre }]),
{
}

/// The end of a grace period while the place is kept. The player is out of the game and the place
/// is given up; nobody else is touched, nor are addresses, monsters and alliances. A turn that was
/// somebody else's stays where it was, player and position; one that was theirs passes to the next
/// of those who are left. Everybody sees the new state, and the countdown is dropped.
pub proof fn ley_gracia(e: EstadoV, nombre: Seq<char>, id: Seq<char>)
    requires
        e.desconectados.datos.contains_key(nombre),
    ensures
        ({
            let (f, l) = gracia_vencida(e, nombre, id);
            &&& !f.jugadores.datos.contains_key(id)
            &&& salvo(e.jugadores, f.jugadores, id)
            &&& f.jugadores.claves == e.jugadores.quitar(id).claves
            &&& !f.desconectados.datos.contains_key(nombre)
            &&& salvo(e.desconectados, f.desconectados, nombre)
            &&& e.turno_actual != id ==> f.turno_actual == e.turno_actual && f.turno_index
                == e.turno_index
            &&& e.turno_actual == id ==> {
                let g = turno_siguiente(EstadoV { jugadores: f.jugadores, ..e });
                f.turno_actual == g.turno_actual && f.turno_index == g.turno_index
            }
            &&& f == (EstadoV {
                jugadores: f.jugadores,
                desconectados: f.desconectados,
                turno_actual: f.turno_actual,
                turno_index: f.turno_index,
                ..e
            })
            &&& l == seq![
                AccionV::Difundir(json_estado(f)),
                AccionV::OlvidarGracia { nombre },
            ]
        }),
{
    let t = e.jugadores.quitar(id);
    let s = EstadoV { desconectados: e.desconectados.quitar(nombre), jugadores: t, ..e };
    let r = EstadoV { jugadores: t, ..e };
    if e.orden_turnos.len() > 0 {
        lema_saltos_iguales(r, s, 0);
    }
}

/// Somebody who connects sees the state of the game, unless nobody has joined and no game was
/// started.
pub proof fn ley_bienvenida(e: EstadoV)
    ensures
        e.jugadores.claves.len() == 0 && e.fase == Fase::Espera ==> bienvenida(e) is None,
        e.jugadores.claves.len() > 0 || e.fase != Fase::Espera ==> bienvenida(e) == Some(
            json_estado(e),
        ),
{
}

/// Outside a running game a player who loses the connection is out at once.
pub proof fn ley_abandono_fuera_de_juego(e: EstadoV, addr: Seq<char>)
    requires
        e.fase != Fase::Juego,
        e.addr_to_id.contiene(addr),
    ensures
        !abandono(e, addr).0.jugadores.contiene(e.addr_to_id.valor(addr)),
        !abandono(e, addr).0.addr_to_id.contiene(addr),
{
}

/// A new player starts with no points, ten health points and all weapons; with a new identifier the
/// others stay as they are.
pub proof fn ley_llegada(e: EstadoV, addr: Seq<char>, nombre: Seq<char>, id: Seq<char>)
    ensures
        ({
            let f = llegada(e, addr, nombre, id).0;
            let j = f.jugadores.valor(id);
            &&& f.jugadores.contiene(id)
            &&& j.nombre == nombre && j.id == id && j.puntos == 0 && j.hp == 10
            &&& j.armas == seq!["daga"@, "granada"@, "dinamita"@]
            &&& f.addr_to_id.valor(addr) == id
            &&& forall|k: Seq<char>| #[trigger]
                e.jugadores.contiene(k) && k != id ==> f.jugadores.contiene(k)
                    && f.jugadores.valor(k) == e.jugadores.valor(k)
        }),
{
}

} // verus!
