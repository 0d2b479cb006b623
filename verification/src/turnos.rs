//! Whose turn it is.

use vstd::prelude::*;
use vstd::arithmetic::div_mod::{lemma_add_mod_noop, lemma_mod_add_multiples_vanish};
use crate::accion::{acciones, anunciar, Accion, AccionV};
use crate::mensaje::{json_estado, Mensaje};
use crate::modelo::{en_marcha, operable, valido, EstadoJuego, EstadoV, Fase};

verus! {

/// The position `a` places behind the one that follows the current turn; the order is a circle.
pub open spec fn puesto(e: EstadoV, a: int) -> int {
    (e.turno_index + 1 + a) % (e.orden_turnos.len() as int)
}

/// Whether the player at that position is in the game.
pub open spec fn presente(e: EstadoV, a: int) -> bool {
    e.jugadores.contiene(e.orden_turnos[puesto(e, a)])
}

/// How many players, from the `a`-th after the current turn on, are passed over until one that is
/// in the game, counted from the current turn. It is the length of the order where there is none.
pub open spec fn saltos(e: EstadoV, a: int) -> int
    decreases e.orden_turnos.len() - a,
{
    if a >= e.orden_turnos.len() || presente(e, a) {
        a
    } else {
        saltos(e, a + 1)
    }
}

/// The state with the turn passed on to the next player of the order who is in the game. Where
/// nobody of the order is, the position advances by one and the turn stays where it was.
pub open spec fn turno_siguiente(e: EstadoV) -> EstadoV {
    let n = e.orden_turnos.len() as int;
    if n == 0 {
        e
    } else {
        let a = saltos(e, 0);
        if a < n {
            EstadoV {
                turno_index: puesto(e, a),
                turno_actual: e.orden_turnos[puesto(e, a)],
                ..e
            }
        } else {
            EstadoV { turno_index: puesto(e, 0), ..e }
        }
    }
}

proof fn lema_puesto(e: EstadoV, a: int)
    requires
        e.orden_turnos.len() > 0,
    ensures
        0 <= puesto(e, a) < e.orden_turnos.len(),
        (puesto(e, a) + 1) % (e.orden_turnos.len() as int) == puesto(e, a + 1),
        puesto(e, e.orden_turnos.len() as int) == puesto(e, 0),
{
    let n = e.orden_turnos.len() as int;
    let x = e.turno_index + 1 + a;
    lemma_add_mod_noop(x, 1, n);
    lemma_add_mod_noop(x % n, 1, n);
    vstd::arithmetic::div_mod::lemma_mod_twice(x, n);
    lemma_mod_add_multiples_vanish(e.turno_index + 1, n);
}

/// What `saltos` counts: everybody before is passed over, and the one it stops at is in the game.
pub proof fn lema_saltos(e: EstadoV, a: int)
    requires
        0 <= a <= e.orden_turnos.len(),
    ensures
        a <= saltos(e, a) <= e.orden_turnos.len(),
        forall|b: int| a <= b < saltos(e, a) ==> !presente(e, b),
        saltos(e, a) < e.orden_turnos.len() ==> presente(e, saltos(e, a)),
    decreases e.orden_turnos.len() - a,
{
    if a < e.orden_turnos.len() && !presente(e, a) {
        lema_saltos(e, a + 1);
    }
}

/// The rules can still be carried out when the turn has passed on.
proof fn lema_turno_operable(e: EstadoV)
    requires
        operable(e),
    ensures
        operable(turno_siguiente(e)),
{
    if e.orden_turnos.len() > 0 {
        lema_puesto(e, 0);
        lema_puesto(e, saltos(e, 0));
    }
}

/// Passing the turn keeps a state valid.
pub proof fn lema_turno_valido(e: EstadoV)
    requires
        valido(e),
    ensures
        valido(turno_siguiente(e)),
{
    if e.orden_turnos.len() > 0 {
        lema_saltos(e, 0);
        lema_puesto(e, 0);
        lema_puesto(e, saltos(e, 0));
        let f = turno_siguiente(e);
        assert(en_marcha(f)) by {
            if saltos(e, 0) < e.orden_turnos.len() {
                assert(e.orden_turnos[puesto(e, saltos(e, 0))] == f.turno_actual);
            }
        }
    }
}

/// How many places further the position `hasta` is than `desde`, on a circle of `n` places: at least
/// one, and at most once around.
pub open spec fn pasos(desde: int, hasta: int, n: int) -> int {
    1 + (hasta - desde - 1) % n
}

/// The position that is so many places further is the position itself.
proof fn lema_pasos(e: EstadoV, i: int)
    requires
        0 <= i < e.orden_turnos.len(),
    ensures
        ({
            let n = e.orden_turnos.len() as int;
            let a = pasos(e.turno_index, i, n) - 1;
            0 <= a < n && puesto(e, a) == i
        }),
{
    let n = e.orden_turnos.len() as int;
    let d = i - e.turno_index - 1;
    lemma_add_mod_noop(e.turno_index + 1, d, n);
    lemma_add_mod_noop(e.turno_index + 1, d % n, n);
    vstd::arithmetic::div_mod::lemma_mod_twice(d, n);
    vstd::arithmetic::div_mod::lemma_small_mod(i as nat, n as nat);
}

/// Counting `a` places on from the one behind the current turn and measuring gives `a` back.
proof fn lema_pasos_de(e: EstadoV, a: int)
    requires
        0 <= a < e.orden_turnos.len(),
    ensures
        pasos(e.turno_index, puesto(e, a), e.orden_turnos.len() as int) == a + 1,
{
    let n = e.orden_turnos.len() as int;
    let x = e.turno_index + 1 + a;
    vstd::arithmetic::div_mod::lemma_sub_mod_noop(x, e.turno_index + 1, n);
    vstd::arithmetic::div_mod::lemma_sub_mod_noop(x % n, e.turno_index + 1, n);
    vstd::arithmetic::div_mod::lemma_mod_twice(x, n);
    vstd::arithmetic::div_mod::lemma_small_mod(a as nat, n as nat);
}

/// The turn passes to the player of the order who is in the game and comes next: nobody who is in
/// the game comes sooner. Where nobody of the order is in the game, the turn stays with whom it was
/// and the position moves by one. Nothing else changes.
pub proof fn ley_siguiente(e: EstadoV)
    ensures
        ({
            let n = e.orden_turnos.len() as int;
            let f = turno_siguiente(e);
            &&& f == (EstadoV { turno_index: f.turno_index, turno_actual: f.turno_actual, ..e })
            &&& n == 0 ==> f == e
            &&& n > 0 ==> 0 <= f.turno_index < n
            &&& (exists|i: int|
                0 <= i < n && e.jugadores.datos.contains_key(#[trigger] e.orden_turnos[i])) ==> {
                &&& f.turno_actual == e.orden_turnos[f.turno_index]
                &&& e.jugadores.datos.contains_key(f.turno_actual)
                &&& forall|i: int|
                    0 <= i < n && e.jugadores.datos.contains_key(#[trigger] e.orden_turnos[i])
                        ==> pasos(e.turno_index, f.turno_index, n) <= pasos(e.turno_index, i, n)
            }
            &&& n > 0 && (forall|i: int|
                0 <= i < n ==> !e.jugadores.datos.contains_key(#[trigger] e.orden_turnos[i])) ==> {
                &&& f.turno_actual == e.turno_actual
                &&& f.turno_index == (e.turno_index + 1) % n
            }
        }),
{
    let n = e.orden_turnos.len() as int;
    let f = turno_siguiente(e);
    if n > 0 {
        let a = saltos(e, 0);
        lema_saltos(e, 0);
        lema_puesto(e, 0);
        lema_puesto(e, a);
        if a < n {
            lema_pasos_de(e, a);
        }
        assert forall|i: int|
            0 <= i < n && e.jugadores.datos.contains_key(#[trigger] e.orden_turnos[i]) implies a < n
            && pasos(e.turno_index, f.turno_index, n) <= pasos(e.turno_index, i, n) by {
            lema_pasos(e, i);
            let b = pasos(e.turno_index, i, n) - 1;
            assert(presente(e, b));
        }
    }
}

/// No two places of the circle are equally far from one place, so which player comes next is never
/// in doubt.
pub proof fn ley_pasos_distintos(desde: int, i: int, j: int, n: int)
    requires
        0 <= i < n,
        0 <= j < n,
        pasos(desde, i, n) == pasos(desde, j, n),
    ensures
        i == j,
{
    vstd::arithmetic::div_mod::lemma_fundamental_div_mod(i - desde - 1, n);
    vstd::arithmetic::div_mod::lemma_fundamental_div_mod(j - desde - 1, n);
    let p = (i - desde - 1) / n;
    let q = (j - desde - 1) / n;
    assert(i - j == n * (p - q)) by (nonlinear_arith)
        requires
            i - desde - 1 == n * p + (i - desde - 1) % n,
            j - desde - 1 == n * q + (j - desde - 1) % n,
            (i - desde - 1) % n == (j - desde - 1) % n,
    ;
    assert(p == q) by (nonlinear_arith)
        requires
            i - j == n * (p - q),
            -n < i - j < n,
    ;
}

/// The end of the time of a turn passes the turn on and shows everybody the state, while the game
/// runs. Otherwise nothing happens, and the timer is told to end.
pub proof fn ley_turno_vencido(e: EstadoV)
    ensures
        ({
            let (f, r) = turno_vencido(e);
            &&& e.fase == Fase::Juego ==> f == turno_siguiente(e) && r == Some(
                seq![AccionV::Difundir(json_estado(f))],
            )
            &&& e.fase != Fase::Juego ==> f == e && r is None
        }),
{
}

/// Passes the turn on to the next player who is in the game.
pub fn siguiente_turno(state: &mut EstadoJuego)
    requires
        operable(old(state)@),
    ensures
        operable(final(state)@),
        valido(old(state)@) ==> valido(final(state)@),
        final(state)@ == turno_siguiente(old(state)@),
{
    let ghost e = state@;
    let n: usize = state.orden_turnos.len();
    if n == 0 {
        return;
    }
    proof {
        lema_puesto(e, 0);
        lema_turno_operable(e);
        if valido(e) {
            lema_turno_valido(e);
        }
    }
    state.turno_index = (state.turno_index + 1) % n;
    let mut a: usize = 0;
    while a < n
        invariant
            e == old(state)@,
            n == e.orden_turnos.len(),
            n > 0,
            a <= n,
            e.jugadores.valida(),
            operable(turno_siguiente(e)),
            valido(e) ==> valido(turno_siguiente(e)),
            0 <= puesto(e, a as int) < n,
            state@ == (EstadoV { turno_index: puesto(e, a as int), ..e }),
            saltos(e, 0) == saltos(e, a as int),
        decreases n - a,
    {
        proof {
            lema_puesto(e, a as int);
        }
        let i: usize = state.turno_index;
        assert(e.orden_turnos[i as int] == state.orden_turnos@[i as int]@);
        if state.jugadores.contiene(state.orden_turnos[i].as_str()) {
            state.turno_actual = state.orden_turnos[i].clone();
            assert(state@ =~= turno_siguiente(e));
            return;
        }
        state.turno_index = (i + 1) % n;
        a = a + 1;
    }
    proof {
        lema_puesto(e, 0);
    }
    assert(state@ =~= turno_siguiente(e));
}

/// The state after the time of a turn ran out, and what is to be done. Outside a running game
/// nothing changes and the timer ends.
pub open spec fn turno_vencido(e: EstadoV) -> (EstadoV, Option<Seq<AccionV>>) {
    if e.fase != Fase::Juego {
        (e, None)
    } else {
        let f = turno_siguiente(e);
        (f, Some(seq![AccionV::Difundir(json_estado(f))]))
    }
}

/// Handles the end of the time of a turn. `None` tells the timer to end.
pub fn vencer_turno(state: &mut EstadoJuego) -> (r: Option<Vec<Accion>>)
    requires
        operable(old(state)@),
    ensures
        operable(final(state)@),
        valido(old(state)@) ==> valido(final(state)@),
        final(state)@ == turno_vencido(old(state)@).0,
        match r {
            Some(l) => turno_vencido(old(state)@).1 == Some(acciones(l@)),
            None => turno_vencido(old(state)@).1 is None,
        },
{
    if state.fase != Fase::Juego {
        return None;
    }
    siguiente_turno(state);
    Some(anunciar(Mensaje::estado(state)))
}

} // verus!
