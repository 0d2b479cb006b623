//! Laws about the countdowns of absent players: how they and the game stay in step.

use vstd::prelude::*;
use crate::accion::AccionV;
use crate::combate::ataque;
use crate::modelo::{inicial, EstadoV, Fase};
use crate::partida::{llegada, regreso};
use crate::peticion::PeticionV;
use crate::presencia::{
    coherente, fresco, ley_coherente_abandono, ley_coherente_ataque, ley_coherente_gracia,
    ley_coherente_inicial, ley_coherente_llegada, ley_coherente_peticion, ley_coherente_regreso,
    ley_coherente_turno,
};
use crate::servidor::{abandono, atendida, gracia_vencida, PasoV};
use crate::turnos::turno_vencido;

verus! {

/// The countdowns of the outside world. A countdown runs for a name and a player. For each name at
/// most one is kept at hand, and only such a one can be stopped: a later countdown for the same
/// name takes its place, and the earlier one runs on.
#[verifier::ext_equal]
pub struct Cuentas {
    pub activas: Set<(Seq<char>, Seq<char>)>,
    pub vigente: Map<Seq<char>, Seq<char>>,
}

impl Cuentas {
    /// No countdowns.
    pub open spec fn ninguna() -> Self {
        Cuentas { activas: Set::empty(), vigente: Map::empty() }
    }
}

/// What an action does to the countdowns.
pub open spec fn aplicar(c: Cuentas, a: AccionV) -> Cuentas {
    match a {
        AccionV::IniciarGracia { nombre, jugador_id } => Cuentas {
            activas: c.activas.insert((nombre, jugador_id)),
            vigente: c.vigente.insert(nombre, jugador_id),
        },
        AccionV::CancelarGracia { nombre } => if c.vigente.contains_key(nombre) {
            Cuentas {
                activas: c.activas.remove((nombre, c.vigente[nombre])),
                vigente: c.vigente.remove(nombre),
            }
        } else {
            c
        },
        AccionV::CancelarGracias => Cuentas {
            activas: c.activas.filter(
                |p: (Seq<char>, Seq<char>)|
                    !(c.vigente.contains_key(p.0) && c.vigente[p.0] == p.1),
            ),
            vigente: Map::empty(),
        },
        AccionV::OlvidarGracia { nombre } => Cuentas { vigente: c.vigente.remove(nombre), ..c },
        _ => c,
    }
}

/// What a list of actions does to the countdowns.
pub open spec fn aplicar_todas(c: Cuentas, l: Seq<AccionV>) -> Cuentas
    decreases l.len(),
{
    if l.len() == 0 {
        c
    } else {
        aplicar(aplicar_todas(c, l.drop_last()), l.last())
    }
}

/// The countdowns once the one for `nombre` and `id` is over.
pub open spec fn terminar(c: Cuentas, nombre: Seq<char>, id: Seq<char>) -> Cuentas {
    Cuentas { activas: c.activas.remove((nombre, id)), ..c }
}

/// Countdowns and game are in step: nobody with an address is counted down, a countdown runs under
/// the name of its player, no player is counted down twice, and whoever is away can stop their
/// countdown by coming back.
pub open spec fn acordes(e: EstadoV, c: Cuentas) -> bool {
    &&& forall|n: Seq<char>, id: Seq<char>, a: Seq<char>|
        #![trigger c.activas.contains((n, id)), e.addr_to_id.contiene(a)]
        c.activas.contains((n, id)) && e.addr_to_id.contiene(a) ==> e.addr_to_id.valor(a) != id
    &&& forall|n: Seq<char>, id: Seq<char>| #[trigger]
        c.activas.contains((n, id)) && e.jugadores.contiene(id) ==> e.jugadores.valor(id).nombre
            == n
    &&& forall|n: Seq<char>, m: Seq<char>, id: Seq<char>|
        #![trigger c.activas.contains((n, id)), c.activas.contains((m, id))]
        c.activas.contains((n, id)) && c.activas.contains((m, id)) ==> n == m
    &&& forall|n: Seq<char>| #[trigger]
        e.desconectados.contiene(n) ==> c.vigente.contains_key(n) && c.vigente[n]
            == e.desconectados.valor(n).0.id && c.activas.contains((n, c.vigente[n]))
}

/// What holds of the game and the countdowns at all times, while identifiers do not repeat.
pub open spec fn firme(e: EstadoV, c: Cuentas) -> bool {
    coherente(e) && acordes(e, c)
}

/// Whether `id` is new to the game and to the countdowns.
pub open spec fn inedito(e: EstadoV, c: Cuentas, id: Seq<char>) -> bool {
    &&& fresco(e, id)
    &&& forall|n: Seq<char>| !#[trigger] c.activas.contains((n, id))
}

/// Whether an action leaves the countdowns alone.
spec fn ajena(a: AccionV) -> bool {
    !(a is IniciarGracia || a is CancelarGracia || a is CancelarGracias || a is OlvidarGracia)
}

proof fn lema_ajenas(c: Cuentas, l: Seq<AccionV>)
    requires
        forall|i: int| 0 <= i < l.len() ==> ajena(#[trigger] l[i]),
    ensures
        aplicar_todas(c, l) == c,
    decreases l.len(),
{
    if l.len() > 0 {
        lema_ajenas(c, l.drop_last());
        assert(ajena(l[l.len() - 1]));
    }
}

/// A list whose first action alone may concern the countdowns.
proof fn lema_primera(c: Cuentas, l: Seq<AccionV>)
    requires
        l.len() > 0,
        forall|i: int| 1 <= i < l.len() ==> ajena(#[trigger] l[i]),
    ensures
        aplicar_todas(c, l) == aplicar(c, l[0]),
    decreases l.len(),
{
    if l.len() == 1 {
        assert(l.drop_last().len() == 0);
        reveal_with_fuel(aplicar_todas, 2);
    } else {
        lema_primera(c, l.drop_last());
        assert(ajena(l[l.len() - 1]));
    }
}

/// At the start the game and the countdowns are in step.
pub proof fn ley_firme_inicial(sesion_id: Seq<char>)
    ensures
        firme(inicial(sesion_id), Cuentas::ninguna()),
{
    ley_coherente_inicial(sesion_id);
}

/// Starting over keeps the game and the countdowns in step, also with those that can no longer be
/// stopped.
pub proof fn ley_firme_recomienzo(e: EstadoV, c: Cuentas, sesion_id: Seq<char>)
    requires
        firme(e, c),
    ensures
        firme(
            inicial(sesion_id),
            aplicar_todas(c, seq![AccionV::CancelarGracias, AccionV::DetenerReloj]),
        ),
{
    ley_coherente_inicial(sesion_id);
    let l = seq![AccionV::CancelarGracias, AccionV::DetenerReloj];
    lema_primera(c, l);
    let d = aplicar(c, AccionV::CancelarGracias);
    let f = inicial(sesion_id);
    assert forall|n: Seq<char>, m: Seq<char>, id: Seq<char>|
        #![trigger d.activas.contains((n, id)), d.activas.contains((m, id))]
        d.activas.contains((n, id)) && d.activas.contains((m, id)) implies n == m by {
        assert(c.activas.contains((n, id)));
        assert(c.activas.contains((m, id)));
    }
}

/// Whether the request `p`, if it made a new player of the one who asked, gave them an identifier
/// that is new to the game and to the countdowns.
pub open spec fn id_inedito(
    e: EstadoV,
    c: Cuentas,
    addr: Seq<char>,
    p: PeticionV,
    f: EstadoV,
) -> bool {
    p matches PeticionV::Unirse { nombre } ==> !e.desconectados.contiene(nombre) ==> forall|
        id: Seq<char>,
    |
        f == #[trigger] llegada(e, addr, nombre, id).0 ==> inedito(e, c, id)
}

proof fn lema_firme_regreso(e: EstadoV, c: Cuentas, addr: Seq<char>, nombre: Seq<char>)
    requires
        firme(e, c),
        e.desconectados.contiene(nombre),
    ensures
        firme(
            regreso(e, addr, nombre).0,
            aplicar_todas(c, regreso(e, addr, nombre).1),
        ),
{
    let (f, l) = regreso(e, addr, nombre);
    ley_coherente_regreso(e, addr, nombre);
    lema_primera(c, l);
    let d = aplicar_todas(c, l);
    let k = e.desconectados.valor(nombre).0.id;
    assert(c.vigente[nombre] == k);
    assert(c.activas.contains((nombre, k)));
    assert forall|n: Seq<char>, id: Seq<char>| #[trigger] d.activas.contains((n, id)) implies
        c.activas.contains((n, id)) && id != k by {
        assert(c.activas.contains((n, id)));
        if id == k {
            assert(n == nombre);
        }
    }
    assert forall|n: Seq<char>, id: Seq<char>, a: Seq<char>|
        #![trigger d.activas.contains((n, id)), f.addr_to_id.contiene(a)]
        d.activas.contains((n, id)) && f.addr_to_id.contiene(a) implies f.addr_to_id.valor(a)
        != id by {
        assert(a != addr ==> e.addr_to_id.contiene(a));
        assert(c.activas.contains((n, id)));
    }
    assert forall|n: Seq<char>, id: Seq<char>| #[trigger]
        d.activas.contains((n, id)) && f.jugadores.contiene(id) implies f.jugadores.valor(id).nombre
        == n by {
        assert(c.activas.contains((n, id)));
        assert(e.jugadores.contiene(id));
    }
    assert forall|n: Seq<char>, m: Seq<char>, id: Seq<char>|
        #![trigger d.activas.contains((n, id)), d.activas.contains((m, id))]
        d.activas.contains((n, id)) && d.activas.contains((m, id)) implies n == m by {
        assert(c.activas.contains((n, id)));
        assert(c.activas.contains((m, id)));
    }
    assert forall|n: Seq<char>| #[trigger] f.desconectados.contiene(n) implies
        d.vigente.contains_key(n) && d.vigente[n] == f.desconectados.valor(n).0.id
        && d.activas.contains((n, d.vigente[n])) by {
        assert(e.desconectados.contiene(n));
    }
}

proof fn lema_firme_llegada(
    e: EstadoV,
    c: Cuentas,
    addr: Seq<char>,
    nombre: Seq<char>,
    id: Seq<char>,
)
    requires
        firme(e, c),
        inedito(e, c, id),
    ensures
        firme(
            llegada(e, addr, nombre, id).0,
            aplicar_todas(c, llegada(e, addr, nombre, id).1),
        ),
{
    let (f, l) = llegada(e, addr, nombre, id);
    ley_coherente_llegada(e, addr, nombre, id);
    lema_ajenas(c, l);
    assert forall|n: Seq<char>, k: Seq<char>, a: Seq<char>|
        #![trigger c.activas.contains((n, k)), f.addr_to_id.contiene(a)]
        c.activas.contains((n, k)) && f.addr_to_id.contiene(a) implies f.addr_to_id.valor(a)
        != k by {
        assert(a != addr ==> e.addr_to_id.contiene(a));
    }
    assert forall|n: Seq<char>, k: Seq<char>| #[trigger]
        c.activas.contains((n, k)) && f.jugadores.contiene(k) implies f.jugadores.valor(k).nombre
        == n by {
        assert(k != id);
        assert(e.jugadores.contiene(k));
    }
    assert forall|n: Seq<char>| #[trigger] f.desconectados.contiene(n) implies
        c.vigente.contains_key(n) && c.vigente[n] == f.desconectados.valor(n).0.id
        && c.activas.contains((n, c.vigente[n])) by {
        assert(e.desconectados.contiene(n));
    }
}

/// Game and countdowns stay in step where nobody comes or goes.
proof fn lema_acordes_mismos(e: EstadoV, f: EstadoV, c: Cuentas)
    requires
        acordes(e, c),
        f.addr_to_id == e.addr_to_id,
        f.desconectados == e.desconectados,
        forall|k: Seq<char>| #[trigger]
            f.jugadores.contiene(k) ==> e.jugadores.contiene(k) && f.jugadores.valor(k).nombre
                == e.jugadores.valor(k).nombre,
    ensures
        acordes(f, c),
{
    assert forall|n: Seq<char>, k: Seq<char>| #[trigger]
        c.activas.contains((n, k)) && f.jugadores.contiene(k) implies f.jugadores.valor(k).nombre
        == n by {
        assert(e.jugadores.contiene(k));
    }
}

/// Whatever is asked for, the answer keeps the game and the countdowns in step, as long as a new
/// player gets a new identifier.
pub proof fn ley_firme_peticion(
    e: EstadoV,
    c: Cuentas,
    addr: Seq<char>,
    p: PeticionV,
    f: EstadoV,
    paso: PasoV,
)
    requires
        firme(e, c),
        atendida(e, addr, p, f, paso),
        f != e ==> id_inedito(e, c, addr, p, f),
    ensures
        match paso {
            PasoV::Acciones(l) => firme(f, aplicar_todas(c, l)),
            _ => firme(f, c),
        },
{
    match p {
        PeticionV::Unirse { nombre } => if e.desconectados.contiene(nombre) {
            lema_firme_regreso(e, c, addr, nombre);
        } else if paso is Acciones {
            let id = choose|id: Seq<char>|
                {
                    let (g, l) = #[trigger] llegada(e, addr, nombre, id);
                    f == g && paso == PasoV::Acciones(l)
                };
            if f != e {
                lema_firme_llegada(e, c, addr, nombre, id);
            } else {
                lema_ajenas(c, llegada(e, addr, nombre, id).1);
            }
        },
        _ => {
            ley_coherente_peticion(e, addr, p, f, paso);
            lema_acordes_mismos(e, f, c);
            if paso is Acciones {
                lema_ajenas(c, paso->Acciones_0);
            }
        },
    }
}

/// An attack keeps the game and the countdowns in step.
pub proof fn ley_firme_ataque(
    e: EstadoV,
    c: Cuentas,
    addr: Seq<char>,
    monstruo_id: Seq<char>,
    arma: Seq<char>,
    dano: int,
    critico: bool,
)
    requires
        firme(e, c),
        dano >= 1,
    ensures
        firme(
            ataque(e, addr, monstruo_id, arma, dano, critico).0,
            aplicar_todas(c, ataque(e, addr, monstruo_id, arma, dano, critico).1),
        ),
{
    let (f, l) = ataque(e, addr, monstruo_id, arma, dano, critico);
    ley_coherente_ataque(e, addr, monstruo_id, arma, dano, critico);
    lema_acordes_mismos(e, f, c);
    lema_ajenas(c, l);
}

/// The loss of a connection keeps the game and the countdowns in step.
pub proof fn ley_firme_abandono(e: EstadoV, c: Cuentas, addr: Seq<char>)
    requires
        firme(e, c),
    ensures
        firme(abandono(e, addr).0, aplicar_todas(c, abandono(e, addr).1)),
{
    let (f, l) = abandono(e, addr);
    ley_coherente_abandono(e, addr);
    if !e.addr_to_id.contiene(addr) || e.fase != Fase::Juego {
        lema_ajenas(c, l);
        assert forall|n: Seq<char>, k: Seq<char>, a: Seq<char>|
            #![trigger c.activas.contains((n, k)), f.addr_to_id.contiene(a)]
            c.activas.contains((n, k)) && f.addr_to_id.contiene(a) implies f.addr_to_id.valor(a)
            != k by {
            assert(e.addr_to_id.contiene(a));
        }
        assert forall|n: Seq<char>, k: Seq<char>| #[trigger]
            c.activas.contains((n, k)) && f.jugadores.contiene(k) implies f.jugadores.valor(
            k,
        ).nombre == n by {
            assert(e.jugadores.contiene(k));
        }
        assert forall|n: Seq<char>| #[trigger] f.desconectados.contiene(n) implies
            c.vigente.contains_key(n) && c.vigente[n] == f.desconectados.valor(n).0.id
            && c.activas.contains((n, c.vigente[n])) by {
            assert(e.desconectados.contiene(n));
        }
    } else {
        let id = e.addr_to_id.valor(addr);
        assert(e.jugadores.contiene(id));
        let nombre = e.jugadores.valor(id).nombre;
        lema_primera(c, l);
        let d = aplicar_todas(c, l);
        assert forall|n: Seq<char>, k: Seq<char>| #[trigger] d.activas.contains((n, k)) implies (
        n == nombre && k == id) || (c.activas.contains((n, k)) && k != id) by {
            if c.activas.contains((n, k)) {
                assert(e.addr_to_id.contiene(addr));
            }
        }
        assert forall|n: Seq<char>, k: Seq<char>, a: Seq<char>|
            #![trigger d.activas.contains((n, k)), f.addr_to_id.contiene(a)]
            d.activas.contains((n, k)) && f.addr_to_id.contiene(a) implies f.addr_to_id.valor(a)
            != k by {
            assert(e.addr_to_id.contiene(a) && a != addr);
            assert(e.addr_to_id.contiene(addr));
        }
        assert forall|n: Seq<char>| #[trigger] f.desconectados.contiene(n) implies
            d.vigente.contains_key(n) && d.vigente[n] == f.desconectados.valor(n).0.id
            && d.activas.contains((n, d.vigente[n])) by {
            if n != nombre {
                assert(e.desconectados.contiene(n));
            }
        }
    }
}

/// The end of a countdown that runs keeps the game and the countdowns in step.
pub proof fn ley_firme_gracia(e: EstadoV, c: Cuentas, nombre: Seq<char>, id: Seq<char>)
    requires
        firme(e, c),
        c.activas.contains((nombre, id)),
    ensures
        firme(
            gracia_vencida(e, nombre, id).0,
            aplicar_todas(terminar(c, nombre, id), gracia_vencida(e, nombre, id).1),
        ),
{
    let (f, l) = gracia_vencida(e, nombre, id);
    ley_coherente_gracia(e, nombre, id);
    let t = terminar(c, nombre, id);
    let d = aplicar(t, AccionV::OlvidarGracia { nombre });
    assert(aplicar_todas(t, l) == d) by {
        reveal_with_fuel(aplicar_todas, 3);
        assert(l.last() == (AccionV::OlvidarGracia { nombre }));
        if e.desconectados.contiene(nombre) {
            assert(l.drop_last() =~= seq![l[0]]);
            lema_ajenas(t, l.drop_last());
        } else {
            assert(l.drop_last().len() == 0);
        }
    }
    assert forall|n: Seq<char>, k: Seq<char>| #[trigger]
        d.activas.contains((n, k)) && f.jugadores.contiene(k) implies f.jugadores.valor(k).nombre
        == n by {
        assert(c.activas.contains((n, k)));
        assert(e.jugadores.contiene(k));
    }
    assert forall|n: Seq<char>, k: Seq<char>, a: Seq<char>|
        #![trigger d.activas.contains((n, k)), f.addr_to_id.contiene(a)]
        d.activas.contains((n, k)) && f.addr_to_id.contiene(a) implies f.addr_to_id.valor(a)
        != k by {
        assert(c.activas.contains((n, k)));
        assert(e.addr_to_id.contiene(a));
    }
    assert forall|n: Seq<char>, m: Seq<char>, k: Seq<char>|
        #![trigger d.activas.contains((n, k)), d.activas.contains((m, k))]
        d.activas.contains((n, k)) && d.activas.contains((m, k)) implies n == m by {
        assert(c.activas.contains((n, k)));
        assert(c.activas.contains((m, k)));
    }
    assert forall|n: Seq<char>| #[trigger] f.desconectados.contiene(n) implies
        d.vigente.contains_key(n) && d.vigente[n] == f.desconectados.valor(n).0.id
        && d.activas.contains((n, d.vigente[n])) by {
        assert(e.desconectados.contiene(n));
        assert(n != nombre);
    }
}

/// The end of the time of a turn keeps the game and the countdowns in step.
pub proof fn ley_firme_turno(e: EstadoV, c: Cuentas)
    requires
        firme(e, c),
    ensures
        match turno_vencido(e).1 {
            Some(l) => firme(turno_vencido(e).0, aplicar_todas(c, l)),
            None => firme(turno_vencido(e).0, c),
        },
{
    ley_coherente_turno(e);
    lema_acordes_mismos(e, turno_vencido(e).0, c);
    if e.fase == Fase::Juego {
        lema_ajenas(c, turno_vencido(e).1->0);
    }
}

/// The end of a countdown never removes a player who has an address.
pub proof fn ley_presente_no_se_quita(
    e: EstadoV,
    c: Cuentas,
    nombre: Seq<char>,
    id: Seq<char>,
    addr: Seq<char>,
)
    requires
        firme(e, c),
        c.activas.contains((nombre, id)),
        e.addr_to_id.contiene(addr),
    ensures
        ({
            let f = gracia_vencida(e, nombre, id).0;
            let yo = e.addr_to_id.valor(addr);
            &&& f.addr_to_id.contiene(addr) && f.addr_to_id.valor(addr) == yo
            &&& f.jugadores.contiene(yo) && f.jugadores.valor(yo) == e.jugadores.valor(yo)
        }),
{
    assert(e.jugadores.contiene(e.addr_to_id.valor(addr)));
}

/// Coming back stops the countdown of the player who came back.
pub proof fn ley_regreso_detiene(e: EstadoV, c: Cuentas, addr: Seq<char>, nombre: Seq<char>)
    requires
        firme(e, c),
        e.desconectados.contiene(nombre),
    ensures
        forall|n: Seq<char>|
            !#[trigger] aplicar_todas(c, regreso(e, addr, nombre).1).activas.contains(
                (n, e.desconectados.valor(nombre).0.id),
            ),
{
    lema_firme_regreso(e, c, addr, nombre);
    let f = regreso(e, addr, nombre).0;
    assert(f.addr_to_id.contiene(addr));
}

} // verus!
