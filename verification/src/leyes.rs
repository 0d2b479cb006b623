//! Laws of the game: what holds across its operations.

use vstd::prelude::*;
use crate::accion::AccionV;
use crate::combate::{ataque, blanco, ganador, lema_indice, mejor, preparar};
use crate::identidad::{id_jugador, id_sesion, jugador_en, milis_de, nanos_unix, sesion_en};
use crate::intercambio::{aliados, con_puntos, impide_intercambio, intercambio, pagado, transferir};
use crate::json::Json;
use crate::mensaje::{json_error, json_rechazo};
use crate::modelo::{bestiario, todos_eliminados, valido, EstadoV, Fase, JugadorV, MonstruoV};
use crate::partida::{alianza, impide_inicio, inicio};
use crate::peticion::PeticionV;
use crate::servidor::{abandono, atendida, gracia_vencida, PasoV};
use crate::tabla::TablaV;
use crate::texto::{decimal, digito, numeral};
use crate::turnos::{lema_saltos, presente, puesto, saltos, turno_siguiente, turno_vencido};

verus! {

/// The answer to a request that is refused: a game that cannot be started, an attack that cannot be
/// made, or points that cannot be given.
pub open spec fn negativa(e: EstadoV, addr: Seq<char>, p: PeticionV) -> Option<Json> {
    match p {
        PeticionV::IniciarJuego => match impide_inicio(e) {
            Some(razon) => Some(json_error(razon)),
            None => None,
        },
        PeticionV::Atacar { monstruo_id, arma } => match preparar(e, addr, arma) {
            Err(razon) => Some(json_error(razon)),
            Ok(_) => None,
        },
        PeticionV::Intercambiar { para, cantidad } => if e.addr_to_id.contiene(addr) {
            match impide_intercambio(e, e.addr_to_id.valor(addr), para, cantidad as int) {
                Some(razon) => Some(json_rechazo(razon)),
                None => None,
            }
        } else {
            None
        },
        _ => None,
    }
}

/// A refused request changes nothing, and its answer goes to the one who asked and to nobody else.
pub proof fn ley_negativa(e: EstadoV, addr: Seq<char>, p: PeticionV, f: EstadoV, paso: PasoV)
    requires
        negativa(e, addr, p) is Some,
        atendida(e, addr, p, f, paso),
    ensures
        f == e,
        paso == PasoV::Acciones(
            seq![AccionV::Enviar { addr, mensaje: negativa(e, addr, p)->0 }],
        ),
{
}

/// An attack that hits nobody changes nothing, and the reason goes to the attacker alone.
pub proof fn ley_ataque_fallido(
    e: EstadoV,
    addr: Seq<char>,
    monstruo_id: Seq<char>,
    arma: Seq<char>,
    dano: int,
    critico: bool,
)
    requires
        blanco(e, addr, monstruo_id, arma) is Err,
    ensures
        ataque(e, addr, monstruo_id, arma, dano, critico) == (
            e,
            seq![
                AccionV::Enviar {
                    addr,
                    mensaje: json_error(blanco(e, addr, monstruo_id, arma)->Err_0),
                },
            ],
        ),
{
}

/// Only the player whose turn it is can hit a monster, and only while the game runs.
pub proof fn ley_solo_en_su_turno(
    e: EstadoV,
    addr: Seq<char>,
    monstruo_id: Seq<char>,
    arma: Seq<char>,
    dano: int,
    critico: bool,
)
    requires
        !(e.fase == Fase::Juego && e.addr_to_id.contiene(addr) && e.addr_to_id.valor(addr)
            == e.turno_actual),
    ensures
        ataque(e, addr, monstruo_id, arma, dano, critico).0 == e,
{
}

/// A hit takes exactly its damage from one monster, or what is left of it; a monster that has
/// nothing left is gone; the other monsters stay as they are.
pub proof fn ley_golpe(
    e: EstadoV,
    addr: Seq<char>,
    monstruo_id: Seq<char>,
    arma: Seq<char>,
    dano: int,
    critico: bool,
)
    requires
        valido(e),
        blanco(e, addr, monstruo_id, arma) is Ok,
        dano >= 1,
    ensures
        ({
            let i = blanco(e, addr, monstruo_id, arma)->Ok_0.2;
            let f = ataque(e, addr, monstruo_id, arma, dano, critico).0;
            let antes = e.monstruos[i];
            let despues = f.monstruos[i];
            &&& 0 <= i < e.monstruos.len()
            &&& antes.id == monstruo_id
            &&& f.monstruos == e.monstruos.update(i, despues)
            &&& antes.hp_actual > despues.hp_actual >= 0
            &&& dano <= antes.hp_actual ==> despues.hp_actual == antes.hp_actual - dano
            &&& dano > antes.hp_actual ==> despues.hp_actual == 0
            &&& despues.eliminado <==> despues.hp_actual == 0
            &&& despues.hp_max == antes.hp_max && despues.nombre == antes.nombre && despues.id
                == antes.id && despues.emoji == antes.emoji
        }),
{
    lema_indice(e.monstruos, monstruo_id, 0);
}

/// The removal of a monster pays its attacker a fifth of its full health in points and two health
/// points. A hit that leaves the monster standing pays nothing, and nobody else is paid.
pub proof fn ley_premio(
    e: EstadoV,
    addr: Seq<char>,
    monstruo_id: Seq<char>,
    arma: Seq<char>,
    dano: int,
    critico: bool,
)
    requires
        valido(e),
        blanco(e, addr, monstruo_id, arma) is Ok,
        dano >= 1,
    ensures
        ({
            let (id, _, i) = blanco(e, addr, monstruo_id, arma)->Ok_0;
            let f = ataque(e, addr, monstruo_id, arma, dano, critico).0;
            let j = e.jugadores.valor(id);
            &&& f.jugadores.claves == e.jugadores.claves
            &&& forall|k: Seq<char>| #[trigger]
                e.jugadores.contiene(k) && k != id ==> f.jugadores.valor(k) == e.jugadores.valor(k)
            &&& f.monstruos[i].eliminado ==> f.jugadores.valor(id) == (JugadorV {
                puntos: j.puntos + e.monstruos[i].hp_max / 5,
                hp: j.hp + 2,
                ..j
            })
            &&& !f.monstruos[i].eliminado ==> f.jugadores == e.jugadores
        }),
{
    lema_indice(e.monstruos, monstruo_id, 0);
}

/// A running game is over exactly when the hit removed the last monster; the timer then stops.
pub proof fn ley_fin(
    e: EstadoV,
    addr: Seq<char>,
    monstruo_id: Seq<char>,
    arma: Seq<char>,
    dano: int,
    critico: bool,
)
    requires
        valido(e),
        e.fase == Fase::Juego,
    ensures
        ({
            let f = ataque(e, addr, monstruo_id, arma, dano, critico).0;
            &&& f.fase == Fase::Fin <==> todos_eliminados(f.monstruos)
            &&& f.fase == Fase::Juego <==> !todos_eliminados(f.monstruos)
            &&& f.reloj == (f.fase == Fase::Juego)
        }),
{
}

/// Whether the phase of a game may change from `a` to `b`: only forwards.
pub open spec fn fase_avanza(a: Fase, b: Fase) -> bool {
    a == b || (a == Fase::Espera && b == Fase::Juego) || (a == Fase::Juego && b == Fase::Fin)
}

/// Whether the monsters `b` are the monsters `a` after some hits: no health comes back.
pub open spec fn solo_pierden(a: Seq<MonstruoV>, b: Seq<MonstruoV>) -> bool {
    &&& a.len() == b.len()
    &&& forall|i: int|
        0 <= i < a.len() ==> {
            &&& (#[trigger] b[i]).id == a[i].id
            &&& b[i].hp_actual <= a[i].hp_actual
            &&& a[i].eliminado ==> b[i].eliminado
        }
}

/// Whatever is asked for, the phase only moves forwards, and the monsters of a started game only
/// lose health.
pub proof fn ley_avance_peticion(e: EstadoV, addr: Seq<char>, p: PeticionV, f: EstadoV, paso: PasoV)
    requires
        valido(e),
        atendida(e, addr, p, f, paso),
    ensures
        fase_avanza(e.fase, f.fase),
        e.fase != Fase::Espera ==> solo_pierden(e.monstruos, f.monstruos),
{
}

/// An attack moves the phase only forwards, and the monsters only lose health.
pub proof fn ley_avance_ataque(
    e: EstadoV,
    addr: Seq<char>,
    monstruo_id: Seq<char>,
    arma: Seq<char>,
    dano: int,
    critico: bool,
)
    requires
        valido(e),
        dano >= 1,
    ensures
        fase_avanza(e.fase, ataque(e, addr, monstruo_id, arma, dano, critico).0.fase),
        solo_pierden(
            e.monstruos,
            ataque(e, addr, monstruo_id, arma, dano, critico).0.monstruos,
        ),
{
    lema_indice(e.monstruos, monstruo_id, 0);
}

/// The comings and goings of players and of turns touch neither the phase nor the monsters.
pub proof fn ley_avance_ajeno(e: EstadoV, addr: Seq<char>, nombre: Seq<char>, id: Seq<char>)
    ensures
        abandono(e, addr).0.fase == e.fase,
        abandono(e, addr).0.monstruos == e.monstruos,
        gracia_vencida(e, nombre, id).0.fase == e.fase,
        gracia_vencida(e, nombre, id).0.monstruos == e.monstruos,
        turno_vencido(e).0.fase == e.fase,
        turno_vencido(e).0.monstruos == e.monstruos,
{
}

/// The winner is one of the players, and nobody has more points. There is one where there are
/// players.
pub proof fn ley_ganador(js: Seq<JugadorV>)
    ensures
        match mejor(js) {
            Some(g) => js.contains(g) && ganador(js) == g.nombre && forall|i: int|
                0 <= i < js.len() ==> (#[trigger] js[i]).puntos <= g.puntos,
            None => js.len() == 0,
        },
    decreases js.len(),
{
    if js.len() > 0 {
        let previos = js.drop_last();
        ley_ganador(previos);
        let g = mejor(js)->0;
        if mejor(previos) is Some && g == mejor(previos)->0 {
            let i = previos.index_of(g);
            assert(js[i] == g);
        } else {
            assert(js[js.len() - 1] == g);
        }
        assert forall|i: int| 0 <= i < js.len() implies (#[trigger] js[i]).puntos <= g.puntos by {
            if i < previos.len() {
                assert(previos[i] == js[i]);
            }
        }
    }
}

/// The points of all players together.
pub open spec fn suma(js: Seq<JugadorV>) -> int
    decreases js.len(),
{
    if js.len() == 0 {
        0
    } else {
        suma(js.drop_last()) + js.last().puntos
    }
}

proof fn lema_suma_update(js: Seq<JugadorV>, i: int, j: JugadorV)
    requires
        0 <= i < js.len(),
    ensures
        suma(js.update(i, j)) == suma(js) - js[i].puntos + j.puntos,
    decreases js.len(),
{
    let u = js.update(i, j);
    if i == js.len() - 1 {
        assert(u.drop_last() =~= js.drop_last());
    } else {
        lema_suma_update(js.drop_last(), i, j);
        assert(u.drop_last() =~= js.drop_last().update(i, j));
    }
}

/// Replacing a player changes the sum by the difference of their points.
proof fn lema_suma_poner(t: TablaV<JugadorV>, k: Seq<char>, j: JugadorV)
    requires
        t.valida(),
        t.contiene(k),
    ensures
        suma(t.poner(k, j).valores()) == suma(t.valores()) - t.valor(k).puntos + j.puntos,
{
    assert(t.claves.contains(k));
    let i = t.claves.index_of(k);
    lema_suma_update(t.valores(), i, j);
    assert(t.poner(k, j).valores() =~= t.valores().update(i, j));
}

/// Giving points to a player in the game changes who has how many, but not how many there are.
pub proof fn ley_puntos_conservados(t: TablaV<JugadorV>, de: Seq<char>, para: Seq<char>, n: int)
    requires
        t.valida(),
        t.contiene(de),
        t.contiene(para),
    ensures
        suma(transferir(t, de, para, n).valores()) == suma(t.valores()),
        de != para ==> transferir(t, de, para, n).valor(de).puntos == t.valor(de).puntos - n
            && transferir(t, de, para, n).valor(para).puntos == t.valor(para).puntos + n,
        de == para ==> transferir(t, de, para, n) == t,
        forall|k: Seq<char>| #[trigger]
            t.contiene(k) && k != de && k != para ==> transferir(t, de, para, n).valor(k)
                == t.valor(k),
{
    let p = pagado(t, de, n);
    lema_suma_poner(t, de, con_puntos(t.valor(de), -n));
    crate::tabla::lema_poner_valida(t, de, con_puntos(t.valor(de), -n));
    lema_suma_poner(p, para, con_puntos(p.valor(para), n));
    if de == para {
        assert(transferir(t, de, para, n).datos =~= t.datos);
        assert(transferir(t, de, para, n) =~= t);
    }
}

/// Points given to somebody who is not in the game are lost.
pub proof fn ley_puntos_perdidos(t: TablaV<JugadorV>, de: Seq<char>, para: Seq<char>, n: int)
    requires
        t.valida(),
        t.contiene(de),
        !t.contiene(para),
    ensures
        suma(transferir(t, de, para, n).valores()) == suma(t.valores()) - n,
{
    lema_suma_poner(t, de, con_puntos(t.valor(de), -n));
}

/// The giver never ends below zero points.
pub proof fn ley_sin_deudas(e: EstadoV, addr: Seq<char>, para: Seq<char>, n: int)
    requires
        e.addr_to_id.contiene(addr),
        impide_intercambio(e, e.addr_to_id.valor(addr), para, n) is None,
        e.addr_to_id.valor(addr) != para,
    ensures
        intercambio(e, addr, para, n).0.jugadores.valor(e.addr_to_id.valor(addr)).puntos >= 0,
{
}

/// Forming an alliance makes its members allies of each other, and leaves the members of the other
/// alliances as they were.
pub proof fn ley_alianza(e: EstadoV, alias: Seq<char>, miembros: Seq<Seq<char>>)
    ensures
        ({
            let f = alianza(e, alias, miembros).0;
            &&& forall|x: Seq<char>, y: Seq<char>|
                miembros.contains(x) && miembros.contains(y) ==> aliados(f.alianzas, x, y)
            &&& forall|k: Seq<char>|
                k != alias ==> (#[trigger] f.alianzas.contiene(k) <==> e.alianzas.contiene(k))
            &&& forall|k: Seq<char>| #[trigger]
                e.alianzas.contiene(k) && k != alias ==> f.alianzas.valor(k) == e.alianzas.valor(k)
        }),
{
    let f = alianza(e, alias, miembros).0;
    assert(f.alianzas.contiene(alias) && f.alianzas.valor(alias) == miembros);
}

/// Starting a game gives every player one place in the order of turns, and brings every monster in
/// unhurt.
pub proof fn ley_inicio(e: EstadoV, addr: Seq<char>)
    requires
        valido(e),
        impide_inicio(e) is None,
    ensures
        ({
            let f = inicio(e, addr).0;
            &&& f.orden_turnos.no_duplicates()
            &&& forall|k: Seq<char>| #[trigger] f.jugadores.contiene(k) <==> f.orden_turnos.contains(
                k,
            )
            &&& f.jugadores.contiene(f.turno_actual)
            &&& f.monstruos == bestiario()
            &&& f.jugadores == e.jugadores
        }),
{
    let f = inicio(e, addr).0;
    assert(f.orden_turnos[0] == f.turno_actual);
}

/// With a player of the order in the game, the turn passes to one who is in the game, namely the
/// first behind the one whose turn it was.
pub proof fn ley_turno_presente(e: EstadoV)
    requires
        exists|a: int| 0 <= a < e.orden_turnos.len() && presente(e, a),
    ensures
        ({
            let f = turno_siguiente(e);
            let a = saltos(e, 0);
            &&& 0 <= a < e.orden_turnos.len()
            &&& f.turno_index == puesto(e, a)
            &&& f.turno_actual == e.orden_turnos[puesto(e, a)]
            &&& e.jugadores.contiene(f.turno_actual)
            &&& forall|b: int| 0 <= b < a ==> !#[trigger] presente(e, b)
        }),
{
    lema_saltos(e, 0);
}

/// Where everybody of the order is in the game, the turn passes to the very next one.
pub proof fn ley_turno_en_orden(e: EstadoV)
    requires
        e.orden_turnos.len() > 0,
        forall|i: int|
            0 <= i < e.orden_turnos.len() ==> e.jugadores.contiene(#[trigger] e.orden_turnos[i]),
    ensures
        turno_siguiente(e).turno_index == (e.turno_index + 1) % (e.orden_turnos.len() as int),
{
    assert(0 <= puesto(e, 0) < e.orden_turnos.len());
    assert(presente(e, 0));
}

/// Two numbers have the same numeral only if they are equal.
pub proof fn ley_decimal_inyectivo(a: nat, b: nat)
    requires
        decimal(a) == decimal(b),
    ensures
        a == b,
    decreases a,
{
    assert(decimal(a).last() == digito(a % 10));
    assert(decimal(b).last() == digito(b % 10));
    lema_decimal(a);
    lema_decimal(b);
    if a >= 10 {
        lema_decimal(a / 10);
        assert(decimal(a).drop_last() =~= decimal(a / 10));
        if b >= 10 {
            assert(decimal(b).drop_last() =~= decimal(b / 10));
            ley_decimal_inyectivo(a / 10, b / 10);
        }
    } else if b >= 10 {
        lema_decimal(b / 10);
        assert(decimal(b).drop_last() =~= decimal(b / 10));
    }
}

/// A numeral is not empty and consists of digits.
proof fn lema_decimal(n: nat)
    ensures
        decimal(n).len() > 0,
        forall|i: int| 0 <= i < decimal(n).len() ==> '0' <= #[trigger] decimal(n)[i] <= '9',
    decreases n,
{
    if n >= 10 {
        lema_decimal(n / 10);
    }
}

/// The number that a text of decimal digits spells.
pub open spec fn valor_decimal(s: Seq<char>) -> int
    decreases s.len(),
{
    if s.len() == 0 {
        0
    } else {
        valor_decimal(s.drop_last()) * 10 + (s.last() as int - '0' as int)
    }
}

/// Whether a text consists of decimal digits and is not empty.
pub open spec fn de_digitos(s: Seq<char>) -> bool {
    s.len() > 0 && forall|i: int| 0 <= i < s.len() ==> '0' <= #[trigger] s[i] <= '9'
}

/// A numeral spells its number, in digits and without a zero in front.
pub proof fn ley_decimal(n: nat)
    ensures
        de_digitos(decimal(n)),
        valor_decimal(decimal(n)) == n,
        n > 0 ==> decimal(n)[0] != '0',
    decreases n,
{
    if n >= 10 {
        ley_decimal(n / 10);
        assert(decimal(n).drop_last() =~= decimal(n / 10));
        assert(decimal(n).last() == digito(n % 10));
        lema_decimal(n);
    } else {
        reveal_with_fuel(valor_decimal, 2);
        assert(decimal(n).last() == digito(n));
        assert(decimal(n).drop_last().len() == 0);
        lema_decimal(n);
    }
}

/// The numeral of a negative number is a minus sign and the numeral of its opposite; that of
/// another number spells it.
pub proof fn ley_numeral(n: int)
    ensures
        n >= 0 ==> de_digitos(numeral(n)) && valor_decimal(numeral(n)) == n,
        n < 0 ==> numeral(n)[0] == '-' && de_digitos(numeral(n).skip(1)) && valor_decimal(
            numeral(n).skip(1),
        ) == -n,
{
    if n >= 0 {
        ley_decimal(n as nat);
    } else {
        ley_decimal((-n) as nat);
        assert(numeral(n).skip(1) =~= decimal((-n) as nat));
    }
}

/// The time that an identifier is made from is counted in whole milliseconds since the Unix epoch;
/// before the epoch there is none.
pub proof fn ley_milisegundos(t: std::time::SystemTime)
    ensures
        milis_de(t) is None <==> nanos_unix(t) < 0,
        milis_de(t) matches Some(m) ==> m * 1_000_000 <= nanos_unix(t) < (m + 1) * 1_000_000,
{
}

/// The identifier of a session is the letter s and the numeral of the milliseconds at which it
/// starts. There is none while the clock is set before the Unix epoch.
pub proof fn ley_forma_id_sesion(t: std::time::SystemTime)
    ensures
        sesion_en(t) is None <==> nanos_unix(t) < 0,
        sesion_en(t) matches Some(s) ==> {
            &&& s[0] == 's'
            &&& de_digitos(s.skip(1))
            &&& valor_decimal(s.skip(1)) * 1_000_000 <= nanos_unix(t) < (valor_decimal(s.skip(1))
                + 1) * 1_000_000
        },
{
    if nanos_unix(t) >= 0 {
        let m = (nanos_unix(t) as nat) / 1_000_000;
        reveal_strlit("s");
        ley_decimal(m);
        assert(id_sesion(m).skip(1) =~= decimal(m));
        ley_milisegundos(t);
    }
}

/// The identifier of a player is the letter j, the numeral of the milliseconds at which they join,
/// an underscore and the numeral of the number that they drew. There is none while the clock is set
/// before the Unix epoch.
pub proof fn ley_forma_id_jugador(t: std::time::SystemTime, n: u16)
    ensures
        jugador_en(t, n) is None <==> nanos_unix(t) < 0,
        jugador_en(t, n) matches Some(s) ==> s[0] == 'j' && exists|p: int|
            {
                let a = s.subrange(1, p);
                let b = s.skip(p + 1);
                &&& 1 < p < s.len() - 1
                &&& #[trigger] s[p] == '_'
                &&& de_digitos(a) && de_digitos(b)
                &&& valor_decimal(a) * 1_000_000 <= nanos_unix(t) < (valor_decimal(a) + 1)
                    * 1_000_000
                &&& valor_decimal(b) == n
            },
{
    if nanos_unix(t) >= 0 {
        let m = (nanos_unix(t) as nat) / 1_000_000;
        reveal_strlit("j");
        reveal_strlit("_");
        ley_decimal(m);
        ley_decimal(n as nat);
        ley_milisegundos(t);
        let s = id_jugador(m, n as nat);
        let p = 1 + decimal(m).len() as int;
        assert(s[p] == '_');
        assert(s.subrange(1, p) =~= decimal(m));
        assert(s.skip(p + 1) =~= decimal(n as nat));
    }
}

/// Two sessions have the same identifier only if they start in the same millisecond.
pub proof fn ley_id_sesion(t: nat, u: nat)
    requires
        id_sesion(t) == id_sesion(u),
    ensures
        t == u,
{
    reveal_strlit("s");
    assert(id_sesion(t).skip(1) =~= decimal(t));
    assert(id_sesion(u).skip(1) =~= decimal(u));
    ley_decimal_inyectivo(t, u);
}

/// Two players have the same identifier only if they join in the same millisecond and draw the same
/// number.
pub proof fn ley_id_jugador(t: nat, n: nat, u: nat, m: nat)
    requires
        id_jugador(t, n) == id_jugador(u, m),
    ensures
        t == u,
        n == m,
{
    reveal_strlit("j");
    reveal_strlit("_");
    lema_decimal(t);
    lema_decimal(u);
    let x = id_jugador(t, n);
    let a = decimal(t).len() as int;
    let b = decimal(u).len() as int;
    assert(x[1 + a] == '_');
    assert(id_jugador(u, m)[1 + b] == '_');
    if a < b {
        assert(id_jugador(u, m)[1 + a] == decimal(u)[a]);
    }
    if b < a {
        assert(x[1 + b] == decimal(t)[b]);
    }
    assert(x.subrange(1, 1 + a) =~= decimal(t));
    assert(id_jugador(u, m).subrange(1, 1 + b) =~= decimal(u));
    ley_decimal_inyectivo(t, u);
    assert(x.skip(2 + a) =~= decimal(n));
    assert(id_jugador(u, m).skip(2 + b) =~= decimal(m));
    ley_decimal_inyectivo(n, m);
}

} // verus!
