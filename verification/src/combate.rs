//! Attacking monsters.

use vstd::prelude::*;
use crate::accion::{
    acciones, agregar, movimiento, nada, responder, resumir, resumir_tabla, Accion, AccionV,
};
use crate::intercambio::cabe;
use crate::mensaje::{
    json_ataque, json_eliminado, json_error, json_estado, json_fin, Mensaje,
};
use crate::modelo::{
    bestiario, bestias, dano_base, dano_base_arma, eliminados, en_marcha, jugador_valido,
    monstruo_valido, monstruos_validos, operable, todos_eliminados, valido, EstadoJuego, EstadoV,
    Fase, Jugador, JugadorV, Monstruo, MonstruoV,
};
use crate::tabla::Tabla;
use crate::texto::{contiene, igual};
use crate::turnos::{lema_turno_valido, siguiente_turno, turno_siguiente};

verus! {

/// The larger of two numbers.
pub open spec fn mayor(a: int, b: int) -> int {
    if a >= b {
        a
    } else {
        b
    }
}

/// The damage of a hit for which chance made `redondeado` of the damage of the weapon: at least
/// one.
pub fn calcular_dano(redondeado: i32) -> (r: i32)
    ensures
        r == mayor(redondeado as int, 1),
{
    if redondeado >= 1 {
        redondeado
    } else {
        1
    }
}

/// What an attack is made with: who attacks, and the damage of the weapon before chance comes in.
/// Or why there can be no attack.
pub open spec fn preparar(e: EstadoV, addr: Seq<char>, arma: Seq<char>) -> Result<
    (Seq<char>, i32),
    Seq<char>,
> {
    if e.fase != Fase::Juego {
        Err("Juego no activo"@)
    } else if !e.addr_to_id.contiene(addr) {
        Err("No estás en el juego"@)
    } else {
        let id = e.addr_to_id.valor(addr);
        if e.turno_actual != id {
            Err("No es tu turno"@)
        } else if !(e.jugadores.contiene(id) && e.jugadores.valor(id).armas.contains(arma)) {
            Err("No tienes esa arma"@)
        } else {
            match dano_base(arma) {
                Some(d) => Ok((id, d)),
                None => Err("Arma inválida"@),
            }
        }
    }
}

/// Finds who attacks and how strong the weapon is, or why there can be no attack.
pub fn preparar_ataque(state: &EstadoJuego, addr: &str, arma: &str) -> (r: Result<
    (String, i32),
    &'static str,
>)
    requires
        state@.addr_to_id.valida(),
        state@.jugadores.valida(),
    ensures
        match r {
            Ok((id, d)) => preparar(state@, addr@, arma@) == Ok::<(Seq<char>, i32), Seq<char>>(
                (id@, d),
            ),
            Err(m) => preparar(state@, addr@, arma@) == Err::<(Seq<char>, i32), Seq<char>>(m@),
        },
{
    if state.fase != Fase::Juego {
        return Err("Juego no activo");
    }
    let id = match state.addr_to_id.buscar(addr) {
        Some(id) => id.clone(),
        None => {
            return Err("No estás en el juego");
        },
    };
    if !igual(state.turno_actual.as_str(), id.as_str()) {
        return Err("No es tu turno");
    }
    let tiene_arma = match state.jugadores.buscar(id.as_str()) {
        Some(j) => contiene(&j.armas, arma),
        None => false,
    };
    if !tiene_arma {
        return Err("No tienes esa arma");
    }
    match dano_base_arma(arma) {
        Some(d) => Ok((id, d)),
        None => Err("Arma inválida"),
    }
}

/// The position of the first monster with the identifier `id`, from position `i` on.
pub open spec fn indice(ms: Seq<MonstruoV>, id: Seq<char>, i: int) -> Option<int>
    decreases ms.len() - i,
{
    if i >= ms.len() {
        None
    } else if ms[i].id == id {
        Some(i)
    } else {
        indice(ms, id, i + 1)
    }
}

/// The position of the first monster with the identifier `id`.
fn buscar_monstruo(ms: &Vec<Monstruo>, id: &str) -> (r: Option<usize>)
    ensures
        match r {
            Some(i) => i < ms@.len() && indice(bestias(ms@), id@, 0) == Some(i as int),
            None => indice(bestias(ms@), id@, 0) is None,
        },
{
    let mut i: usize = 0;
    while i < ms.len()
        invariant
            i <= ms.len(),
            indice(bestias(ms@), id@, 0) == indice(bestias(ms@), id@, i as int),
        decreases ms.len() - i,
    {
        assert(bestias(ms@)[i as int] == ms@[i as int]@);
        if igual(ms[i].id.as_str(), id) {
            return Some(i);
        }
        i = i + 1;
    }
    None
}

/// A monster after a hit: it loses health, but never more than it has, and is gone when none is
/// left.
pub open spec fn golpear(m: MonstruoV, dano: int) -> MonstruoV {
    let hp = mayor(m.hp_actual - dano, 0);
    MonstruoV { hp_actual: hp, eliminado: m.eliminado || hp == 0, ..m }
}

/// A fifth of a number, without what is left over.
pub open spec fn quinto(n: int) -> int {
    if n >= 0 {
        n / 5
    } else {
        -((-n) / 5)
    }
}

/// Computes a fifth of a number.
fn quinta_parte(n: i32) -> (r: i32)
    ensures
        r == quinto(n as int),
{
    let m: i64 = n as i64;
    if m >= 0 {
        (m / 5) as i32
    } else {
        (0 - (0 - m) / 5) as i32
    }
}

/// A player after removing a monster with `hp_max` health: a fifth of it in points, and two health
/// points.
pub open spec fn premiar(j: JugadorV, hp_max: int) -> JugadorV {
    JugadorV { puntos: j.puntos + quinto(hp_max), hp: j.hp + 2, ..j }
}

/// The state after player `id` hit the monster at position `i`. The turn passes on; when no monster
/// is left the game is over and the timer stops.
pub open spec fn tras_golpe(e: EstadoV, id: Seq<char>, i: int, dano: int) -> EstadoV {
    let m = golpear(e.monstruos[i], dano);
    let golpeado = EstadoV {
        monstruos: e.monstruos.update(i, m),
        jugadores: if m.eliminado {
            e.jugadores.poner(id, premiar(e.jugadores.valor(id), m.hp_max))
        } else {
            e.jugadores
        },
        ..e
    };
    let f = turno_siguiente(golpeado);
    if todos_eliminados(golpeado.monstruos) {
        EstadoV { fase: Fase::Fin, reloj: false, ..f }
    } else {
        f
    }
}

/// The player with the most points; of several, the one listed last.
pub open spec fn mejor(js: Seq<JugadorV>) -> Option<JugadorV>
    decreases js.len(),
{
    if js.len() == 0 {
        None
    } else {
        match mejor(js.drop_last()) {
            Some(j) => if j.puntos > js.last().puntos {
                Some(j)
            } else {
                Some(js.last())
            },
            None => Some(js.last()),
        }
    }
}

/// The name of the winner; empty where nobody is left.
pub open spec fn ganador(js: Seq<JugadorV>) -> Seq<char> {
    match mejor(js) {
        Some(j) => j.nombre,
        None => seq![],
    }
}

/// The name of the winner.
fn nombre_ganador(t: &Tabla<Jugador>) -> (r: String)
    requires
        t@.valida(),
    ensures
        r@ == ganador(t@.valores()),
{
    if t.len() == 0 {
        return String::new();
    }
    let mut g: usize = 0;
    let mut i: usize = 1;
    proof {
        let uno = t@.valores().take(1);
        reveal_with_fuel(mejor, 2);
        assert(uno.last() == t@.valores()[0]);
        assert(uno.drop_last().len() == 0);
    }
    while i < t.len()
        invariant
            t@.valida(),
            1 <= i <= t@.claves.len(),
            g < i,
            mejor(t@.valores().take(i as int)) == Some(t@.valores()[g as int]),
        decreases t@.claves.len() - i,
    {
        proof {
            let s = t@.valores().take(i + 1);
            assert(s.drop_last() =~= t@.valores().take(i as int));
            assert(s.last() == t@.valores()[i as int]);
        }
        if !(t.valor_en(g).puntos > t.valor_en(i).puntos) {
            g = i;
        }
        i = i + 1;
    }
    assert(t@.valores().take(i as int) =~= t@.valores());
    t.valor_en(g).nombre.clone()
}

/// What is to be done about a hit: `e` is the state before it and `f` the one after it.
pub open spec fn avisos(
    e: EstadoV,
    f: EstadoV,
    id: Seq<char>,
    i: int,
    monstruo_id: Seq<char>,
    arma: Seq<char>,
    dano: int,
    base: int,
    critico: bool,
) -> Seq<AccionV> {
    let m = f.monstruos[i];
    let atacante = e.jugadores.valor(id).nombre;
    let js = f.jugadores.valores();
    let fin = todos_eliminados(f.monstruos);
    let reinicio = if e.reloj {
        seq![AccionV::ReiniciarReloj]
    } else {
        seq![]
    };
    let parada = if fin {
        seq![AccionV::DetenerReloj]
    } else {
        seq![]
    };
    let golpe = seq![
        AccionV::Difundir(
            json_ataque(m.nombre, atacante, arma, dano, base, critico, m.hp_actual),
        ),
    ];
    let baja = if m.eliminado {
        seq![AccionV::Difundir(json_eliminado(m.nombre, atacante, quinto(m.hp_max)))]
    } else {
        seq![]
    };
    let resultado = if fin {
        seq![
            AccionV::Difundir(json_fin(ganador(js), js)),
            AccionV::RegistrarFin {
                sesion_id: e.sesion_id,
                ganador: ganador(js),
                jugadores: resumir(js),
            },
        ]
    } else {
        seq![AccionV::Difundir(json_estado(f))]
    };
    let registro = seq![
        AccionV::RegistrarMovimiento {
            sesion_id: e.sesion_id,
            tipo: "atacar"@,
            datos: monstruo_id + " con "@ + arma,
        },
    ];
    reinicio + parada + golpe + baja + resultado + registro
}

/// Whom an attack hits: the attacker, the base damage and the position of the monster. Or why it
/// hits nobody.
pub open spec fn blanco(
    e: EstadoV,
    addr: Seq<char>,
    monstruo_id: Seq<char>,
    arma: Seq<char>,
) -> Result<(Seq<char>, i32, int), Seq<char>> {
    match preparar(e, addr, arma) {
        Err(razon) => Err(razon),
        Ok((id, base)) => match indice(e.monstruos, monstruo_id, 0) {
            None => Err("Monstruo no encontrado"@),
            Some(i) => if e.monstruos[i].eliminado {
                Err("Monstruo ya eliminado"@)
            } else {
                Ok((id, base, i))
            },
        },
    }
}

/// The answer to an attack that does `dano`.
pub open spec fn ataque(
    e: EstadoV,
    addr: Seq<char>,
    monstruo_id: Seq<char>,
    arma: Seq<char>,
    dano: int,
    critico: bool,
) -> (EstadoV, Seq<AccionV>) {
    match blanco(e, addr, monstruo_id, arma) {
        Err(razon) => (e, seq![AccionV::Enviar { addr, mensaje: json_error(razon) }]),
        Ok((id, base, i)) => {
            let f = tras_golpe(e, id, i, dano);
            (f, avisos(e, f, id, i, monstruo_id, arma, dano, base as int, critico))
        },
    }
}

/// Whether the health of the monster, and the points and the health of the attacker, stay within 32
/// bits.
pub open spec fn ataque_cabe(
    e: EstadoV,
    addr: Seq<char>,
    monstruo_id: Seq<char>,
    arma: Seq<char>,
    dano: int,
) -> bool {
    match blanco(e, addr, monstruo_id, arma) {
        Err(_) => true,
        Ok((id, _, i)) => {
            let m = golpear(e.monstruos[i], dano);
            let j = premiar(e.jugadores.valor(id), m.hp_max);
            &&& cabe(e.monstruos[i].hp_actual - dano)
            &&& m.eliminado ==> cabe(j.puntos) && cabe(j.hp)
        },
    }
}

/// Replacing one monster changes the count of those that are gone by what that monster counts.
proof fn lema_eliminados_update(ms: Seq<MonstruoV>, i: int, m: MonstruoV)
    requires
        0 <= i < ms.len(),
    ensures
        eliminados(ms.update(i, m)) == eliminados(ms) - (if ms[i].eliminado {
            1int
        } else {
            0int
        }) + (if m.eliminado {
            1int
        } else {
            0int
        }),
    decreases ms.len(),
{
    let u = ms.update(i, m);
    if i == ms.len() - 1 {
        assert(u.drop_last() =~= ms.drop_last());
    } else {
        lema_eliminados_update(ms.drop_last(), i, m);
        assert(u.drop_last() =~= ms.drop_last().update(i, m));
    }
}

/// No more monsters are gone than there are.
pub proof fn lema_eliminados_cota(ms: Seq<MonstruoV>)
    ensures
        eliminados(ms) <= ms.len(),
    decreases ms.len(),
{
    if ms.len() > 0 {
        lema_eliminados_cota(ms.drop_last());
    }
}

/// The position that is found holds a monster with the identifier, and no earlier one does.
pub proof fn lema_indice(ms: Seq<MonstruoV>, id: Seq<char>, i: int)
    requires
        0 <= i <= ms.len(),
    ensures
        match indice(ms, id, i) {
            Some(p) => i <= p < ms.len() && ms[p].id == id && forall|j: int|
                i <= j < p ==> (#[trigger] ms[j]).id != id,
            None => forall|j: int| i <= j < ms.len() ==> (#[trigger] ms[j]).id != id,
        },
    decreases ms.len() - i,
{
    if i < ms.len() && ms[i].id != id {
        lema_indice(ms, id, i + 1);
    }
}

/// A hit keeps a state valid.
proof fn lema_golpe_valido(e: EstadoV, id: Seq<char>, i: int, dano: int)
    requires
        valido(e),
        e.fase == Fase::Juego,
        e.jugadores.contiene(id),
        0 <= i < e.monstruos.len(),
        !e.monstruos[i].eliminado,
        dano >= 1,
    ensures
        valido(tras_golpe(e, id, i, dano)),
        e.jugadores.valor(id).hp <= 18,
{
    let m = golpear(e.monstruos[i], dano);
    let ms = e.monstruos.update(i, m);
    lema_eliminados_update(e.monstruos, i, m);
    lema_eliminados_cota(ms);
    assert(e.monstruos.len() == 5);
    assert(monstruo_valido(m, bestiario()[i]));
    assert(monstruos_validos(ms)) by {
        assert forall|p: int| 0 <= p < ms.len() implies monstruo_valido(
            #[trigger] ms[p],
            bestiario()[p],
        ) by {
            if p != i {
                assert(ms[p] == e.monstruos[p]);
            }
        }
    }
    let js = if m.eliminado {
        e.jugadores.poner(id, premiar(e.jugadores.valor(id), m.hp_max))
    } else {
        e.jugadores
    };
    let golpeado = EstadoV { monstruos: ms, jugadores: js, ..e };
    let fase = if todos_eliminados(ms) {
        Fase::Fin
    } else {
        Fase::Juego
    };
    let g = EstadoV { fase, reloj: !todos_eliminados(ms), ..golpeado };
    // The count of removed monsters is at most four before the hit, since one is left.
    lema_eliminados_update(e.monstruos, i, MonstruoV { eliminado: true, ..e.monstruos[i] });
    lema_eliminados_cota(
        e.monstruos.update(i, MonstruoV { eliminado: true, ..e.monstruos[i] }),
    );
    assert(valido(g)) by {
        if m.eliminado {
            crate::tabla::lema_poner_valida(
                e.jugadores,
                id,
                premiar(e.jugadores.valor(id), m.hp_max),
            );
        }
        assert forall|k: Seq<char>| #[trigger] g.jugadores.contiene(k) implies g.jugadores.valor(
            k,
        ).id == k && jugador_valido(g.jugadores.valor(k), eliminados(ms)) by {
            assert(e.jugadores.contiene(k));
        }
        assert forall|n: Seq<char>| #[trigger] g.desconectados.contiene(n) implies
            g.desconectados.valor(n).0.nombre == n && jugador_valido(
            g.desconectados.valor(n).0,
            eliminados(ms),
        ) by {
            assert(e.desconectados.contiene(n));
        }
        assert(en_marcha(g));
    }
    lema_turno_valido(g);
    assert(turno_siguiente(g) == tras_golpe(e, id, i, dano)) by {
        lema_turno_ajeno(golpeado, g);
    }
}

/// An attack keeps a state valid.
pub proof fn lema_ataque_valido(
    e: EstadoV,
    addr: Seq<char>,
    monstruo_id: Seq<char>,
    arma: Seq<char>,
    dano: int,
    critico: bool,
)
    requires
        valido(e),
        dano >= 1,
    ensures
        valido(ataque(e, addr, monstruo_id, arma, dano, critico).0),
{
    match blanco(e, addr, monstruo_id, arma) {
        Ok((id, _, i)) => {
            lema_indice(e.monstruos, monstruo_id, 0);
            lema_golpe_valido(e, id, i, dano);
        },
        Err(_) => {},
    }
}

/// Whose turn comes next depends on the order, the position and the players alone.
proof fn lema_turno_ajeno(e: EstadoV, f: EstadoV)
    requires
        f == (EstadoV { fase: f.fase, reloj: f.reloj, ..e }),
    ensures
        turno_siguiente(f) == (EstadoV { fase: f.fase, reloj: f.reloj, ..turno_siguiente(e) }),
{
    if e.orden_turnos.len() > 0 {
        lema_saltos_ajenos(e, f, 0);
    }
}

proof fn lema_saltos_ajenos(e: EstadoV, f: EstadoV, a: int)
    requires
        f == (EstadoV { fase: f.fase, reloj: f.reloj, ..e }),
        0 <= a <= e.orden_turnos.len(),
    ensures
        crate::turnos::saltos(f, a) == crate::turnos::saltos(e, a),
    decreases e.orden_turnos.len() - a,
{
    if a < e.orden_turnos.len() {
        lema_saltos_ajenos(e, f, a + 1);
    }
}

/// Whether every monster of the list is gone.
fn todos_fuera(ms: &Vec<Monstruo>) -> (r: bool)
    ensures
        r == todos_eliminados(bestias(ms@)),
{
    let mut i: usize = 0;
    while i < ms.len()
        invariant
            i <= ms.len(),
            forall|j: int| 0 <= j < i ==> (#[trigger] bestias(ms@)[j]).eliminado,
        decreases ms.len() - i,
    {
        assert(bestias(ms@)[i as int].eliminado == ms@[i as int].eliminado);
        if !ms[i].eliminado {
            return false;
        }
        i = i + 1;
    }
    true
}

/// Whether the health of the monster, and the points and the health of the attacker, would stay
/// within 32 bits.
pub fn cabe_ataque(
    state: &EstadoJuego,
    addr: &str,
    monstruo_id: &str,
    arma: &str,
    dano: i32,
) -> (r: bool)
    requires
        operable(state@),
        dano >= 1,
    ensures
        r == ataque_cabe(state@, addr@, monstruo_id@, arma@, dano as int),
{
    match preparar_ataque(state, addr, arma) {
        Err(_) => true,
        Ok((id, _)) => match buscar_monstruo(&state.monstruos, monstruo_id) {
            None => true,
            Some(i) => {
                assert(state@.monstruos[i as int] == state.monstruos@[i as int]@);
                let m = &state.monstruos[i];
                if m.eliminado {
                    return true;
                }
                if (m.hp_actual as i64) - (dano as i64) < i32::MIN as i64 {
                    return false;
                }
                if m.hp_actual > dano {
                    return true;
                }
                match state.jugadores.buscar(id.as_str()) {
                    Some(j) => {
                        let puntos: i64 = j.puntos as i64 + quinta_parte(m.hp_max) as i64;
                        i32::MIN as i64 <= puntos && puntos <= i32::MAX as i64 && j.hp <= i32::MAX
                            - 2
                    },
                    None => true,
                }
            },
        },
    }
}

/// Carries out an attack that does `dano`.
pub fn atacar(
    state: &mut EstadoJuego,
    addr: &str,
    monstruo_id: &str,
    arma: &str,
    dano: i32,
    critico: bool,
) -> (r: Vec<Accion>)
    requires
        operable(old(state)@),
        dano >= 1,
        ataque_cabe(old(state)@, addr@, monstruo_id@, arma@, dano as int),
    ensures
        operable(final(state)@),
        valido(old(state)@) ==> valido(final(state)@),
        (final(state)@, acciones(r@)) == ataque(
            old(state)@,
            addr@,
            monstruo_id@,
            arma@,
            dano as int,
            critico,
        ),
{
    let ghost e = state@;
    let (id, base) = match preparar_ataque(state, addr, arma) {
        Ok(p) => p,
        Err(razon) => {
            return responder(addr, Mensaje::error(razon));
        },
    };
    let i: usize = match buscar_monstruo(&state.monstruos, monstruo_id) {
        Some(i) => i,
        None => {
            return responder(addr, Mensaje::error("Monstruo no encontrado"));
        },
    };
    assert(e.monstruos[i as int] == state.monstruos@[i as int]@);
    if state.monstruos[i].eliminado {
        return responder(addr, Mensaje::error("Monstruo ya eliminado"));
    }
    proof {
        if valido(e) {
            lema_golpe_valido(e, id@, i as int, dano as int);
        }
    }
    let hp_actual: i32 = state.monstruos[i].hp_actual;
    let hp_max: i32 = state.monstruos[i].hp_max;
    let nombre = state.monstruos[i].nombre.clone();
    let resto: i32 = if hp_actual > dano {
        hp_actual - dano
    } else {
        0
    };
    let eliminado = resto == 0;
    let golpeado = Monstruo {
        id: state.monstruos[i].id.clone(),
        nombre: nombre.clone(),
        emoji: state.monstruos[i].emoji.clone(),
        hp_max,
        hp_actual: resto,
        eliminado,
    };
    let ghost m = golpear(e.monstruos[i as int], dano as int);
    assert(golpeado@ == m);
    state.monstruos.set(i, golpeado);
    assert(bestias(state.monstruos@) =~= e.monstruos.update(i as int, m));
    let mut jugador = match state.jugadores.buscar(id.as_str()) {
        Some(j) => j.clone(),
        None => {
            return nada();
        },
    };
    let atacante = jugador.nombre.clone();
    let puntos: i32 = quinta_parte(hp_max);
    if eliminado {
        jugador.puntos = jugador.puntos + puntos;
        jugador.hp = jugador.hp + 2;
        assert(jugador@ == premiar(e.jugadores.valor(id@), m.hp_max));
        state.jugadores.poner(id.clone(), jugador);
    }
    let fin = todos_fuera(&state.monstruos);
    let mut r = nada();
    if state.reloj {
        agregar(&mut r, Accion::ReiniciarReloj);
    }
    siguiente_turno(state);
    if fin {
        state.fase = Fase::Fin;
        state.reloj = false;
        agregar(&mut r, Accion::DetenerReloj);
    }
    let ghost f = tras_golpe(e, id@, i as int, dano as int);
    assert(state@ =~= f);
    agregar(
        &mut r,
        Accion::Difundir(
            Mensaje::ataque(
                nombre.as_str(),
                atacante.as_str(),
                arma,
                dano,
                base,
                critico,
                resto,
            ),
        ),
    );
    if eliminado {
        agregar(
            &mut r,
            Accion::Difundir(Mensaje::eliminado(nombre.as_str(), atacante.as_str(), puntos)),
        );
    }
    if fin {
        let g = nombre_ganador(&state.jugadores);
        agregar(&mut r, Accion::Difundir(Mensaje::fin(g.as_str(), &state.jugadores)));
        agregar(
            &mut r,
            Accion::RegistrarFin {
                sesion_id: state.sesion_id.clone(),
                ganador: g,
                jugadores: resumir_tabla(&state.jugadores),
            },
        );
    } else {
        agregar(&mut r, Accion::Difundir(Mensaje::estado(state)));
    }
    let mut datos = monstruo_id.to_string();
    datos.append(" con ");
    datos.append(arma);
    agregar(&mut r, movimiento(state.sesion_id.as_str(), "atacar", datos.as_str()));
    assert(acciones(r@) =~= avisos(
        e,
        f,
        id@,
        i as int,
        monstruo_id@,
        arma@,
        dano as int,
        base as int,
        critico,
    ));
    r
}

} // verus!
