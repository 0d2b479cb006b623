//! Joining, starting a game, forming alliances and starting over.

use vstd::prelude::*;
use crate::accion::{
    acciones, agregar, movimiento, nada, nombres, nombres_tabla, responder, Accion, AccionV,
};
use crate::identidad::{generar_sesion_id, sesion_en};
use crate::mensaje::{
    json_alianza_formada, json_error, json_estado, json_iniciado, json_reconectado, json_unido,
    Mensaje,
};
use crate::modelo::{
    bestiario, crear_monstruos, eliminados, inicial, jugador_valido, nuevo_jugador, operable,
    recien_llegado, valido, EstadoJuego, EstadoV, Fase, JugadorV, Miembros,
};
use crate::tabla::{lema_poner_valida, lema_quitar_valida, Tabla};
use crate::texto::textos;

verus! {

/// A state stays valid when a player is added or replaced by one that is valid too.
pub proof fn lema_poner_jugador(e: EstadoV, j: JugadorV)
    requires
        valido(e),
        jugador_valido(j, eliminados(e.monstruos)),
    ensures
        valido(EstadoV { jugadores: e.jugadores.poner(j.id, j), ..e }),
{
    lema_poner_valida(e.jugadores, j.id, j);
    let t = e.jugadores.poner(j.id, j);
    assert forall|k: Seq<char>| #[trigger] t.contiene(k) implies t.valor(k).id == k
        && jugador_valido(t.valor(k), eliminados(e.monstruos)) by {
        if k != j.id {
            assert(e.jugadores.contiene(k));
        }
    }
}

/// A state stays valid when the place of an absent player is no longer kept.
pub proof fn lema_quitar_ausente(e: EstadoV, nombre: Seq<char>)
    requires
        valido(e),
    ensures
        valido(EstadoV { desconectados: e.desconectados.quitar(nombre), ..e }),
{
    lema_quitar_valida(e.desconectados, nombre);
    let t = e.desconectados.quitar(nombre);
    assert forall|n: Seq<char>| #[trigger] t.contiene(n) implies t.valor(n).0.nombre == n
        && jugador_valido(t.valor(n).0, eliminados(e.monstruos)) by {
        assert(e.desconectados.contiene(n));
    }
    if e.desconectados.contiene(nombre) {
        assert(e.desconectados.claves.contains(nombre));
    }
}

/// The return of an absent player: what was kept is put back as it was.
pub open spec fn regreso(e: EstadoV, addr: Seq<char>, nombre: Seq<char>) -> (
    EstadoV,
    Seq<AccionV>,
) {
    let j = e.desconectados.valor(nombre).0;
    let f = EstadoV {
        desconectados: e.desconectados.quitar(nombre),
        addr_to_id: e.addr_to_id.poner(addr, j.id),
        jugadores: e.jugadores.poner(j.id, j),
        ..e
    };
    (
        f,
        seq![
            AccionV::CancelarGracia { nombre },
            AccionV::Enviar { addr, mensaje: json_estado(f) },
            AccionV::Difundir(json_reconectado(nombre)),
        ],
    )
}

/// The arrival of a new player under the identifier `id`.
pub open spec fn llegada(e: EstadoV, addr: Seq<char>, nombre: Seq<char>, id: Seq<char>) -> (
    EstadoV,
    Seq<AccionV>,
) {
    let j = recien_llegado(id, nombre);
    let f = EstadoV {
        jugadores: e.jugadores.poner(id, j),
        addr_to_id: e.addr_to_id.poner(addr, id),
        ..e
    };
    (
        f,
        seq![
            AccionV::Difundir(json_unido(j, f.jugadores.valores())),
            AccionV::RegistrarMovimiento {
                sesion_id: e.sesion_id,
                tipo: "unirse"@,
                datos: nombre,
            },
        ],
    )
}

/// The return of an absent player keeps a state valid.
pub proof fn lema_regreso_valido(e: EstadoV, addr: Seq<char>, nombre: Seq<char>)
    requires
        valido(e),
        e.desconectados.contiene(nombre),
    ensures
        valido(regreso(e, addr, nombre).0),
{
    let j = e.desconectados.valor(nombre).0;
    lema_quitar_ausente(e, nombre);
    lema_poner_valida(e.addr_to_id, addr, j.id);
    let e1 = EstadoV {
        desconectados: e.desconectados.quitar(nombre),
        addr_to_id: e.addr_to_id.poner(addr, j.id),
        ..e
    };
    assert(valido(e1));
    lema_poner_jugador(e1, j);
}

/// The arrival of a new player keeps a state valid.
pub proof fn lema_llegada_valida(e: EstadoV, addr: Seq<char>, nombre: Seq<char>, id: Seq<char>)
    requires
        valido(e),
    ensures
        valido(llegada(e, addr, nombre, id).0),
{
    lema_poner_jugador(e, recien_llegado(id, nombre));
    lema_poner_valida(e.addr_to_id, addr, id);
}

/// Brings an absent player back.
pub fn volver(state: &mut EstadoJuego, addr: &str, nombre: &str) -> (r: Vec<Accion>)
    requires
        operable(old(state)@),
        old(state)@.desconectados.contiene(nombre@),
    ensures
        operable(final(state)@),
        valido(old(state)@) ==> valido(final(state)@),
        (final(state)@, acciones(r@)) == regreso(old(state)@, addr@, nombre@),
{
    let ghost e = state@;
    let mut r = nada();
    match state.desconectados.quitar(nombre) {
        Some((jugador, _)) => {
            proof {
                if valido(e) {
                    lema_regreso_valido(e, addr@, nombre@);
                }
            }
            state.addr_to_id.poner(addr.to_string(), jugador.id.clone());
            state.jugadores.poner(jugador.id.clone(), jugador);
            assert(state@ =~= regreso(e, addr@, nombre@).0);
            agregar(&mut r, Accion::CancelarGracia { nombre: nombre.to_string() });
            agregar(
                &mut r,
                Accion::Enviar { addr: addr.to_string(), mensaje: Mensaje::estado(state) },
            );
            agregar(&mut r, Accion::Difundir(Mensaje::reconectado(nombre)));
            assert(acciones(r@) =~= regreso(e, addr@, nombre@).1);
        },
        None => {},
    }
    r
}

/// Adds a new player under the identifier `id`.
pub fn llegar(state: &mut EstadoJuego, addr: &str, nombre: &str, id: String) -> (r: Vec<Accion>)
    requires
        operable(old(state)@),
    ensures
        operable(final(state)@),
        valido(old(state)@) ==> valido(final(state)@),
        (final(state)@, acciones(r@)) == llegada(old(state)@, addr@, nombre@, id@),
{
    let ghost e = state@;
    let jugador = nuevo_jugador(id.clone(), nombre.to_string());
    proof {
        if valido(e) {
            lema_llegada_valida(e, addr@, nombre@, id@);
        }
    }
    state.jugadores.poner(id.clone(), jugador.clone());
    state.addr_to_id.poner(addr.to_string(), id);
    assert(state@ =~= llegada(e, addr@, nombre@, id@).0);
    let mut r = nada();
    agregar(&mut r, Accion::Difundir(Mensaje::unido(&jugador, &state.jugadores)));
    agregar(&mut r, movimiento(state.sesion_id.as_str(), "unirse", nombre));
    assert(acciones(r@) =~= llegada(e, addr@, nombre@, id@).1);
    r
}

/// Why a game cannot be started, if there is a reason.
pub open spec fn impide_inicio(e: EstadoV) -> Option<Seq<char>> {
    if e.jugadores.claves.len() < 2 {
        Some("Se necesitan al menos 2 jugadores"@)
    } else if e.fase != Fase::Espera {
        Some("Juego ya iniciado"@)
    } else {
        None
    }
}

/// The state of a game that was just started: all monsters, and turns in the order of joining.
pub open spec fn iniciado(e: EstadoV) -> EstadoV {
    EstadoV {
        fase: Fase::Juego,
        monstruos: bestiario(),
        orden_turnos: e.jugadores.claves,
        turno_index: 0,
        turno_actual: e.jugadores.claves[0],
        reloj: true,
        ..e
    }
}

/// The answer to a request to start the game.
pub open spec fn inicio(e: EstadoV, addr: Seq<char>) -> (EstadoV, Seq<AccionV>) {
    match impide_inicio(e) {
        Some(razon) => (e, seq![AccionV::Enviar { addr, mensaje: json_error(razon) }]),
        None => {
            let f = iniciado(e);
            (
                f,
                seq![
                    AccionV::IniciarReloj,
                    AccionV::Difundir(json_iniciado(f)),
                    AccionV::RegistrarInicio {
                        sesion_id: e.sesion_id,
                        nombres: nombres(f.jugadores.valores()),
                    },
                    AccionV::RegistrarMovimiento {
                        sesion_id: e.sesion_id,
                        tipo: "iniciar_juego"@,
                        datos: ""@,
                    },
                ],
            )
        },
    }
}

/// Starting the game keeps a state valid.
pub proof fn lema_iniciado_valido(e: EstadoV)
    requires
        valido(e),
        impide_inicio(e) is None,
    ensures
        valido(iniciado(e)),
{
    reveal_with_fuel(eliminados, 6);
    let f = iniciado(e);
    assert(!f.monstruos[0].eliminado);
    assert(eliminados(bestiario()) == 0) by {
        assert(bestiario().drop_last().drop_last().drop_last().drop_last().drop_last().len() == 0);
    }
    assert(eliminados(e.monstruos) == 0);
    assert(f.orden_turnos[0] == f.turno_actual);
    assert forall|n: Seq<char>| !(#[trigger] e.desconectados.contiene(n)) by {
        if e.desconectados.contiene(n) {
            assert(e.desconectados.claves.contains(n));
        }
    }
}

/// The keys of a table, in order.
fn claves_tabla<V: View>(t: &Tabla<V>) -> (r: Vec<String>)
    requires
        t@.valida(),
    ensures
        textos(r@) == t@.claves,
{
    let mut r: Vec<String> = Vec::new();
    let mut i: usize = 0;
    while i < t.len()
        invariant
            t@.valida(),
            i <= t@.claves.len(),
            r@.len() == i,
            forall|j: int| 0 <= j < i ==> (#[trigger] r@[j])@ == t@.claves[j],
        decreases t@.claves.len() - i,
    {
        r.push(t.clave(i).to_string());
        i = i + 1;
    }
    assert(textos(r@) =~= t@.claves);
    r
}

/// Starts the game, if nothing is against it.
pub fn iniciar_juego(state: &mut EstadoJuego, addr: &str) -> (r: Vec<Accion>)
    requires
        operable(old(state)@),
    ensures
        operable(final(state)@),
        valido(old(state)@) ==> valido(final(state)@),
        (final(state)@, acciones(r@)) == inicio(old(state)@, addr@),
{
    let ghost e = state@;
    if state.jugadores.len() < 2 {
        return responder(addr, Mensaje::error("Se necesitan al menos 2 jugadores"));
    }
    if state.fase != Fase::Espera {
        return responder(addr, Mensaje::error("Juego ya iniciado"));
    }
    proof {
        if valido(e) {
            lema_iniciado_valido(e);
        }
    }
    state.fase = Fase::Juego;
    state.monstruos = crear_monstruos();
    state.orden_turnos = claves_tabla(&state.jugadores);
    state.turno_index = 0;
    state.turno_actual = state.jugadores.clave(0).to_string();
    state.reloj = true;
    assert(state@ =~= iniciado(e));
    let mut r = nada();
    agregar(&mut r, Accion::IniciarReloj);
    agregar(&mut r, Accion::Difundir(Mensaje::iniciado(state)));
    agregar(
        &mut r,
        Accion::RegistrarInicio {
            sesion_id: state.sesion_id.clone(),
            nombres: nombres_tabla(&state.jugadores),
        },
    );
    agregar(&mut r, movimiento(state.sesion_id.as_str(), "iniciar_juego", ""));
    assert(acciones(r@) =~= inicio(e, addr@).1);
    r
}

/// The forming of an alliance, or the change of its members.
pub open spec fn alianza(e: EstadoV, alias: Seq<char>, miembros: Seq<Seq<char>>) -> (
    EstadoV,
    Seq<AccionV>,
) {
    let f = EstadoV { alianzas: e.alianzas.poner(alias, miembros), ..e };
    (
        f,
        seq![
            AccionV::Difundir(json_alianza_formada(f.alianzas)),
            AccionV::RegistrarMovimiento { sesion_id: e.sesion_id, tipo: "alianza"@, datos: ""@ },
        ],
    )
}

/// Forming an alliance keeps a state valid.
pub proof fn lema_alianza_valida(e: EstadoV, alias: Seq<char>, miembros: Seq<Seq<char>>)
    requires
        valido(e),
    ensures
        valido(alianza(e, alias, miembros).0),
{
    lema_poner_valida(e.alianzas, alias, miembros);
}

/// Forms an alliance, or changes its members.
pub fn formar_alianza(state: &mut EstadoJuego, alias: String, miembros: Vec<String>) -> (r: Vec<
    Accion,
>)
    requires
        operable(old(state)@),
    ensures
        operable(final(state)@),
        valido(old(state)@) ==> valido(final(state)@),
        (final(state)@, acciones(r@)) == alianza(old(state)@, alias@, textos(miembros@)),
{
    let ghost e = state@;
    let ghost esperado = alianza(e, alias@, textos(miembros@));
    state.alianzas.poner(alias, Miembros { lista: miembros });
    assert(state@ =~= esperado.0);
    let mut r = nada();
    agregar(&mut r, Accion::Difundir(Mensaje::alianza_formada(&state.alianzas)));
    agregar(&mut r, movimiento(state.sesion_id.as_str(), "alianza", ""));
    assert(acciones(r@) =~= esperado.1);
    r
}

/// Starting over under the session `sesion_id`.
pub open spec fn recomienzo(sesion_id: Seq<char>) -> (EstadoV, Seq<AccionV>) {
    (inicial(sesion_id), seq![AccionV::CancelarGracias, AccionV::DetenerReloj])
}

/// Starting over leaves nobody and nothing of the game behind but the new session; every countdown
/// and the timer are stopped.
pub proof fn ley_recomienzo(sesion_id: Seq<char>)
    ensures
        ({
            let (e, l) = recomienzo(sesion_id);
            &&& e.sesion_id == sesion_id
            &&& e.fase == Fase::Espera
            &&& !e.reloj
            &&& e.jugadores.claves.len() == 0 && e.jugadores.valida()
            &&& e.addr_to_id.claves.len() == 0 && e.addr_to_id.valida()
            &&& e.alianzas.claves.len() == 0 && e.alianzas.valida()
            &&& e.desconectados.claves.len() == 0 && e.desconectados.valida()
            &&& e.monstruos.len() == 0
            &&& e.orden_turnos.len() == 0 && e.turno_actual.len() == 0 && e.turno_index == 0
            &&& l == seq![AccionV::CancelarGracias, AccionV::DetenerReloj]
        }),
{
}

/// Starts over under the session `sesion_id`: nobody is left and nothing runs.
pub fn recomenzar(state: &mut EstadoJuego, sesion_id: String) -> (r: Vec<Accion>)
    ensures
        (final(state)@, acciones(r@)) == recomienzo(sesion_id@),
        final(state)@ == inicial(sesion_id@),
        valido(final(state)@),
        acciones(r@) == seq![AccionV::CancelarGracias, AccionV::DetenerReloj],
{
    *state = EstadoJuego::nuevo(sesion_id);
    let mut r = nada();
    agregar(&mut r, Accion::CancelarGracias);
    agregar(&mut r, Accion::DetenerReloj);
    assert(acciones(r@) =~= seq![AccionV::CancelarGracias, AccionV::DetenerReloj]);
    r
}

/// Starts over under a fresh session, that is, one that starts when the clock reads some time `t`.
/// `None` where that is before the Unix epoch, and only there; then nothing changes.
pub fn reset_juego(state: &mut EstadoJuego) -> (r: Option<Vec<Accion>>)
    ensures
        exists|t: std::time::SystemTime|
            match r {
                Some(l) => {
                    &&& #[trigger] sesion_en(t) is Some
                    &&& final(state)@ == inicial(sesion_en(t)->0)
                    &&& valido(final(state)@)
                    &&& (final(state)@, acciones(l@)) == recomienzo(sesion_en(t)->0)
                    &&& acciones(l@) == seq![AccionV::CancelarGracias, AccionV::DetenerReloj]
                },
                None => sesion_en(t) is None && *final(state) == *old(state),
            },
{
    match generar_sesion_id() {
        Some(s) => Some(recomenzar(state, s)),
        None => None,
    }
}

} // verus!
