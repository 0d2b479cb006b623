//! Laws of the rules: what each request does to a game, and what it asks for.

use vstd::prelude::*;
use crate::accion::{AccionV, ResumenV};
use crate::combate::{ataque, ataque_cabe, blanco, ganador, golpear, lema_indice, mayor, mejor};
use crate::identidad::{jugador_en, nanos_unix};
use crate::json::Json;
use crate::leyes::{ley_forma_id_jugador, ley_ganador};
use crate::mensaje::{
    json_alianza_formada, json_ataque, json_eliminado, json_error, json_estado, json_fin,
    json_iniciado, json_intercambio, json_rechazo, json_reconectado, json_unido,
};
use crate::modelo::{bestiario, ley_armas, EstadoV, Fase, JugadorV, MonstruoV};
use crate::peticion::PeticionV;
use crate::servidor::{atendida, PasoV};
use crate::tabla::TablaV;
use crate::texto::numeral;
use crate::turnos::{ley_siguiente, pasos, presente, puesto, saltos, turno_siguiente};

verus! {

/// The step that sends a message to `addr` and does nothing else.
pub open spec fn solo_a(addr: Seq<char>, mensaje: Json) -> PasoV {
    PasoV::Acciones(seq![AccionV::Enviar { addr, mensaje }])
}

/// Whether two tables agree on every key but `k`.
pub open spec fn salvo<V>(t: TablaV<V>, u: TablaV<V>, k: Seq<char>) -> bool {
    forall|x: Seq<char>|
        x != k ==> {
            &&& (#[trigger] u.datos.contains_key(x) <==> t.datos.contains_key(x))
            &&& t.datos.contains_key(x) ==> u.datos[x] == t.datos[x]
        }
}

/// Starting a game. It takes two players and a game that waits; otherwise nothing changes and the
/// one who asked is told why. In a game that starts, every player has one place in the order of
/// turns, in the order of joining, the first of them has the turn, and the second has the next one.
/// All monsters are there. The players, their addresses, alliances and absences stay.
pub proof fn ley_iniciar(e: EstadoV, addr: Seq<char>, f: EstadoV, paso: PasoV)
    requires
        e.jugadores.valida(),
        atendida(e, addr, PeticionV::IniciarJuego, f, paso),
    ensures
        e.jugadores.claves.len() < 2 ==> f == e && paso == solo_a(
            addr,
            json_error("Se necesitan al menos 2 jugadores"@),
        ),
        e.jugadores.claves.len() >= 2 && e.fase != Fase::Espera ==> f == e && paso == solo_a(
            addr,
            json_error("Juego ya iniciado"@),
        ),
        e.jugadores.claves.len() >= 2 && e.fase == Fase::Espera ==> {
            &&& f.fase == Fase::Juego
            &&& f.reloj
            &&& f.orden_turnos == e.jugadores.claves
            &&& f.orden_turnos.no_duplicates()
            &&& forall|k: Seq<char>|
                #![trigger f.orden_turnos.contains(k)]
                f.orden_turnos.contains(k) <==> f.jugadores.datos.contains_key(k)
            &&& f.turno_index == 0
            &&& f.turno_actual == f.orden_turnos[f.turno_index]
            &&& turno_siguiente(f).turno_actual == f.orden_turnos[1]
            &&& turno_siguiente(f).turno_index == 1
            &&& f.monstruos == bestiario()
            &&& f.jugadores == e.jugadores
            &&& f.addr_to_id == e.addr_to_id
            &&& f.alianzas == e.alianzas
            &&& f.desconectados == e.desconectados
            &&& f.sesion_id == e.sesion_id
        },
{
    if e.jugadores.claves.len() >= 2 && e.fase == Fase::Espera {
        let n = f.orden_turnos.len() as int;
        ley_siguiente(f);
        assert(f.orden_turnos.contains(f.orden_turnos[1]));
        assert(f.orden_turnos.contains(f.orden_turnos[0]));
        vstd::arithmetic::div_mod::lemma_small_mod(0, n as nat);
        assert(pasos(0, 1, n) == 1);
        let i = turno_siguiente(f).turno_index;
        assert(f.jugadores.datos.contains_key(f.orden_turnos[1]));
        assert(pasos(0, i, n) == 1);
        crate::turnos::ley_pasos_distintos(0, i, 1, n);
    }
}

/// What is to be done when a game starts: the timer is started, everybody is told, and the start
/// is recorded with the names of the players, one by one.
pub proof fn ley_iniciar_avisos(e: EstadoV, addr: Seq<char>, f: EstadoV, paso: PasoV)
    requires
        e.jugadores.claves.len() >= 2,
        e.fase == Fase::Espera,
        atendida(e, addr, PeticionV::IniciarJuego, f, paso),
    ensures
        paso is Acciones,
        ({
            let l = paso->Acciones_0;
            &&& l.len() == 4
            &&& l[0] == AccionV::IniciarReloj
            &&& l[1] == AccionV::Difundir(json_iniciado(f))
            &&& l[2] matches AccionV::RegistrarInicio { sesion_id, nombres } && sesion_id
                == e.sesion_id && nombres.len() == e.jugadores.claves.len() && forall|i: int|
                0 <= i < nombres.len() ==> #[trigger] nombres[i]
                    == e.jugadores.datos[e.jugadores.claves[i]].nombre
            &&& l[3] == (AccionV::RegistrarMovimiento {
                sesion_id: e.sesion_id,
                tipo: "iniciar_juego"@,
                datos: ""@,
            })
        }),
{
}

/// Forming an alliance: it has exactly these members afterwards, whoever it had before, and every
/// other alliance has the members that it had. Nothing else changes; everybody is told and the move
/// is recorded.
pub proof fn ley_formar(
    e: EstadoV,
    addr: Seq<char>,
    alias: Seq<char>,
    miembros: Seq<Seq<char>>,
    f: EstadoV,
    paso: PasoV,
)
    requires
        atendida(e, addr, PeticionV::Alianza { alias, miembros }, f, paso),
    ensures
        f.alianzas.datos.contains_key(alias) && f.alianzas.datos[alias] == miembros,
        salvo(e.alianzas, f.alianzas, alias),
        e.alianzas.datos.contains_key(alias) ==> f.alianzas.claves == e.alianzas.claves,
        !e.alianzas.datos.contains_key(alias) ==> f.alianzas.claves == e.alianzas.claves.push(
            alias,
        ),
        f == (EstadoV { alianzas: f.alianzas, ..e }),
        paso == PasoV::Acciones(
            seq![
                AccionV::Difundir(json_alianza_formada(f.alianzas)),
                AccionV::RegistrarMovimiento {
                    sesion_id: e.sesion_id,
                    tipo: "alianza"@,
                    datos: ""@,
                },
            ],
        ),
{
}

/// Whether some alliance lists both players among its members.
pub open spec fn comparten(e: EstadoV, x: Seq<char>, y: Seq<char>) -> bool {
    exists|k: Seq<char>| #[trigger]
        e.alianzas.datos.contains_key(k) && e.alianzas.datos[k].contains(x)
            && e.alianzas.datos[k].contains(y)
}

/// A request to give points from an address that stands for nobody changes nothing and gets no
/// answer.
pub proof fn ley_dar_sin_jugador(
    e: EstadoV,
    addr: Seq<char>,
    para: Seq<char>,
    cantidad: i32,
    f: EstadoV,
    paso: PasoV,
)
    requires
        !e.addr_to_id.datos.contains_key(addr),
        atendida(e, addr, PeticionV::Intercambiar { para, cantidad }, f, paso),
    ensures
        f == e,
        paso == PasoV::Acciones(seq![]),
{
}

/// Points go to allies only: where no alliance lists both the giver and the receiver, nothing
/// changes, whoever the receiver is, and the one who asked, and nobody else, is told that they are
/// no allies.
pub proof fn ley_dar_solo_a_aliados(
    e: EstadoV,
    addr: Seq<char>,
    para: Seq<char>,
    cantidad: i32,
    f: EstadoV,
    paso: PasoV,
)
    requires
        e.addr_to_id.datos.contains_key(addr),
        forall|k: Seq<char>| #[trigger]
            e.alianzas.datos.contains_key(k) ==> !(e.alianzas.datos[k].contains(
                e.addr_to_id.datos[addr],
            ) && e.alianzas.datos[k].contains(para)),
        atendida(e, addr, PeticionV::Intercambiar { para, cantidad }, f, paso),
    ensures
        f == e,
        paso == solo_a(addr, json_rechazo("No son aliados"@)),
{
}

/// Nobody gives more than they have: where an ally is to get more than the giver has, or the giver
/// is out of the game, nothing changes and the one who asked is told that the points do not
/// suffice.
pub proof fn ley_dar_solo_lo_que_hay(
    e: EstadoV,
    addr: Seq<char>,
    para: Seq<char>,
    cantidad: i32,
    f: EstadoV,
    paso: PasoV,
)
    requires
        e.addr_to_id.datos.contains_key(addr),
        comparten(e, e.addr_to_id.datos[addr], para),
        !e.jugadores.datos.contains_key(e.addr_to_id.datos[addr])
            || e.jugadores.datos[e.addr_to_id.datos[addr]].puntos < cantidad,
        atendida(e, addr, PeticionV::Intercambiar { para, cantidad }, f, paso),
    ensures
        f == e,
        paso == solo_a(addr, json_rechazo("Puntos insuficientes"@)),
{
    let id = e.addr_to_id.datos[addr];
    assert(crate::intercambio::aliados(e.alianzas, id, para)) by {
        let k = choose|k: Seq<char>| #[trigger]
            e.alianzas.datos.contains_key(k) && e.alianzas.datos[k].contains(id)
                && e.alianzas.datos[k].contains(para);
        assert(e.alianzas.contiene(k));
    }
}

/// Whether a number fits in 32 bits with a sign.
pub open spec fn en_32_bits(n: int) -> bool {
    -0x8000_0000 <= n < 0x8000_0000
}

/// Giving points that one has to an ally, as long as the numbers fit. What the giver loses the
/// receiver gets, and nobody else is touched; points for somebody who is not in the game are lost,
/// and giving to oneself changes nothing. Everybody is told, and the move is recorded.
pub proof fn ley_dar(
    e: EstadoV,
    addr: Seq<char>,
    para: Seq<char>,
    cantidad: i32,
    f: EstadoV,
    paso: PasoV,
)
    requires
        e.addr_to_id.datos.contains_key(addr),
        comparten(e, e.addr_to_id.datos[addr], para),
        e.jugadores.datos.contains_key(e.addr_to_id.datos[addr]),
        e.jugadores.datos[e.addr_to_id.datos[addr]].puntos >= cantidad,
        atendida(e, addr, PeticionV::Intercambiar { para, cantidad }, f, paso),
        paso is Acciones,
    ensures
        ({
            let id = e.addr_to_id.datos[addr];
            let j = e.jugadores.datos[id];
            &&& f == (EstadoV { jugadores: f.jugadores, ..e })
            &&& f.jugadores.claves == e.jugadores.claves
            &&& forall|x: Seq<char>| #[trigger]
                f.jugadores.datos.contains_key(x) <==> e.jugadores.datos.contains_key(x)
            &&& forall|x: Seq<char>| #[trigger]
                e.jugadores.datos.contains_key(x) && x != id && x != para ==> f.jugadores.datos[x]
                    == e.jugadores.datos[x]
            &&& id != para ==> f.jugadores.datos[id] == (JugadorV {
                puntos: j.puntos - cantidad,
                ..j
            })
            &&& id != para && e.jugadores.datos.contains_key(para) ==> {
                let k = e.jugadores.datos[para];
                f.jugadores.datos[para] == (JugadorV { puntos: k.puntos + cantidad, ..k })
            }
            &&& id == para ==> f == e
            &&& paso->Acciones_0 == seq![
                AccionV::Difundir(json_intercambio(f.jugadores.valores())),
                AccionV::RegistrarMovimiento {
                    sesion_id: e.sesion_id,
                    tipo: "intercambiar"@,
                    datos: numeral(cantidad as int) + " -> "@ + para + " puntos"@,
                },
            ]
        }),
{
    let id = e.addr_to_id.datos[addr];
    assert(crate::intercambio::aliados(e.alianzas, id, para)) by {
        let k = choose|k: Seq<char>| #[trigger]
            e.alianzas.datos.contains_key(k) && e.alianzas.datos[k].contains(id)
                && e.alianzas.datos[k].contains(para);
        assert(e.alianzas.contiene(k));
    }
    assert(f.jugadores.claves == e.jugadores.claves);
    if id == para {
        assert(f.jugadores.datos =~= e.jugadores.datos);
        assert(f.jugadores =~= e.jugadores);
    }
}

/// Points are withheld for want of room exactly where those of the giver or of the receiver would
/// not fit in 32 bits; then nothing changes.
pub proof fn ley_dar_sin_sitio(
    e: EstadoV,
    addr: Seq<char>,
    para: Seq<char>,
    cantidad: i32,
    f: EstadoV,
    paso: PasoV,
)
    requires
        atendida(e, addr, PeticionV::Intercambiar { para, cantidad }, f, paso),
        forall|x: Seq<char>| #[trigger]
            e.jugadores.datos.contains_key(x) ==> en_32_bits(e.jugadores.datos[x].puntos),
    ensures
        paso is Desborde ==> f == e,
        paso is Desborde || paso is Acciones,
        paso is Desborde <==> {
            let id = e.addr_to_id.datos[addr];
            &&& e.addr_to_id.datos.contains_key(addr)
            &&& comparten(e, id, para)
            &&& e.jugadores.datos.contains_key(id) && e.jugadores.datos[id].puntos >= cantidad
            &&& !en_32_bits(e.jugadores.datos[id].puntos - cantidad) || (id != para
                && e.jugadores.datos.contains_key(para) && !en_32_bits(
                e.jugadores.datos[para].puntos + cantidad,
            ))
        },
{
    if e.addr_to_id.datos.contains_key(addr) {
        let id = e.addr_to_id.datos[addr];
        assert(crate::intercambio::aliados(e.alianzas, id, para) <==> comparten(e, id, para)) by {
            if crate::intercambio::aliados(e.alianzas, id, para) {
                let k = choose|k: Seq<char>| #[trigger]
                    e.alianzas.contiene(k) && e.alianzas.valor(k).contains(id)
                        && e.alianzas.valor(k).contains(para);
                assert(e.alianzas.datos.contains_key(k));
            }
            if comparten(e, id, para) {
                let k = choose|k: Seq<char>| #[trigger]
                    e.alianzas.datos.contains_key(k) && e.alianzas.datos[k].contains(id)
                        && e.alianzas.datos[k].contains(para);
                assert(e.alianzas.contiene(k));
            }
        }
    }
}

/// Coming back under the name of an absent player. The player is back as they were when they left,
/// under the address that asks, and the place is no longer kept; nobody else is touched, and turn,
/// monsters and alliances stay. The countdown is stopped, the one who came back sees the state of
/// the game, and everybody is told.
pub proof fn ley_volver(
    e: EstadoV,
    addr: Seq<char>,
    nombre: Seq<char>,
    f: EstadoV,
    paso: PasoV,
)
    requires
        e.desconectados.datos.contains_key(nombre),
        atendida(e, addr, PeticionV::Unirse { nombre }, f, paso),
    ensures
        ({
            let j = e.desconectados.datos[nombre].0;
            &&& f.jugadores.datos.contains_key(j.id) && f.jugadores.datos[j.id] == j
            &&& salvo(e.jugadores, f.jugadores, j.id)
            &&& e.jugadores.datos.contains_key(j.id) ==> f.jugadores.claves == e.jugadores.claves
            &&& !e.jugadores.datos.contains_key(j.id) ==> f.jugadores.claves
                == e.jugadores.claves.push(j.id)
            &&& f.addr_to_id.datos.contains_key(addr) && f.addr_to_id.datos[addr] == j.id
            &&& salvo(e.addr_to_id, f.addr_to_id, addr)
            &&& !f.desconectados.datos.contains_key(nombre)
            &&& salvo(e.desconectados, f.desconectados, nombre)
            &&& f == (EstadoV {
                jugadores: f.jugadores,
                addr_to_id: f.addr_to_id,
                desconectados: f.desconectados,
                ..e
            })
        }),
        paso == PasoV::Acciones(
            seq![
                AccionV::CancelarGracia { nombre },
                AccionV::Enviar { addr, mensaje: json_estado(f) },
                AccionV::Difundir(json_reconectado(nombre)),
            ],
        ),
{
}

/// What the arrival of a new player does: they are in the game under `id`, with the name that they
/// gave, no points, ten health points and all weapons, behind those who were there; the address
/// that asks stands for them. Nobody else is touched. Everybody is told, and the move is recorded.
pub open spec fn entra(
    e: EstadoV,
    addr: Seq<char>,
    nombre: Seq<char>,
    id: Seq<char>,
    f: EstadoV,
    paso: PasoV,
) -> bool {
    let j = JugadorV {
        id,
        nombre,
        puntos: 0,
        hp: 10,
        armas: seq!["daga"@, "granada"@, "dinamita"@],
    };
    &&& f.jugadores.datos.contains_key(id) && f.jugadores.datos[id] == j
    &&& salvo(e.jugadores, f.jugadores, id)
    &&& !e.jugadores.datos.contains_key(id) ==> f.jugadores.claves == e.jugadores.claves.push(id)
    &&& e.jugadores.datos.contains_key(id) ==> f.jugadores.claves == e.jugadores.claves
    &&& f.addr_to_id.datos.contains_key(addr) && f.addr_to_id.datos[addr] == id
    &&& salvo(e.addr_to_id, f.addr_to_id, addr)
    &&& f == (EstadoV { jugadores: f.jugadores, addr_to_id: f.addr_to_id, ..e })
    &&& paso == PasoV::Acciones(
        seq![
            AccionV::Difundir(json_unido(j, f.jugadores.valores())),
            AccionV::RegistrarMovimiento {
                sesion_id: e.sesion_id,
                tipo: "unirse"@,
                datos: nombre,
            },
        ],
    )
}

/// Joining under a name for which no place is kept: a new player enters, under an identifier made
/// from a reading of the clock and a drawn number. Only where the clock reads a time before the
/// Unix epoch nothing is done.
pub proof fn ley_unirse(
    e: EstadoV,
    addr: Seq<char>,
    nombre: Seq<char>,
    f: EstadoV,
    paso: PasoV,
)
    requires
        !e.desconectados.datos.contains_key(nombre),
        atendida(e, addr, PeticionV::Unirse { nombre }, f, paso),
    ensures
        exists|t: std::time::SystemTime, n: u16|
            {
                &&& #[trigger] jugador_en(t, n) is None <==> nanos_unix(t) < 0
                &&& jugador_en(t, n) matches Some(id) ==> entra(e, addr, nombre, id, f, paso)
                &&& jugador_en(t, n) is None ==> f == e && paso == PasoV::SinHora
            },
{
    let (t, n) = choose|t: std::time::SystemTime, n: u16|
        match #[trigger] jugador_en(t, n) {
            Some(id) => f == crate::partida::llegada(e, addr, nombre, id).0 && paso
                == PasoV::Acciones(crate::partida::llegada(e, addr, nombre, id).1),
            None => f == e && paso == PasoV::SinHora,
        };
    ley_forma_id_jugador(t, n);
    if jugador_en(t, n) is Some {
        let id = jugador_en(t, n)->0;
        assert(entra(e, addr, nombre, id, f, paso));
    }
}

/// Whether the player behind `addr` has this weapon in the game.
pub open spec fn armado(e: EstadoV, addr: Seq<char>, arma: Seq<char>) -> bool {
    let id = e.addr_to_id.datos[addr];
    e.jugadores.datos.contains_key(id) && e.jugadores.datos[id].armas.contains(arma)
}

/// Why the player behind `addr` may not attack with this weapon, the first reason first.
pub open spec fn sin_permiso(e: EstadoV, addr: Seq<char>, arma: Seq<char>, razon: Seq<char>) -> bool {
    let dentro = e.addr_to_id.datos.contains_key(addr);
    let suyo = e.addr_to_id.datos[addr] == e.turno_actual;
    let util = arma == "daga"@ || arma == "granada"@ || arma == "dinamita"@;
    ||| e.fase != Fase::Juego && razon == "Juego no activo"@
    ||| e.fase == Fase::Juego && !dentro && razon == "No estás en el juego"@
    ||| e.fase == Fase::Juego && dentro && !suyo && razon == "No es tu turno"@
    ||| e.fase == Fase::Juego && dentro && suyo && !armado(e, addr, arma) && razon
        == "No tienes esa arma"@
    ||| e.fase == Fase::Juego && dentro && suyo && armado(e, addr, arma) && !util && razon
        == "Arma inválida"@
}

/// Whether the player behind `addr` may attack with this weapon: a game runs, it is their turn, and
/// they have the weapon, which is one of the three.
pub open spec fn con_permiso(e: EstadoV, addr: Seq<char>, arma: Seq<char>) -> bool {
    &&& e.fase == Fase::Juego
    &&& e.addr_to_id.datos.contains_key(addr)
    &&& e.addr_to_id.datos[addr] == e.turno_actual
    &&& armado(e, addr, arma)
    &&& arma == "daga"@ || arma == "granada"@ || arma == "dinamita"@
}

/// Asking for an attack changes nothing yet. Whoever may attack is to draw for the damage of their
/// weapon; anybody else is told why not.
pub proof fn ley_pedir_ataque(
    e: EstadoV,
    addr: Seq<char>,
    monstruo_id: Seq<char>,
    arma: Seq<char>,
    f: EstadoV,
    paso: PasoV,
    razon: Seq<char>,
)
    requires
        atendida(e, addr, PeticionV::Atacar { monstruo_id, arma }, f, paso),
    ensures
        f == e,
        con_permiso(e, addr, arma) && arma == "daga"@ ==> paso == (PasoV::Tirar { dano_base: 3 }),
        con_permiso(e, addr, arma) && arma == "granada"@ ==> paso == (PasoV::Tirar {
            dano_base: 8,
        }),
        con_permiso(e, addr, arma) && arma == "dinamita"@ ==> paso == (PasoV::Tirar {
            dano_base: 15,
        }),
        sin_permiso(e, addr, arma, razon) ==> paso == solo_a(addr, json_error(razon)),
{
    ley_armas(arma);
}

/// An attack by somebody who may not make it, or on a monster that is not there or is gone already,
/// changes nothing, and the one who asked, and nobody else, is told why.
pub proof fn ley_ataque_negado(
    e: EstadoV,
    addr: Seq<char>,
    monstruo_id: Seq<char>,
    arma: Seq<char>,
    dano: int,
    critico: bool,
    razon: Seq<char>,
    i: int,
)
    requires
        ({
            ||| sin_permiso(e, addr, arma, razon)
            ||| con_permiso(e, addr, arma) && razon == "Monstruo no encontrado"@ && forall|j: int|
                0 <= j < e.monstruos.len() ==> (#[trigger] e.monstruos[j]).id != monstruo_id
            ||| con_permiso(e, addr, arma) && razon == "Monstruo ya eliminado"@ && primero(
                e.monstruos,
                monstruo_id,
                i,
            ) && e.monstruos[i].eliminado
        }),
    ensures
        ataque(e, addr, monstruo_id, arma, dano, critico) == (
            e,
            seq![AccionV::Enviar { addr, mensaje: json_error(razon) }],
        ),
{
    ley_armas(arma);
    lema_indice(e.monstruos, monstruo_id, 0);
}

/// Whether the monster at position `i` is the first one with this identifier.
pub open spec fn primero(ms: Seq<MonstruoV>, id: Seq<char>, i: int) -> bool {
    &&& 0 <= i < ms.len()
    &&& ms[i].id == id
    &&& forall|j: int| 0 <= j < i ==> (#[trigger] ms[j]).id != id
}

/// Whether each monster of a list is gone.
pub open spec fn sin_monstruos(ms: Seq<MonstruoV>) -> bool {
    forall|p: int| 0 <= p < ms.len() ==> (#[trigger] ms[p]).eliminado
}

/// Whether `g` is a player whom nobody in the game exceeds in points.
pub open spec fn encabeza(t: TablaV<JugadorV>, g: Seq<char>) -> bool {
    t.datos.contains_key(g) && forall|x: Seq<char>| #[trigger]
        t.datos.contains_key(x) ==> t.datos[x].puntos <= t.datos[g].puntos
}

/// Whether a record lists every player of a table, with identifier, name, points and health.
pub open spec fn resume(rs: Seq<ResumenV>, t: TablaV<JugadorV>) -> bool {
    rs.len() == t.claves.len() && forall|p: int|
        0 <= p < rs.len() ==> {
            &&& (#[trigger] rs[p]).id == t.datos[t.claves[p]].id
            &&& rs[p].nombre == t.datos[t.claves[p]].nombre
            &&& rs[p].puntos == t.datos[t.claves[p]].puntos
            &&& rs[p].hp == t.datos[t.claves[p]].hp
        }
}

/// Whether `p` is a fifth of `n`, rounded toward zero.
pub open spec fn quinta(n: int, p: int) -> bool {
    &&& n >= 0 ==> 5 * p <= n < 5 * p + 5
    &&& n < 0 ==> 5 * p - 5 < n <= 5 * p
}

/// Who is next depends on the order, the position and who is in the game, and on nothing else.
pub(crate) proof fn lema_saltos_iguales(e: EstadoV, f: EstadoV, a: int)
    requires
        f.orden_turnos == e.orden_turnos,
        f.turno_index == e.turno_index,
        forall|k: Seq<char>| #[trigger]
            f.jugadores.datos.contains_key(k) <==> e.jugadores.datos.contains_key(k),
        0 <= a <= e.orden_turnos.len(),
    ensures
        saltos(f, a) == saltos(e, a),
    decreases e.orden_turnos.len() - a,
{
    if a < e.orden_turnos.len() {
        assert(puesto(f, a) == puesto(e, a));
        assert(presente(f, a) == presente(e, a));
        lema_saltos_iguales(e, f, a + 1);
    }
}

/// What an attack meets: the attacker, the base damage and the monster.
proof fn lema_blanco(
    e: EstadoV,
    addr: Seq<char>,
    monstruo_id: Seq<char>,
    arma: Seq<char>,
    i: int,
)
    requires
        con_permiso(e, addr, arma),
        primero(e.monstruos, monstruo_id, i),
        !e.monstruos[i].eliminado,
    ensures
        blanco(e, addr, monstruo_id, arma) matches Ok((id, _, p)) && id == e.addr_to_id.datos[addr]
            && p == i,
        blanco(e, addr, monstruo_id, arma)->Ok_0.1 == (if arma == "daga"@ {
            3i32
        } else if arma == "granada"@ {
            8i32
        } else {
            15i32
        }),
{
    ley_armas(arma);
    lema_indice(e.monstruos, monstruo_id, 0);
}

/// An attack that is made. The monster loses the damage, or what it has left, and is gone when
/// nothing is left; no other monster is touched. The attacker is paid for a monster that is gone, a
/// fifth of its full health in points and two health points, and nobody else is. The turn passes on
/// as it does when its time runs out. The game is over, and its timer stops, exactly when no monster
/// is left. Addresses, alliances and absences stay.
pub proof fn ley_ataque(
    e: EstadoV,
    addr: Seq<char>,
    monstruo_id: Seq<char>,
    arma: Seq<char>,
    dano: int,
    critico: bool,
    i: int,
)
    requires
        con_permiso(e, addr, arma),
        primero(e.monstruos, monstruo_id, i),
        !e.monstruos[i].eliminado,
    ensures
        ({
            let id = e.addr_to_id.datos[addr];
            let f = ataque(e, addr, monstruo_id, arma, dano, critico).0;
            let a = e.monstruos[i];
            let b = f.monstruos[i];
            let j = e.jugadores.datos[id];
            let k = f.jugadores.datos[id];
            let fin = sin_monstruos(f.monstruos);
            &&& f.monstruos.len() == e.monstruos.len()
            &&& forall|p: int|
                0 <= p < e.monstruos.len() && p != i ==> #[trigger] f.monstruos[p] == e.monstruos[p]
            &&& b == (MonstruoV { hp_actual: b.hp_actual, eliminado: b.eliminado, ..a })
            &&& dano <= a.hp_actual ==> b.hp_actual == a.hp_actual - dano
            &&& dano > a.hp_actual ==> b.hp_actual == 0
            &&& b.eliminado <==> b.hp_actual == 0
            &&& f.jugadores.claves == e.jugadores.claves
            &&& f.jugadores.datos.contains_key(id)
            &&& salvo(e.jugadores, f.jugadores, id)
            &&& b.eliminado ==> k == (JugadorV { puntos: k.puntos, hp: j.hp + 2, ..j }) && quinta(
                a.hp_max,
                k.puntos - j.puntos,
            )
            &&& !b.eliminado ==> k == j
            &&& f.turno_actual == turno_siguiente(e).turno_actual
            &&& f.turno_index == turno_siguiente(e).turno_index
            &&& fin ==> f.fase == Fase::Fin && !f.reloj
            &&& !fin ==> f.fase == Fase::Juego && f.reloj == e.reloj
            &&& f.orden_turnos == e.orden_turnos
            &&& f.addr_to_id == e.addr_to_id
            &&& f.alianzas == e.alianzas
            &&& f.desconectados == e.desconectados
            &&& f.sesion_id == e.sesion_id
        }),
{
    let id = e.addr_to_id.datos[addr];
    let f = ataque(e, addr, monstruo_id, arma, dano, critico).0;
    lema_blanco(e, addr, monstruo_id, arma, i);
    let m = golpear(e.monstruos[i], dano);
    assert(f.monstruos == e.monstruos.update(i, m));
    let g = EstadoV { monstruos: f.monstruos, jugadores: f.jugadores, ..e };
    assert(forall|x: Seq<char>| #[trigger]
        g.jugadores.datos.contains_key(x) <==> e.jugadores.datos.contains_key(x));
    lema_saltos_iguales(e, g, 0);
}

/// What an attack has announced and recorded while monsters are left. The timer counts anew if it
/// runs. Everybody learns of the hit: the monster, the attacker, the weapon, both damages, whether
/// it was critical and what is left; then of the removal and its pay, if there was one; then they
/// see the state. The move is recorded.
pub proof fn ley_ataque_avisos(
    e: EstadoV,
    addr: Seq<char>,
    monstruo_id: Seq<char>,
    arma: Seq<char>,
    dano: int,
    critico: bool,
    i: int,
)
    requires
        con_permiso(e, addr, arma),
        primero(e.monstruos, monstruo_id, i),
        !e.monstruos[i].eliminado,
        !sin_monstruos(ataque(e, addr, monstruo_id, arma, dano, critico).0.monstruos),
    ensures
        ({
            let (f, l) = ataque(e, addr, monstruo_id, arma, dano, critico);
            let id = e.addr_to_id.datos[addr];
            let nombre = e.jugadores.datos[id].nombre;
            let b = f.monstruos[i];
            let base: int = if arma == "daga"@ {
                3
            } else if arma == "granada"@ {
                8
            } else {
                15
            };
            let golpe = AccionV::Difundir(
                json_ataque(b.nombre, nombre, arma, dano, base, critico, b.hp_actual),
            );
            let paga = f.jugadores.datos[id].puntos - e.jugadores.datos[id].puntos;
            let baja = AccionV::Difundir(json_eliminado(b.nombre, nombre, paga));
            let vista = AccionV::Difundir(json_estado(f));
            let nota = AccionV::RegistrarMovimiento {
                sesion_id: e.sesion_id,
                tipo: "atacar"@,
                datos: monstruo_id + " con "@ + arma,
            };
            &&& e.reloj && b.eliminado ==> l == seq![
                AccionV::ReiniciarReloj,
                golpe,
                baja,
                vista,
                nota,
            ]
            &&& e.reloj && !b.eliminado ==> l == seq![AccionV::ReiniciarReloj, golpe, vista, nota]
            &&& !e.reloj && b.eliminado ==> l == seq![golpe, baja, vista, nota]
            &&& !e.reloj && !b.eliminado ==> l == seq![golpe, vista, nota]
        }),
{
    lema_blanco(e, addr, monstruo_id, arma, i);
    ley_ataque(e, addr, monstruo_id, arma, dano, critico, i);
}

/// The end of a game. When the last monster is gone, everybody is told that the game is over, and
/// the end is recorded. The name that is told and recorded is that of a player of the game whom
/// nobody exceeds in points, and the record lists every player. The timer is stopped.
pub proof fn ley_final(
    e: EstadoV,
    addr: Seq<char>,
    monstruo_id: Seq<char>,
    arma: Seq<char>,
    dano: int,
    critico: bool,
    i: int,
)
    requires
        e.jugadores.valida(),
        con_permiso(e, addr, arma),
        primero(e.monstruos, monstruo_id, i),
        !e.monstruos[i].eliminado,
        sin_monstruos(ataque(e, addr, monstruo_id, arma, dano, critico).0.monstruos),
    ensures
        ({
            let (f, l) = ataque(e, addr, monstruo_id, arma, dano, critico);
            let id = e.addr_to_id.datos[addr];
            let nombre = e.jugadores.datos[id].nombre;
            let b = f.monstruos[i];
            let base: int = if arma == "daga"@ {
                3
            } else if arma == "granada"@ {
                8
            } else {
                15
            };
            let paga = f.jugadores.datos[id].puntos - e.jugadores.datos[id].puntos;
            let n: int = if e.reloj {
                1
            } else {
                0
            };
            &&& l.len() == n + 6
            &&& e.reloj ==> l[0] == AccionV::ReiniciarReloj
            &&& l[n] == AccionV::DetenerReloj
            &&& l[n + 1] == AccionV::Difundir(
                json_ataque(b.nombre, nombre, arma, dano, base, critico, b.hp_actual),
            )
            &&& l[n + 2] == AccionV::Difundir(json_eliminado(b.nombre, nombre, paga))
            &&& l[n + 4] is RegistrarFin
            &&& l[n + 4]->RegistrarFin_sesion_id == e.sesion_id
            &&& resume(l[n + 4]->RegistrarFin_jugadores, f.jugadores)
            &&& exists|g: Seq<char>| #[trigger]
                encabeza(f.jugadores, g) && l[n + 3] == AccionV::Difundir(
                    json_fin(f.jugadores.datos[g].nombre, f.jugadores.valores()),
                ) && l[n + 4]->ganador == f.jugadores.datos[g].nombre
            &&& l[n + 5] == (AccionV::RegistrarMovimiento {
                sesion_id: e.sesion_id,
                tipo: "atacar"@,
                datos: monstruo_id + " con "@ + arma,
            })
        }),
{
    let (f, l) = ataque(e, addr, monstruo_id, arma, dano, critico);
    let id = e.addr_to_id.datos[addr];
    lema_blanco(e, addr, monstruo_id, arma, i);
    ley_ataque(e, addr, monstruo_id, arma, dano, critico, i);
    assert(f.monstruos[i].eliminado);
    let js = f.jugadores.valores();
    ley_ganador(js);
    assert(e.jugadores.claves.contains(id));
    assert(js.len() > 0);
    let p = js.index_of(mejor(js)->0);
    let g = f.jugadores.claves[p];
    assert(e.jugadores.claves.contains(g));
    assert(f.jugadores.datos.contains_key(g));
    assert(js[p] == f.jugadores.datos[g]);
    assert(ganador(js) == f.jugadores.datos[g].nombre);
    assert forall|x: Seq<char>| #[trigger] f.jugadores.datos.contains_key(x) implies
        f.jugadores.datos[x].puntos <= f.jugadores.datos[g].puntos by {
        assert(e.jugadores.claves.contains(x));
        let q = f.jugadores.claves.index_of(x);
        assert(js[q] == f.jugadores.datos[x]);
    }
    assert(encabeza(f.jugadores, g));
}

/// Chance makes a hit of at least one: what it made of the weapon counts where that is positive.
pub proof fn ley_dano_minimo(redondeado: int)
    ensures
        redondeado >= 1 ==> mayor(redondeado, 1) == redondeado,
        redondeado < 1 ==> mayor(redondeado, 1) == 1,
{
}

/// An attack is withheld for want of room exactly where the health of the monster, or what the
/// attacker would be paid, would not fit in 32 bits.
pub proof fn ley_ataque_sin_sitio(
    e: EstadoV,
    addr: Seq<char>,
    monstruo_id: Seq<char>,
    arma: Seq<char>,
    dano: int,
    critico: bool,
    i: int,
)
    requires
        con_permiso(e, addr, arma),
        primero(e.monstruos, monstruo_id, i),
        !e.monstruos[i].eliminado,
        en_32_bits(e.jugadores.datos[e.addr_to_id.datos[addr]].puntos),
        en_32_bits(e.jugadores.datos[e.addr_to_id.datos[addr]].hp),
    ensures
        ataque_cabe(e, addr, monstruo_id, arma, dano) <==> {
            let k = ataque(e, addr, monstruo_id, arma, dano, critico).0.jugadores.datos[
                e.addr_to_id.datos[addr]
            ];
            &&& en_32_bits(e.monstruos[i].hp_actual - dano)
            &&& en_32_bits(k.puntos) && en_32_bits(k.hp)
        },
{
    lema_blanco(e, addr, monstruo_id, arma, i);
}

/// Only an attack that is made can be withheld for want of room.
pub proof fn ley_negativa_con_sitio(
    e: EstadoV,
    addr: Seq<char>,
    monstruo_id: Seq<char>,
    arma: Seq<char>,
    dano: int,
)
    requires
        !ataque_cabe(e, addr, monstruo_id, arma, dano),
    ensures
        con_permiso(e, addr, arma),
        exists|i: int| #[trigger] primero(e.monstruos, monstruo_id, i) && !e.monstruos[i].eliminado,
{
    ley_armas(arma);
    lema_indice(e.monstruos, monstruo_id, 0);
    let i = blanco(e, addr, monstruo_id, arma)->Ok_0.2;
    assert(primero(e.monstruos, monstruo_id, i));
}

} // verus!
