//! What the server does with what its clients send, and when they come and go.

use vstd::prelude::*;
use vstd::utf8::{decode_utf8, encode_utf8, valid_utf8};
use crate::accion::{acciones, agregar, nada, responder, Accion, AccionV};
use crate::combate::{
    atacar, ataque, ataque_cabe, cabe_ataque, calcular_dano, mayor, preparar, preparar_ataque,
};
use crate::identidad::{es_id_jugador, generar_id, jugador_en};
use crate::intercambio::{cabe_intercambio, intercambiar, intercambio, intercambio_cabe};
use crate::json::Json;
use crate::mensaje::{json_desconectado, json_error, json_estado, Mensaje};
use crate::modelo::{eliminados, jugador_valido, operable, valido, EstadoJuego, EstadoV, Fase};
use crate::partida::{
    alianza, formar_alianza, iniciar_juego, inicio, lema_quitar_ausente, llegada, llegar, regreso,
    volver,
};
use crate::peticion::{leer_peticion, peticion_en_texto, Peticion, PeticionV};
use crate::tabla::{lema_poner_valida, lema_quitar_valida};
use crate::texto::igual;
use crate::trama::{leer_trama, ley_trama_cliente, trama_cliente, LecturaV};
use crate::turnos::{lema_turno_valido, siguiente_turno, turno_siguiente};

verus! {

/// How a request is dealt with, over mathematical values.
pub enum PasoV {
    Acciones(Seq<AccionV>),
    Tirar { dano_base: i32 },
    SinHora,
    Desborde,
}

/// How a request is dealt with.
pub enum Paso {
    /// These actions are to be carried out, in this order.
    Acciones(Vec<Accion>),
    /// Chance has to decide what an attack with this base damage does.
    Tirar { dano_base: i32 },
    /// The clock is set before the Unix epoch; nothing was done.
    SinHora,
    /// The points of a player would not fit in 32 bits; nothing was done.
    Desborde,
}

impl View for Paso {
    type V = PasoV;

    open spec fn view(&self) -> PasoV {
        match *self {
            Paso::Acciones(l) => PasoV::Acciones(acciones(l@)),
            Paso::Tirar { dano_base } => PasoV::Tirar { dano_base },
            Paso::SinHora => PasoV::SinHora,
            Paso::Desborde => PasoV::Desborde,
        }
    }
}

/// Whether dealing with the request `p` in the state `e` may lead to the state `f` and the step
/// `paso`. Only the time `t` that the clock reads, and the number `n` that chance gives, are left
/// open, where a new player joins: they decide the identifier, and a time before the Unix epoch is
/// the one reason for `SinHora`.
pub open spec fn atendida(
    e: EstadoV,
    addr: Seq<char>,
    p: PeticionV,
    f: EstadoV,
    paso: PasoV,
) -> bool {
    match p {
        PeticionV::Unirse { nombre } => if e.desconectados.contiene(nombre) {
            let (g, l) = regreso(e, addr, nombre);
            f == g && paso == PasoV::Acciones(l)
        } else {
            exists|t: std::time::SystemTime, n: u16|
                match #[trigger] jugador_en(t, n) {
                    Some(id) => {
                        let (g, l) = llegada(e, addr, nombre, id);
                        es_id_jugador(id) && f == g && paso == PasoV::Acciones(l)
                    },
                    None => f == e && paso == PasoV::SinHora,
                }
        },
        PeticionV::IniciarJuego => {
            let (g, l) = inicio(e, addr);
            f == g && paso == PasoV::Acciones(l)
        },
        PeticionV::Alianza { alias, miembros } => {
            let (g, l) = alianza(e, alias, miembros);
            f == g && paso == PasoV::Acciones(l)
        },
        PeticionV::Atacar { monstruo_id, arma } => f == e && match preparar(e, addr, arma) {
            Ok((_, dano_base)) => paso == PasoV::Tirar { dano_base },
            Err(razon) => paso == PasoV::Acciones(
                seq![AccionV::Enviar { addr, mensaje: json_error(razon) }],
            ),
        },
        PeticionV::Intercambiar { para, cantidad } => if intercambio_cabe(
            e,
            addr,
            para,
            cantidad as int,
        ) {
            let (g, l) = intercambio(e, addr, para, cantidad as int);
            f == g && paso == PasoV::Acciones(l)
        } else {
            f == e && paso == PasoV::Desborde
        },
    }
}

/// Deals with a request. An attack that can be made is left to `resolver_ataque`, once chance has
/// decided what it does.
pub fn handle_message(state: &mut EstadoJuego, addr: &str, peticion: Peticion) -> (r: Paso)
    requires
        operable(old(state)@),
    ensures
        operable(final(state)@),
        valido(old(state)@) ==> valido(final(state)@),
        atendida(old(state)@, addr@, peticion@, final(state)@, r@),
{
    let ghost e = state@;
    match peticion {
        Peticion::Unirse { nombre } => if state.desconectados.contiene(nombre.as_str()) {
            Paso::Acciones(volver(state, addr, nombre.as_str()))
        } else {
            match generar_id() {
                Some(id) => {
                    let ghost clave = id@;
                    let l = llegar(state, addr, nombre.as_str(), id);
                    assert((state@, acciones(l@)) == llegada(e, addr@, nombre@, clave));
                    Paso::Acciones(l)
                },
                None => Paso::SinHora,
            }
        },
        Peticion::IniciarJuego => Paso::Acciones(iniciar_juego(state, addr)),
        Peticion::Alianza { alias, miembros } => Paso::Acciones(
            formar_alianza(state, alias, miembros),
        ),
        Peticion::Atacar { monstruo_id: _, arma } => match preparar_ataque(
            state,
            addr,
            arma.as_str(),
        ) {
            Ok((_, dano_base)) => Paso::Tirar { dano_base },
            Err(razon) => Paso::Acciones(responder(addr, Mensaje::error(razon))),
        },
        Peticion::Intercambiar { para, cantidad } => if cabe_intercambio(
            state,
            addr,
            para.as_str(),
            cantidad,
        ) {
            Paso::Acciones(intercambiar(state, addr, para.as_str(), cantidad))
        } else {
            Paso::Desborde
        },
    }
}

/// Carries out an attack for which chance made `redondeado` of the base damage. `None` where the
/// numbers would not fit in 32 bits, and then nothing changes.
pub fn resolver_ataque(
    state: &mut EstadoJuego,
    addr: &str,
    monstruo_id: &str,
    arma: &str,
    redondeado: i32,
    critico: bool,
) -> (r: Option<Vec<Accion>>)
    requires
        operable(old(state)@),
    ensures
        operable(final(state)@),
        valido(old(state)@) ==> valido(final(state)@),
        ({
            let e = old(state)@;
            let dano = mayor(redondeado as int, 1);
            match r {
                Some(l) => {
                    &&& ataque_cabe(e, addr@, monstruo_id@, arma@, dano)
                    &&& (final(state)@, acciones(l@)) == ataque(
                        e,
                        addr@,
                        monstruo_id@,
                        arma@,
                        dano,
                        critico,
                    )
                },
                None => {
                    &&& !ataque_cabe(e, addr@, monstruo_id@, arma@, dano)
                    &&& final(state)@ == e
                },
            }
        }),
{
    let dano: i32 = calcular_dano(redondeado);
    if cabe_ataque(state, addr, monstruo_id, arma, dano) {
        Some(atacar(state, addr, monstruo_id, arma, dano, critico))
    } else {
        None
    }
}

/// The message for a client that just connected: the state of the game, unless nobody has joined
/// and no game was started.
pub open spec fn bienvenida(e: EstadoV) -> Option<Json> {
    if e.jugadores.claves.len() > 0 || e.fase != Fase::Espera {
        Some(json_estado(e))
    } else {
        None
    }
}

/// Makes the message for a client that just connected.
pub fn conectar(state: &EstadoJuego) -> (r: Option<Mensaje>)
    requires
        operable(state@),
    ensures
        match r {
            Some(m) => bienvenida(state@) == Some(m@),
            None => bienvenida(state@) is None,
        },
{
    if !state.jugadores.is_empty() || state.fase != Fase::Espera {
        Some(Mensaje::estado(state))
    } else {
        None
    }
}

/// The error of `String::from_utf8`.
#[verifier::external_type_specification]
#[verifier::external_body]
pub struct ExFromUtf8Error(std::string::FromUtf8Error);

/// `String::from_utf8` of std: the text that the bytes encode, where they are valid UTF-8.
pub assume_specification[ String::from_utf8 ](bytes: Vec<u8>) -> (r: Result<
    String,
    std::string::FromUtf8Error,
>)
    ensures
        match r {
            Ok(s) => valid_utf8(bytes@) && s@ == decode_utf8(bytes@),
            Err(_) => !valid_utf8(bytes@),
        },
;

/// What a frame from a client means, over mathematical values.
pub enum SucesoV {
    Pedir(PeticionV),
    Cerrar,
    Ignorar,
}

/// What a frame from a client means.
pub enum Suceso {
    /// The client asks for something.
    Pedir(Peticion),
    /// The client closes the connection.
    Cerrar,
    /// Nothing is to be done.
    Ignorar,
}

impl View for Suceso {
    type V = SucesoV;

    open spec fn view(&self) -> SucesoV {
        match *self {
            Suceso::Pedir(p) => SucesoV::Pedir(p@),
            Suceso::Cerrar => SucesoV::Cerrar,
            Suceso::Ignorar => SucesoV::Ignorar,
        }
    }
}

/// What a frame means: a text frame that holds a request asks for it, a close frame ends the
/// connection, and everything else is passed over.
pub open spec fn suceso_de(opcode: u8, carga: Seq<u8>) -> SucesoV {
    if opcode == 1 {
        if valid_utf8(carga) {
            match peticion_en_texto(decode_utf8(carga)) {
                Some(p) => SucesoV::Pedir(p),
                None => SucesoV::Ignorar,
            }
        } else {
            SucesoV::Ignorar
        }
    } else if opcode == 8 {
        SucesoV::Cerrar
    } else {
        SucesoV::Ignorar
    }
}

/// A frame asks for something exactly where it is a text frame whose bytes are UTF-8 for a text that
/// asks for it; a close frame, and no other, ends the connection.
pub proof fn ley_suceso(opcode: u8, carga: Seq<u8>, p: PeticionV)
    ensures
        suceso_de(opcode, carga) == SucesoV::Pedir(p) <==> opcode == 1 && valid_utf8(carga)
            && peticion_en_texto(decode_utf8(carga)) == Some(p),
        suceso_de(opcode, carga) == SucesoV::Cerrar <==> opcode == 8,
{
}

/// Finds out what a frame from a client means.
pub fn recibir_trama(opcode: u8, carga: Vec<u8>) -> (r: Suceso)
    ensures
        r@ == suceso_de(opcode, carga@),
{
    if opcode == 1 {
        match String::from_utf8(carga) {
            Ok(texto) => match leer_peticion(texto.as_str()) {
                Some(p) => Suceso::Pedir(p),
                None => Suceso::Ignorar,
            },
            Err(_) => Suceso::Ignorar,
        }
    } else if opcode == 8 {
        Suceso::Cerrar
    } else {
        Suceso::Ignorar
    }
}

/// A text that a client sends in a masked frame arrives: the frame asks for what the text stands
/// for, and is passed over where it stands for nothing.
pub proof fn ley_peticion_llega(texto: Seq<char>, mascara: Seq<u8>)
    requires
        mascara.len() == 4,
        encode_utf8(texto).len() <= usize::MAX,
    ensures
        leer_trama(trama_cliente(1, mascara, encode_utf8(texto))) matches LecturaV::Trama {
            opcode,
            carga,
        } && suceso_de(opcode, carga) == (match peticion_en_texto(texto) {
            Some(p) => SucesoV::Pedir(p),
            None => SucesoV::Ignorar,
        }),
{
    ley_trama_cliente(1, mascara, encode_utf8(texto));
    vstd::utf8::encode_utf8_valid_utf8(texto);
    vstd::utf8::encode_utf8_decode_utf8(texto);
}

/// The loss of the connection from `addr`. During a game the place of the player is kept for the
/// grace period; otherwise the player leaves at once.
pub open spec fn abandono(e: EstadoV, addr: Seq<char>) -> (EstadoV, Seq<AccionV>) {
    if !e.addr_to_id.contiene(addr) {
        (e, seq![])
    } else {
        let id = e.addr_to_id.valor(addr);
        let sin_addr = EstadoV { addr_to_id: e.addr_to_id.quitar(addr), ..e };
        if e.fase == Fase::Juego {
            if e.jugadores.contiene(id) {
                let j = e.jugadores.valor(id);
                (
                    EstadoV {
                        desconectados: e.desconectados.poner(j.nombre, (j, addr)),
                        ..sin_addr
                    },
                    seq![
                        AccionV::IniciarGracia { nombre: j.nombre, jugador_id: id },
                        AccionV::Difundir(json_desconectado(j.nombre)),
                    ],
                )
            } else {
                (sin_addr, seq![])
            }
        } else {
            let f = EstadoV { jugadores: e.jugadores.quitar(id), ..sin_addr };
            (
                f,
                if f.jugadores.claves.len() > 0 {
                    seq![AccionV::Difundir(json_estado(f))]
                } else {
                    seq![]
                },
            )
        }
    }
}

/// A state stays valid when a player leaves.
proof fn lema_quitar_jugador(e: EstadoV, id: Seq<char>)
    requires
        valido(e),
    ensures
        valido(EstadoV { jugadores: e.jugadores.quitar(id), ..e }),
{
    lema_quitar_valida(e.jugadores, id);
    let t = e.jugadores.quitar(id);
    assert forall|k: Seq<char>| #[trigger] t.contiene(k) implies t.valor(k).id == k
        && jugador_valido(t.valor(k), eliminados(e.monstruos)) by {
        assert(e.jugadores.contiene(k));
    }
}

/// The loss of a connection keeps a state valid.
pub proof fn lema_abandono_valido(e: EstadoV, addr: Seq<char>)
    requires
        valido(e),
    ensures
        valido(abandono(e, addr).0),
{
    if e.addr_to_id.contiene(addr) {
        let id = e.addr_to_id.valor(addr);
        let sin_addr = EstadoV { addr_to_id: e.addr_to_id.quitar(addr), ..e };
        lema_quitar_valida(e.addr_to_id, addr);
        assert(valido(sin_addr));
        if e.fase != Fase::Juego {
            lema_quitar_jugador(sin_addr, id);
        } else if e.jugadores.contiene(id) {
            let j = e.jugadores.valor(id);
            let t = e.desconectados.poner(j.nombre, (j, addr));
            lema_poner_valida(e.desconectados, j.nombre, (j, addr));
            assert forall|n: Seq<char>| #[trigger] t.contiene(n) implies t.valor(n).0.nombre == n
                && jugador_valido(t.valor(n).0, eliminados(e.monstruos)) by {
                if n != j.nombre {
                    assert(e.desconectados.contiene(n));
                }
            }
        }
    }
}

/// Handles the loss of the connection from `addr`.
pub fn desconectar(state: &mut EstadoJuego, addr: &str) -> (r: Vec<Accion>)
    requires
        operable(old(state)@),
    ensures
        operable(final(state)@),
        valido(old(state)@) ==> valido(final(state)@),
        (final(state)@, acciones(r@)) == abandono(old(state)@, addr@),
{
    let ghost e = state@;
    let ghost sin_addr = EstadoV { addr_to_id: e.addr_to_id.quitar(addr@), ..e };
    proof {
        if valido(e) {
            lema_abandono_valido(e, addr@);
        }
    }
    let id = match state.addr_to_id.quitar(addr) {
        Some(id) => id,
        None => {
            assert(e.addr_to_id.datos.remove(addr@) =~= e.addr_to_id.datos);
            return nada();
        },
    };
    assert(state@ =~= sin_addr);
    let mut r = nada();
    if state.fase == Fase::Juego {
        match state.jugadores.buscar(id.as_str()) {
            Some(j) => {
                let jugador = j.clone();
                let nombre = jugador.nombre.clone();
                state.desconectados.poner(nombre.clone(), (jugador, addr.to_string()));
                assert(state@ =~= abandono(e, addr@).0);
                agregar(
                    &mut r,
                    Accion::IniciarGracia { nombre: nombre.clone(), jugador_id: id },
                );
                agregar(&mut r, Accion::Difundir(Mensaje::desconectado(nombre.as_str())));
            },
            None => {},
        }
    } else {
        let _ = state.jugadores.quitar(id.as_str());
        assert(state@ =~= abandono(e, addr@).0);
        if !state.jugadores.is_empty() {
            agregar(&mut r, Accion::Difundir(Mensaje::estado(state)));
        }
    }
    assert(acciones(r@) =~= abandono(e, addr@).1);
    r
}

/// The end of the grace period that began when player `id` left under `nombre`. Where the place
/// under that name is still kept, the player leaves, and a turn that was theirs passes on.
pub open spec fn gracia_vencida(e: EstadoV, nombre: Seq<char>, id: Seq<char>) -> (
    EstadoV,
    Seq<AccionV>,
) {
    if e.desconectados.contiene(nombre) {
        let sin_jugador = EstadoV {
            desconectados: e.desconectados.quitar(nombre),
            jugadores: e.jugadores.quitar(id),
            ..e
        };
        let f = if e.turno_actual == id {
            turno_siguiente(sin_jugador)
        } else {
            sin_jugador
        };
        (f, seq![AccionV::Difundir(json_estado(f)), AccionV::OlvidarGracia { nombre }])
    } else {
        (e, seq![AccionV::OlvidarGracia { nombre }])
    }
}

/// The end of a grace period keeps a state valid.
pub proof fn lema_gracia_valida(e: EstadoV, nombre: Seq<char>, id: Seq<char>)
    requires
        valido(e),
    ensures
        valido(gracia_vencida(e, nombre, id).0),
{
    let sin_ausente = EstadoV { desconectados: e.desconectados.quitar(nombre), ..e };
    lema_quitar_ausente(e, nombre);
    lema_quitar_jugador(sin_ausente, id);
    lema_turno_valido(EstadoV { jugadores: e.jugadores.quitar(id), ..sin_ausente });
}

/// Handles the end of a grace period.
pub fn vencer_gracia(state: &mut EstadoJuego, nombre: &str, jugador_id: &str) -> (r: Vec<Accion>)
    requires
        operable(old(state)@),
    ensures
        operable(final(state)@),
        valido(old(state)@) ==> valido(final(state)@),
        (final(state)@, acciones(r@)) == gracia_vencida(old(state)@, nombre@, jugador_id@),
{
    let ghost e = state@;
    let mut r = nada();
    if state.desconectados.contiene(nombre) {
        let ghost sin_jugador = EstadoV {
            desconectados: e.desconectados.quitar(nombre@),
            jugadores: e.jugadores.quitar(jugador_id@),
            ..e
        };
        proof {
            if valido(e) {
                lema_gracia_valida(e, nombre@, jugador_id@);
            }
        }
        let _ = state.desconectados.quitar(nombre);
        let _ = state.jugadores.quitar(jugador_id);
        assert(state@ =~= sin_jugador);
        if igual(state.turno_actual.as_str(), jugador_id) {
            siguiente_turno(state);
        }
        agregar(&mut r, Accion::Difundir(Mensaje::estado(state)));
    }
    agregar(&mut r, Accion::OlvidarGracia { nombre: nombre.to_string() });
    assert(acciones(r@) =~= gracia_vencida(e, nombre@, jugador_id@).1);
    r
}

} // verus!
