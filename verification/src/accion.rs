//! What the rules ask the outside world to do.

use vstd::prelude::*;
use crate::json::Json;
use crate::mensaje::Mensaje;
use crate::modelo::{Jugador, JugadorV};
use crate::tabla::Tabla;
use crate::texto::textos;

verus! {

/// What is recorded of a player at the end of a game, over mathematical values.
#[verifier::ext_equal]
pub struct ResumenV {
    pub id: Seq<char>,
    pub nombre: Seq<char>,
    pub puntos: int,
    pub hp: int,
}

/// What is recorded of a player at the end of a game.
#[derive(Debug)]
pub struct Resumen {
    pub id: String,
    pub nombre: String,
    pub puntos: i32,
    pub hp: i32,
}

impl View for Resumen {
    type V = ResumenV;

    open spec fn view(&self) -> ResumenV {
        ResumenV {
            id: self.id@,
            nombre: self.nombre@,
            puntos: self.puntos as int,
            hp: self.hp as int,
        }
    }
}

/// The views of a list of records.
pub open spec fn resumenes(l: Seq<Resumen>) -> Seq<ResumenV> {
    Seq::new(l.len(), |i: int| l[i]@)
}

/// What is recorded of a player.
pub open spec fn resumen_de(j: JugadorV) -> ResumenV {
    ResumenV { id: j.id, nombre: j.nombre, puntos: j.puntos, hp: j.hp }
}

/// What is recorded of each player.
pub open spec fn resumir(js: Seq<JugadorV>) -> Seq<ResumenV> {
    Seq::new(js.len(), |i: int| resumen_de(js[i]))
}

/// What is recorded of each player of a table.
pub(crate) fn resumir_tabla(t: &Tabla<Jugador>) -> (r: Vec<Resumen>)
    requires
        t@.valida(),
    ensures
        resumenes(r@) == resumir(t@.valores()),
{
    let mut r: Vec<Resumen> = Vec::new();
    let mut i: usize = 0;
    while i < t.len()
        invariant
            t@.valida(),
            i <= t@.claves.len(),
            r@.len() == i,
            forall|j: int| 0 <= j < i ==> (#[trigger] r@[j])@ == resumen_de(t@.valores()[j]),
        decreases t@.claves.len() - i,
    {
        let j = t.valor_en(i);
        r.push(
            Resumen { id: j.id.clone(), nombre: j.nombre.clone(), puntos: j.puntos, hp: j.hp },
        );
        i = i + 1;
    }
    assert(resumenes(r@) =~= resumir(t@.valores()));
    r
}

/// The names of the players of a table.
pub open spec fn nombres(js: Seq<JugadorV>) -> Seq<Seq<char>> {
    Seq::new(js.len(), |i: int| js[i].nombre)
}

/// The names of the players of a table.
pub(crate) fn nombres_tabla(t: &Tabla<Jugador>) -> (r: Vec<String>)
    requires
        t@.valida(),
    ensures
        textos(r@) == nombres(t@.valores()),
{
    let mut r: Vec<String> = Vec::new();
    let mut i: usize = 0;
    while i < t.len()
        invariant
            t@.valida(),
            i <= t@.claves.len(),
            r@.len() == i,
            forall|j: int| 0 <= j < i ==> (#[trigger] r@[j])@ == t@.valores()[j].nombre,
        decreases t@.claves.len() - i,
    {
        r.push(t.valor_en(i).nombre.clone());
        i = i + 1;
    }
    assert(textos(r@) =~= nombres(t@.valores()));
    r
}

/// Something for the outside world to do, over mathematical values.
pub enum AccionV {
    Difundir(Json),
    Enviar { addr: Seq<char>, mensaje: Json },
    IniciarReloj,
    ReiniciarReloj,
    DetenerReloj,
    IniciarGracia { nombre: Seq<char>, jugador_id: Seq<char> },
    CancelarGracia { nombre: Seq<char> },
    CancelarGracias,
    OlvidarGracia { nombre: Seq<char> },
    RegistrarMovimiento { sesion_id: Seq<char>, tipo: Seq<char>, datos: Seq<char> },
    RegistrarInicio { sesion_id: Seq<char>, nombres: Seq<Seq<char>> },
    RegistrarFin { sesion_id: Seq<char>, ganador: Seq<char>, jugadores: Seq<ResumenV> },
}

/// Something for the outside world to do.
pub enum Accion {
    /// Send a message to every client.
    Difundir(Mensaje),
    /// Send a message to the client at one address.
    Enviar { addr: String, mensaje: Mensaje },
    /// Start the turn timer.
    IniciarReloj,
    /// Let the turn timer count from zero again.
    ReiniciarReloj,
    /// Stop the turn timer.
    DetenerReloj,
    /// Start counting down the grace period of an absent player.
    IniciarGracia { nombre: String, jugador_id: String },
    /// Stop the countdown that runs under a name, if there is one.
    CancelarGracia { nombre: String },
    /// Stop every countdown.
    CancelarGracias,
    /// Drop the entry of a countdown that is over.
    OlvidarGracia { nombre: String },
    /// Record a move.
    RegistrarMovimiento { sesion_id: String, tipo: String, datos: String },
    /// Record the start of a game with the names of its players.
    RegistrarInicio { sesion_id: String, nombres: Vec<String> },
    /// Record the end of a game.
    RegistrarFin { sesion_id: String, ganador: String, jugadores: Vec<Resumen> },
}

impl View for Accion {
    type V = AccionV;

    open spec fn view(&self) -> AccionV {
        match *self {
            Accion::Difundir(m) => AccionV::Difundir(m@),
            Accion::Enviar { addr, mensaje } => AccionV::Enviar { addr: addr@, mensaje: mensaje@ },
            Accion::IniciarReloj => AccionV::IniciarReloj,
            Accion::ReiniciarReloj => AccionV::ReiniciarReloj,
            Accion::DetenerReloj => AccionV::DetenerReloj,
            Accion::IniciarGracia { nombre, jugador_id } => AccionV::IniciarGracia {
                nombre: nombre@,
                jugador_id: jugador_id@,
            },
            Accion::CancelarGracia { nombre } => AccionV::CancelarGracia { nombre: nombre@ },
            Accion::CancelarGracias => AccionV::CancelarGracias,
            Accion::OlvidarGracia { nombre } => AccionV::OlvidarGracia { nombre: nombre@ },
            Accion::RegistrarMovimiento { sesion_id, tipo, datos } => AccionV::RegistrarMovimiento {
                sesion_id: sesion_id@,
                tipo: tipo@,
                datos: datos@,
            },
            Accion::RegistrarInicio { sesion_id, nombres } => AccionV::RegistrarInicio {
                sesion_id: sesion_id@,
                nombres: textos(nombres@),
            },
            Accion::RegistrarFin { sesion_id, ganador, jugadores } => AccionV::RegistrarFin {
                sesion_id: sesion_id@,
                ganador: ganador@,
                jugadores: resumenes(jugadores@),
            },
        }
    }
}

/// The actions of a list, in order.
pub open spec fn acciones(l: Seq<Accion>) -> Seq<AccionV> {
    Seq::new(l.len(), |i: int| l[i]@)
}

/// No actions.
pub(crate) fn nada() -> (r: Vec<Accion>)
    ensures
        acciones(r@) == Seq::<AccionV>::empty(),
{
    let r: Vec<Accion> = Vec::new();
    assert(acciones(r@) =~= Seq::<AccionV>::empty());
    r
}

/// Appends an action to a list.
pub(crate) fn agregar(l: &mut Vec<Accion>, a: Accion)
    ensures
        acciones(final(l)@) == acciones(old(l)@).push(a@),
{
    l.push(a);
    assert(acciones(l@) =~= acciones(old(l)@).push(a@));
}

/// The list whose only action sends `mensaje` to `addr`.
pub(crate) fn responder(addr: &str, mensaje: Mensaje) -> (r: Vec<Accion>)
    ensures
        acciones(r@) == seq![AccionV::Enviar { addr: addr@, mensaje: mensaje@ }],
{
    let mut r = nada();
    agregar(&mut r, Accion::Enviar { addr: addr.to_string(), mensaje });
    assert(acciones(r@) =~= seq![AccionV::Enviar { addr: addr@, mensaje: mensaje@ }]);
    r
}

/// The list whose only action sends `mensaje` to every client.
pub(crate) fn anunciar(mensaje: Mensaje) -> (r: Vec<Accion>)
    ensures
        acciones(r@) == seq![AccionV::Difundir(mensaje@)],
{
    let mut r = nada();
    agregar(&mut r, Accion::Difundir(mensaje));
    assert(acciones(r@) =~= seq![AccionV::Difundir(mensaje@)]);
    r
}

/// An action that records a move.
pub(crate) fn movimiento(sesion_id: &str, tipo: &str, datos: &str) -> (r: Accion)
    ensures
        r@ == (AccionV::RegistrarMovimiento { sesion_id: sesion_id@, tipo: tipo@, datos: datos@ }),
{
    Accion::RegistrarMovimiento {
        sesion_id: sesion_id.to_string(),
        tipo: tipo.to_string(),
        datos: datos.to_string(),
    }
}

} // verus!
