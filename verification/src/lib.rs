//! Rules and wire protocol of a cooperative Halloween monster hunt played over
//! WebSockets.

pub mod accion;
pub mod combate;
pub mod cuentas;
pub mod identidad;
pub mod intercambio;
pub mod json;
pub mod leyes;
pub mod mensaje;
pub mod modelo;
pub mod noticias;
pub mod partida;
pub mod peticion;
pub mod presencia;
pub mod reglas;
pub mod saludo;
pub mod servidor;
pub mod tabla;
pub mod texto;
pub mod trama;
pub mod turnos;
