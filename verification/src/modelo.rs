//! The state of a game: players, monsters, turns, alliances and absences.

use vstd::prelude::*;
use crate::tabla::{Tabla, TablaV};
use crate::texto::{copiar_textos, igual, textos};

verus! {

/// How long a turn lasts.
pub const TURNO_SEGUNDOS: u64 = 20;

/// How long the place of an absent player is kept.
pub const GRACIA_SEGUNDOS: u64 = 15;

/// A player, over mathematical values.
#[verifier::ext_equal]
pub struct JugadorV {
    pub id: Seq<char>,
    pub nombre: Seq<char>,
    pub puntos: int,
    pub hp: int,
    pub armas: Seq<Seq<char>>,
}

/// A player.
#[derive(Debug)]
pub struct Jugador {
    pub id: String,
    pub nombre: String,
    pub puntos: i32,
    pub hp: i32,
    pub armas: Vec<String>,
}

impl View for Jugador {
    type V = JugadorV;

    open spec fn view(&self) -> JugadorV {
        JugadorV {
            id: self.id@,
            nombre: self.nombre@,
            puntos: self.puntos as int,
            hp: self.hp as int,
            armas: textos(self.armas@),
        }
    }
}

impl Clone for Jugador {
    fn clone(&self) -> (r: Self)
        ensures
            r@ == self@,
    {
        Jugador {
            id: self.id.clone(),
            nombre: self.nombre.clone(),
            puntos: self.puntos,
            hp: self.hp,
            armas: copiar_textos(&self.armas),
        }
    }
}

/// A monster, over mathematical values.
#[verifier::ext_equal]
pub struct MonstruoV {
    pub id: Seq<char>,
    pub nombre: Seq<char>,
    pub emoji: Seq<char>,
    pub hp_max: int,
    pub hp_actual: int,
    pub eliminado: bool,
}

/// A monster.
#[derive(Debug)]
pub struct Monstruo {
    pub id: String,
    pub nombre: String,
    pub emoji: String,
    pub hp_max: i32,
    pub hp_actual: i32,
    pub eliminado: bool,
}

impl View for Monstruo {
    type V = MonstruoV;

    open spec fn view(&self) -> MonstruoV {
        MonstruoV {
            id: self.id@,
            nombre: self.nombre@,
            emoji: self.emoji@,
            hp_max: self.hp_max as int,
            hp_actual: self.hp_actual as int,
            eliminado: self.eliminado,
        }
    }
}

/// The monsters of a list.
pub open spec fn bestias(ms: Seq<Monstruo>) -> Seq<MonstruoV> {
    Seq::new(ms.len(), |i: int| ms[i]@)
}

/// The members of an alliance.
pub struct Miembros {
    pub lista: Vec<String>,
}

impl View for Miembros {
    type V = Seq<Seq<char>>;

    open spec fn view(&self) -> Seq<Seq<char>> {
        textos(self.lista@)
    }
}

/// The phase of a game.
#[derive(Debug, Clone, Copy, PartialEq, Eq, Structural)]
pub enum Fase {
    /// Waiting for players.
    Espera,
    /// The hunt is on.
    Juego,
    /// Every monster is gone.
    Fin,
}

impl Fase {
    /// The name of the phase in messages.
    pub open spec fn nombre(self) -> Seq<char> {
        match self {
            Fase::Espera => "espera"@,
            Fase::Juego => "juego"@,
            Fase::Fin => "fin"@,
        }
    }

    /// The name of the phase in messages.
    pub fn texto(self) -> (r: &'static str)
        ensures
            r@ == self.nombre(),
    {
        match self {
            Fase::Espera => "espera",
            Fase::Juego => "juego",
            Fase::Fin => "fin",
        }
    }
}

/// The state of a game, over mathematical values.
#[verifier::ext_equal]
pub struct EstadoV {
    pub sesion_id: Seq<char>,
    pub fase: Fase,
    pub turno_actual: Seq<char>,
    pub orden_turnos: Seq<Seq<char>>,
    pub turno_index: int,
    pub jugadores: TablaV<JugadorV>,
    pub addr_to_id: TablaV<Seq<char>>,
    pub monstruos: Seq<MonstruoV>,
    pub alianzas: TablaV<Seq<Seq<char>>>,
    pub reloj: bool,
    pub desconectados: TablaV<(JugadorV, Seq<char>)>,
}

/// The state of a game.
pub struct EstadoJuego {
    /// The session under which moves are recorded.
    pub sesion_id: String,
    pub fase: Fase,
    /// The player whose turn it is.
    pub turno_actual: String,
    /// The players that were there when the game started, in the order of their turns.
    pub orden_turnos: Vec<String>,
    /// The position in that order.
    pub turno_index: usize,
    /// The players by their identifiers.
    pub jugadores: Tabla<Jugador>,
    /// The player behind each address.
    pub addr_to_id: Tabla<String>,
    pub monstruos: Vec<Monstruo>,
    /// The alliances by their names.
    pub alianzas: Tabla<Miembros>,
    /// Whether the turn timer runs.
    pub reloj: bool,
    /// The absent players whose place is kept, by name, each as of leaving and with the address
    /// that was left.
    pub desconectados: Tabla<(Jugador, String)>,
}

impl View for EstadoJuego {
    type V = EstadoV;

    open spec fn view(&self) -> EstadoV {
        EstadoV {
            sesion_id: self.sesion_id@,
            fase: self.fase,
            turno_actual: self.turno_actual@,
            orden_turnos: textos(self.orden_turnos@),
            turno_index: self.turno_index as int,
            jugadores: self.jugadores@,
            addr_to_id: self.addr_to_id@,
            monstruos: bestias(self.monstruos@),
            alianzas: self.alianzas@,
            reloj: self.reloj,
            desconectados: self.desconectados@,
        }
    }
}

/// The weapons of a new player.
pub open spec fn arsenal() -> Seq<Seq<char>> {
    seq!["daga"@, "granada"@, "dinamita"@]
}

/// The damage that a weapon does before chance comes in.
pub open spec fn dano_base(arma: Seq<char>) -> Option<i32> {
    if arma == "daga"@ {
        Some(3)
    } else if arma == "granada"@ {
        Some(8)
    } else if arma == "dinamita"@ {
        Some(15)
    } else {
        None
    }
}

/// The damage that a weapon does before chance comes in.
pub fn dano_base_arma(arma: &str) -> (r: Option<i32>)
    ensures
        r == dano_base(arma@),
{
    if igual(arma, "daga") {
        Some(3)
    } else if igual(arma, "granada") {
        Some(8)
    } else if igual(arma, "dinamita") {
        Some(15)
    } else {
        None
    }
}

/// A monster that nobody has hurt.
pub open spec fn bestia(id: Seq<char>, nombre: Seq<char>, emoji: Seq<char>, hp: int) -> MonstruoV {
    MonstruoV { id, nombre, emoji, hp_max: hp, hp_actual: hp, eliminado: false }
}

/// The monsters at the start of a game.
pub open spec fn bestiario() -> Seq<MonstruoV> {
    seq![
        bestia("m1"@, "Drácula"@, "🧛"@, 30),
        bestia("m2"@, "Frankenstein"@, "🧟"@, 40),
        bestia("m3"@, "La Momia"@, "🏺"@, 25),
        bestia("m4"@, "El Fantasma"@, "👻"@, 20),
        bestia("m5"@, "La Bruja"@, "🧙"@, 28),
    ]
}

/// A monster that nobody has hurt.
fn nuevo_monstruo(id: &str, nombre: &str, emoji: &str, hp: i32) -> (r: Monstruo)
    ensures
        r@ == bestia(id@, nombre@, emoji@, hp as int),
{
    Monstruo {
        id: id.to_string(),
        nombre: nombre.to_string(),
        emoji: emoji.to_string(),
        hp_max: hp,
        hp_actual: hp,
        eliminado: false,
    }
}

/// The monsters at the start of a game.
pub fn crear_monstruos() -> (r: Vec<Monstruo>)
    ensures
        bestias(r@) == bestiario(),
{
    let mut r: Vec<Monstruo> = Vec::new();
    r.push(nuevo_monstruo("m1", "Drácula", "🧛", 30));
    r.push(nuevo_monstruo("m2", "Frankenstein", "🧟", 40));
    r.push(nuevo_monstruo("m3", "La Momia", "🏺", 25));
    r.push(nuevo_monstruo("m4", "El Fantasma", "👻", 20));
    r.push(nuevo_monstruo("m5", "La Bruja", "🧙", 28));
    assert(bestias(r@) =~= bestiario());
    r
}

/// A player who just joined.
pub open spec fn recien_llegado(id: Seq<char>, nombre: Seq<char>) -> JugadorV {
    JugadorV { id, nombre, puntos: 0, hp: 10, armas: arsenal() }
}

/// A player who just joined.
pub(crate) fn nuevo_jugador(id: String, nombre: String) -> (r: Jugador)
    ensures
        r@ == recien_llegado(id@, nombre@),
{
    let mut armas: Vec<String> = Vec::new();
    armas.push("daga".to_string());
    armas.push("granada".to_string());
    armas.push("dinamita".to_string());
    assert(textos(armas@) =~= arsenal());
    Jugador { id, nombre, puntos: 0, hp: 10, armas }
}

/// There are three weapons, each stronger than the one before, and a new player has all of them;
/// nothing else does damage.
pub proof fn ley_armas(arma: Seq<char>)
    ensures
        dano_base(arma) is Some <==> arma == "daga"@ || arma == "granada"@ || arma == "dinamita"@,
        dano_base(arma) == Some(3i32) <==> arma == "daga"@,
        dano_base(arma) == Some(8i32) <==> arma == "granada"@,
        dano_base(arma) == Some(15i32) <==> arma == "dinamita"@,
        arsenal().contains(arma) <==> dano_base(arma) is Some,
        arsenal().no_duplicates(),
{
    reveal_strlit("daga");
    reveal_strlit("granada");
    reveal_strlit("dinamita");
    assert("daga"@.len() == 4);
    assert("granada"@.len() == 7);
    assert("dinamita"@.len() == 8);
    assert(arsenal()[0] == "daga"@);
    assert(arsenal()[1] == "granada"@);
    assert(arsenal()[2] == "dinamita"@);
}

/// The monsters at the start of a game can be told apart, and each is there with its full health.
pub proof fn ley_bestiario()
    ensures
        bestiario().len() == 5,
        forall|i: int|
            0 <= i < 5 ==> {
                let m = #[trigger] bestiario()[i];
                m.hp_actual == m.hp_max && m.hp_max > 0 && !m.eliminado
            },
        forall|i: int, j: int|
            0 <= i < j < 5 ==> (#[trigger] bestiario()[i]).id != (#[trigger] bestiario()[j]).id,
        bestiario().map_values(|m: MonstruoV| m.hp_max) == seq![30int, 40, 25, 20, 28],
        bestiario().map_values(|m: MonstruoV| m.id) == seq!["m1"@, "m2"@, "m3"@, "m4"@, "m5"@],
        bestiario().map_values(|m: MonstruoV| m.nombre) == seq![
            "Drácula"@,
            "Frankenstein"@,
            "La Momia"@,
            "El Fantasma"@,
            "La Bruja"@,
        ],
        bestiario().map_values(|m: MonstruoV| m.emoji) == seq!["🧛"@, "🧟"@, "🏺"@, "👻"@, "🧙"@],
{
    reveal_strlit("m1");
    reveal_strlit("m2");
    reveal_strlit("m3");
    reveal_strlit("m4");
    reveal_strlit("m5");
    assert("m1"@[1] == '1');
    assert("m2"@[1] == '2');
    assert("m3"@[1] == '3');
    assert("m4"@[1] == '4');
    assert("m5"@[1] == '5');
    assert(bestiario().map_values(|m: MonstruoV| m.hp_max) =~= seq![30int, 40, 25, 20, 28]);
    assert(bestiario().map_values(|m: MonstruoV| m.id) =~= seq!["m1"@, "m2"@, "m3"@, "m4"@, "m5"@]);
    assert(bestiario().map_values(|m: MonstruoV| m.nombre) =~= seq![
        "Drácula"@,
        "Frankenstein"@,
        "La Momia"@,
        "El Fantasma"@,
        "La Bruja"@,
    ]);
    assert(bestiario().map_values(|m: MonstruoV| m.emoji)
        =~= seq!["🧛"@, "🧟"@, "🏺"@, "👻"@, "🧙"@]);
}

/// The phases have different names in messages.
pub proof fn ley_nombre_fase(a: Fase, b: Fase)
    ensures
        a.nombre() == b.nombre() ==> a == b,
        a.nombre() == "espera"@ <==> a == Fase::Espera,
        a.nombre() == "juego"@ <==> a == Fase::Juego,
        a.nombre() == "fin"@ <==> a == Fase::Fin,
{
    reveal_strlit("espera");
    reveal_strlit("juego");
    reveal_strlit("fin");
    assert("espera"@.len() == 6);
    assert("juego"@.len() == 5);
    assert("fin"@.len() == 3);
}

/// How many monsters of a list are gone.
pub open spec fn eliminados(ms: Seq<MonstruoV>) -> nat
    decreases ms.len(),
{
    if ms.len() == 0 {
        0
    } else {
        eliminados(ms.drop_last()) + if ms.last().eliminado {
            1nat
        } else {
            0nat
        }
    }
}

/// Whether every monster of a list is gone.
pub open spec fn todos_eliminados(ms: Seq<MonstruoV>) -> bool {
    forall|i: int| 0 <= i < ms.len() ==> (#[trigger] ms[i]).eliminado
}

/// A monster that started as `base`: it has between none and all of its health, and is gone
/// exactly when none is left.
pub open spec fn monstruo_valido(m: MonstruoV, base: MonstruoV) -> bool {
    &&& m.id == base.id
    &&& m.nombre == base.nombre
    &&& m.emoji == base.emoji
    &&& m.hp_max == base.hp_max
    &&& 0 <= m.hp_actual <= m.hp_max
    &&& m.eliminado <==> m.hp_actual == 0
}

/// The monsters of a game that was started.
pub open spec fn monstruos_validos(ms: Seq<MonstruoV>) -> bool {
    &&& ms.len() == bestiario().len()
    &&& forall|i: int| 0 <= i < ms.len() ==> monstruo_valido(#[trigger] ms[i], bestiario()[i])
}

/// A player of a game in which `n` monsters are gone: all weapons, and ten health points plus at
/// most two for each of these monsters.
pub open spec fn jugador_valido(j: JugadorV, n: nat) -> bool {
    &&& j.armas == arsenal()
    &&& 10 <= j.hp <= 10 + 2 * n
}

/// What holds of the turns and monsters once a game was started.
pub open spec fn en_marcha(e: EstadoV) -> bool {
    &&& monstruos_validos(e.monstruos)
    &&& e.orden_turnos.len() >= 2
    &&& e.orden_turnos.no_duplicates()
    &&& 0 <= e.turno_index < e.orden_turnos.len()
    &&& e.orden_turnos.contains(e.turno_actual)
}

/// What holds of every state of a game.
pub open spec fn valido(e: EstadoV) -> bool {
    &&& e.jugadores.valida()
    &&& e.addr_to_id.valida()
    &&& e.alianzas.valida()
    &&& e.desconectados.valida()
    &&& forall|k: Seq<char>| #[trigger]
        e.jugadores.contiene(k) ==> e.jugadores.valor(k).id == k && jugador_valido(
            e.jugadores.valor(k),
            eliminados(e.monstruos),
        )
    &&& forall|n: Seq<char>| #[trigger]
        e.desconectados.contiene(n) ==> e.desconectados.valor(n).0.nombre == n && jugador_valido(
            e.desconectados.valor(n).0,
            eliminados(e.monstruos),
        )
    &&& match e.fase {
        Fase::Espera => {
            &&& e.orden_turnos.len() == 0
            &&& e.turno_index == 0
            &&& e.turno_actual.len() == 0
            &&& e.monstruos.len() == 0
            &&& !e.reloj
            &&& e.desconectados.claves.len() == 0
        },
        Fase::Juego => en_marcha(e) && !todos_eliminados(e.monstruos) && e.reloj,
        Fase::Fin => en_marcha(e) && todos_eliminados(e.monstruos) && !e.reloj,
    }
}

/// What the rules need of a state to be carried out on it: that no table holds a key twice, and
/// that the position of the turn can be advanced.
pub open spec fn operable(e: EstadoV) -> bool {
    &&& e.jugadores.valida()
    &&& e.addr_to_id.valida()
    &&& e.alianzas.valida()
    &&& e.desconectados.valida()
    &&& e.orden_turnos.len() == 0 || e.turno_index < e.orden_turnos.len() || e.turno_index
        < usize::MAX
}

/// The rules can be carried out on every state of a game.
pub proof fn ley_operable(e: EstadoV)
    requires
        valido(e),
    ensures
        operable(e),
{
}

/// The state before anybody joined.
pub open spec fn inicial(sesion_id: Seq<char>) -> EstadoV {
    EstadoV {
        sesion_id,
        fase: Fase::Espera,
        turno_actual: seq![],
        orden_turnos: seq![],
        turno_index: 0,
        jugadores: TablaV::vacia(),
        addr_to_id: TablaV::vacia(),
        monstruos: seq![],
        alianzas: TablaV::vacia(),
        reloj: false,
        desconectados: TablaV::vacia(),
    }
}

/// Before anybody joined there are no players, addresses, monsters, alliances, absences or turns,
/// no timer runs, and only the session is known.
pub proof fn ley_inicial(sesion_id: Seq<char>)
    ensures
        ({
            let e = inicial(sesion_id);
            &&& e.sesion_id == sesion_id
            &&& e.fase == Fase::Espera
            &&& e.turno_actual.len() == 0
            &&& e.orden_turnos.len() == 0
            &&& e.turno_index == 0
            &&& e.jugadores.claves.len() == 0 && e.jugadores.valida()
            &&& e.addr_to_id.claves.len() == 0 && e.addr_to_id.valida()
            &&& e.monstruos.len() == 0
            &&& e.alianzas.claves.len() == 0 && e.alianzas.valida()
            &&& !e.reloj
            &&& e.desconectados.claves.len() == 0 && e.desconectados.valida()
        }),
{
}

impl EstadoJuego {
    /// The state before anybody joined.
    pub fn nuevo(sesion_id: String) -> (e: Self)
        ensures
            e@ == inicial(sesion_id@),
            valido(e@),
    {
        let e = EstadoJuego {
            sesion_id,
            fase: Fase::Espera,
            turno_actual: String::new(),
            orden_turnos: Vec::new(),
            turno_index: 0,
            jugadores: Tabla::nueva(),
            addr_to_id: Tabla::nueva(),
            monstruos: Vec::new(),
            alianzas: Tabla::nueva(),
            reloj: false,
            desconectados: Tabla::nueva(),
        };
        assert(e@.orden_turnos =~= seq![]);
        assert(e@.monstruos =~= seq![]);
        e
    }
}

} // verus!
