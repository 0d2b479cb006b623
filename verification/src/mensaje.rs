//! The messages that the server sends, and their JSON form.

use vstd::prelude::*;
use crate::json::{
    arbol, arboles, campos_de, json_bool, json_entero, json_escribir, json_escrito, json_lista,
    json_objeto, json_texto, nombres_de, Json,
};
use crate::modelo::{
    bestias, EstadoJuego, EstadoV, Jugador, JugadorV, Miembros, Monstruo, MonstruoV,
    GRACIA_SEGUNDOS, TURNO_SEGUNDOS,
};
use crate::tabla::{Tabla, TablaV};
use crate::texto::textos;

verus! {

/// A list of strings in JSON.
pub open spec fn json_textos(l: Seq<Seq<char>>) -> Json {
    Json::Lista(Seq::new(l.len(), |i: int| Json::Texto(l[i])))
}

/// A player in JSON.
pub open spec fn json_jugador(j: JugadorV) -> Json {
    Json::Objeto(
        seq![
            ("id"@, Json::Texto(j.id)),
            ("nombre"@, Json::Texto(j.nombre)),
            ("puntos"@, Json::Entero(j.puntos)),
            ("hp"@, Json::Entero(j.hp)),
            ("armas"@, json_textos(j.armas)),
        ],
    )
}

/// A list of players in JSON.
pub open spec fn json_jugadores(js: Seq<JugadorV>) -> Json {
    Json::Lista(Seq::new(js.len(), |i: int| json_jugador(js[i])))
}

/// A monster in JSON.
pub open spec fn json_monstruo(m: MonstruoV) -> Json {
    Json::Objeto(
        seq![
            ("id"@, Json::Texto(m.id)),
            ("nombre"@, Json::Texto(m.nombre)),
            ("emoji"@, Json::Texto(m.emoji)),
            ("hp_max"@, Json::Entero(m.hp_max)),
            ("hp_actual"@, Json::Entero(m.hp_actual)),
            ("eliminado"@, Json::Bool(m.eliminado)),
        ],
    )
}

/// A list of monsters in JSON.
pub open spec fn json_monstruos(ms: Seq<MonstruoV>) -> Json {
    Json::Lista(Seq::new(ms.len(), |i: int| json_monstruo(ms[i])))
}

/// The alliances in JSON: the members of each, by its name.
pub open spec fn json_alianzas(a: TablaV<Seq<Seq<char>>>) -> Json {
    Json::Objeto(
        Seq::new(a.claves.len(), |i: int| (a.claves[i], json_textos(a.datos[a.claves[i]]))),
    )
}

/// The answer to a request that cannot be met.
pub open spec fn json_error(mensaje: Seq<char>) -> Json {
    Json::Objeto(seq![("tipo"@, Json::Texto("error"@)), ("mensaje"@, Json::Texto(mensaje))])
}

/// The news that a player came back.
pub open spec fn json_reconectado(nombre: Seq<char>) -> Json {
    Json::Objeto(
        seq![("tipo"@, Json::Texto("jugador_reconectado"@)), ("nombre"@, Json::Texto(nombre))],
    )
}

/// The news that a player left, and for how many seconds the place is kept.
pub open spec fn json_desconectado(nombre: Seq<char>) -> Json {
    Json::Objeto(
        seq![
            ("tipo"@, Json::Texto("jugador_desconectado"@)),
            ("nombre"@, Json::Texto(nombre)),
            ("gracia"@, Json::Entero(GRACIA_SEGUNDOS as int)),
        ],
    )
}

/// The news that a player joined.
pub open spec fn json_unido(jugador: JugadorV, jugadores: Seq<JugadorV>) -> Json {
    Json::Objeto(
        seq![
            ("tipo"@, Json::Texto("jugador_unido"@)),
            ("jugador"@, json_jugador(jugador)),
            ("jugadores"@, json_jugadores(jugadores)),
        ],
    )
}

/// The state of the game.
pub open spec fn json_estado(e: EstadoV) -> Json {
    Json::Objeto(
        seq![
            ("tipo"@, Json::Texto("estado_juego"@)),
            ("jugadores"@, json_jugadores(e.jugadores.valores())),
            ("monstruos"@, json_monstruos(e.monstruos)),
            ("turno_actual"@, Json::Texto(e.turno_actual)),
            ("fase"@, Json::Texto(e.fase.nombre())),
            ("alianzas"@, json_alianzas(e.alianzas)),
            ("tiempo_turno"@, Json::Entero(TURNO_SEGUNDOS as int)),
        ],
    )
}

/// The news that the game started.
pub open spec fn json_iniciado(e: EstadoV) -> Json {
    Json::Objeto(
        seq![
            ("tipo"@, Json::Texto("juego_iniciado"@)),
            ("monstruos"@, json_monstruos(e.monstruos)),
            ("turno_actual"@, Json::Texto(e.turno_actual)),
            ("jugadores"@, json_jugadores(e.jugadores.valores())),
            ("tiempo_turno"@, Json::Entero(TURNO_SEGUNDOS as int)),
        ],
    )
}

/// The news that an alliance was formed.
pub open spec fn json_alianza_formada(a: TablaV<Seq<Seq<char>>>) -> Json {
    Json::Objeto(
        seq![("tipo"@, Json::Texto("alianza_formada"@)), ("alianzas"@, json_alianzas(a))],
    )
}

/// The news that a monster was hit.
pub open spec fn json_ataque(
    monstruo: Seq<char>,
    atacante: Seq<char>,
    arma: Seq<char>,
    dano: int,
    dano_base: int,
    critico: bool,
    hp_restante: int,
) -> Json {
    Json::Objeto(
        seq![
            ("tipo"@, Json::Texto("ataque"@)),
            ("monstruo"@, Json::Texto(monstruo)),
            ("atacante"@, Json::Texto(atacante)),
            ("arma"@, Json::Texto(arma)),
            ("dano"@, Json::Entero(dano)),
            ("dano_base"@, Json::Entero(dano_base)),
            ("critico"@, Json::Bool(critico)),
            ("hp_restante"@, Json::Entero(hp_restante)),
        ],
    )
}

/// The news that a monster is gone.
pub open spec fn json_eliminado(
    monstruo: Seq<char>,
    eliminado_por: Seq<char>,
    puntos_ganados: int,
) -> Json {
    Json::Objeto(
        seq![
            ("tipo"@, Json::Texto("monstruo_eliminado"@)),
            ("monstruo"@, Json::Texto(monstruo)),
            ("eliminado_por"@, Json::Texto(eliminado_por)),
            ("puntos_ganados"@, Json::Entero(puntos_ganados)),
        ],
    )
}

/// The news that the game is over.
pub open spec fn json_fin(ganador: Seq<char>, jugadores: Seq<JugadorV>) -> Json {
    Json::Objeto(
        seq![
            ("tipo"@, Json::Texto("fin_juego"@)),
            ("ganador"@, Json::Texto(ganador)),
            ("jugadores"@, json_jugadores(jugadores)),
        ],
    )
}

/// The answer to an exchange that cannot be made.
pub open spec fn json_rechazo(razon: Seq<char>) -> Json {
    Json::Objeto(
        seq![
            ("tipo"@, Json::Texto("intercambio"@)),
            ("exitoso"@, Json::Bool(false)),
            ("razon"@, Json::Texto(razon)),
        ],
    )
}

/// The news that an exchange was made.
pub open spec fn json_intercambio(jugadores: Seq<JugadorV>) -> Json {
    Json::Objeto(
        seq![
            ("tipo"@, Json::Texto("intercambio"@)),
            ("exitoso"@, Json::Bool(true)),
            ("jugadores"@, json_jugadores(jugadores)),
        ],
    )
}

pub(crate) proof fn lema_claves_jugador()
    ensures
        seq!["id"@, "nombre"@, "puntos"@, "hp"@, "armas"@].no_duplicates(),
{
    reveal_strlit("id");
    reveal_strlit("nombre");
    reveal_strlit("puntos");
    reveal_strlit("hp");
    reveal_strlit("armas");
    assert("id"@.len() == 2);
    assert("nombre"@.len() == 6);
    assert("puntos"@.len() == 6);
    assert("hp"@.len() == 2);
    assert("armas"@.len() == 5);
    assert("id"@[0] == 'i');
    assert("nombre"@[0] == 'n');
    assert("puntos"@[0] == 'p');
    assert("hp"@[0] == 'h');
}

pub(crate) proof fn lema_claves_monstruo()
    ensures
        seq!["id"@, "nombre"@, "emoji"@, "hp_max"@, "hp_actual"@, "eliminado"@].no_duplicates(),
{
    reveal_strlit("id");
    reveal_strlit("nombre");
    reveal_strlit("emoji");
    reveal_strlit("hp_max");
    reveal_strlit("hp_actual");
    reveal_strlit("eliminado");
    assert("id"@.len() == 2);
    assert("nombre"@.len() == 6);
    assert("emoji"@.len() == 5);
    assert("hp_max"@.len() == 6);
    assert("hp_actual"@.len() == 9);
    assert("eliminado"@.len() == 9);
    assert("nombre"@[0] == 'n');
    assert("hp_max"@[0] == 'h');
    assert("hp_actual"@[0] == 'h');
    assert("eliminado"@[0] == 'e');
}

pub(crate) proof fn lema_claves_error()
    ensures
        seq!["tipo"@, "mensaje"@].no_duplicates(),
{
    reveal_strlit("tipo");
    reveal_strlit("mensaje");
    assert("tipo"@.len() == 4);
    assert("mensaje"@.len() == 7);
}

pub(crate) proof fn lema_claves_reconectado()
    ensures
        seq!["tipo"@, "nombre"@].no_duplicates(),
{
    reveal_strlit("tipo");
    reveal_strlit("nombre");
    assert("tipo"@.len() == 4);
    assert("nombre"@.len() == 6);
}

pub(crate) proof fn lema_claves_desconectado()
    ensures
        seq!["tipo"@, "nombre"@, "gracia"@].no_duplicates(),
{
    reveal_strlit("tipo");
    reveal_strlit("nombre");
    reveal_strlit("gracia");
    assert("tipo"@.len() == 4);
    assert("nombre"@.len() == 6);
    assert("gracia"@.len() == 6);
    assert("nombre"@[0] == 'n');
    assert("gracia"@[0] == 'g');
}

pub(crate) proof fn lema_claves_unido()
    ensures
        seq!["tipo"@, "jugador"@, "jugadores"@].no_duplicates(),
{
    reveal_strlit("tipo");
    reveal_strlit("jugador");
    reveal_strlit("jugadores");
    assert("tipo"@.len() == 4);
    assert("jugador"@.len() == 7);
    assert("jugadores"@.len() == 9);
}

pub(crate) proof fn lema_claves_estado()
    ensures
        seq![
            "tipo"@, "jugadores"@, "monstruos"@, "turno_actual"@, "fase"@, "alianzas"@,
            "tiempo_turno"@,
        ].no_duplicates(),
{
    reveal_strlit("tipo");
    reveal_strlit("jugadores");
    reveal_strlit("monstruos");
    reveal_strlit("turno_actual");
    reveal_strlit("fase");
    reveal_strlit("alianzas");
    reveal_strlit("tiempo_turno");
    assert("tipo"@.len() == 4);
    assert("jugadores"@.len() == 9);
    assert("monstruos"@.len() == 9);
    assert("turno_actual"@.len() == 12);
    assert("fase"@.len() == 4);
    assert("alianzas"@.len() == 8);
    assert("tiempo_turno"@.len() == 12);
    assert("tipo"@[0] == 't');
    assert("jugadores"@[0] == 'j');
    assert("monstruos"@[0] == 'm');
    assert("turno_actual"@[1] == 'u');
    assert("fase"@[0] == 'f');
    assert("tiempo_turno"@[1] == 'i');
}

pub(crate) proof fn lema_claves_iniciado()
    ensures
        seq!["tipo"@, "monstruos"@, "turno_actual"@, "jugadores"@, "tiempo_turno"@].no_duplicates(),
{
    reveal_strlit("tipo");
    reveal_strlit("monstruos");
    reveal_strlit("turno_actual");
    reveal_strlit("jugadores");
    reveal_strlit("tiempo_turno");
    assert("tipo"@.len() == 4);
    assert("monstruos"@.len() == 9);
    assert("turno_actual"@.len() == 12);
    assert("jugadores"@.len() == 9);
    assert("tiempo_turno"@.len() == 12);
    assert("monstruos"@[0] == 'm');
    assert("turno_actual"@[1] == 'u');
    assert("jugadores"@[0] == 'j');
    assert("tiempo_turno"@[1] == 'i');
}

pub(crate) proof fn lema_claves_alianza()
    ensures
        seq!["tipo"@, "alianzas"@].no_duplicates(),
{
    reveal_strlit("tipo");
    reveal_strlit("alianzas");
    assert("tipo"@.len() == 4);
    assert("alianzas"@.len() == 8);
}

pub(crate) proof fn lema_claves_ataque()
    ensures
        seq![
            "tipo"@, "monstruo"@, "atacante"@, "arma"@, "dano"@, "dano_base"@, "critico"@,
            "hp_restante"@,
        ].no_duplicates(),
{
    reveal_strlit("tipo");
    reveal_strlit("monstruo");
    reveal_strlit("atacante");
    reveal_strlit("arma");
    reveal_strlit("dano");
    reveal_strlit("dano_base");
    reveal_strlit("critico");
    reveal_strlit("hp_restante");
    assert("tipo"@.len() == 4);
    assert("monstruo"@.len() == 8);
    assert("atacante"@.len() == 8);
    assert("arma"@.len() == 4);
    assert("dano"@.len() == 4);
    assert("dano_base"@.len() == 9);
    assert("critico"@.len() == 7);
    assert("hp_restante"@.len() == 11);
    assert("tipo"@[0] == 't');
    assert("monstruo"@[0] == 'm');
    assert("atacante"@[0] == 'a');
    assert("arma"@[0] == 'a');
    assert("dano"@[0] == 'd');
}

pub(crate) proof fn lema_claves_eliminado()
    ensures
        seq!["tipo"@, "monstruo"@, "eliminado_por"@, "puntos_ganados"@].no_duplicates(),
{
    reveal_strlit("tipo");
    reveal_strlit("monstruo");
    reveal_strlit("eliminado_por");
    reveal_strlit("puntos_ganados");
    assert("tipo"@.len() == 4);
    assert("monstruo"@.len() == 8);
    assert("eliminado_por"@.len() == 13);
    assert("puntos_ganados"@.len() == 14);
}

pub(crate) proof fn lema_claves_fin()
    ensures
        seq!["tipo"@, "ganador"@, "jugadores"@].no_duplicates(),
{
    reveal_strlit("tipo");
    reveal_strlit("ganador");
    reveal_strlit("jugadores");
    assert("tipo"@.len() == 4);
    assert("ganador"@.len() == 7);
    assert("jugadores"@.len() == 9);
}

pub(crate) proof fn lema_claves_rechazo()
    ensures
        seq!["tipo"@, "exitoso"@, "razon"@].no_duplicates(),
{
    reveal_strlit("tipo");
    reveal_strlit("exitoso");
    reveal_strlit("razon");
    assert("tipo"@.len() == 4);
    assert("exitoso"@.len() == 7);
    assert("razon"@.len() == 5);
}

pub(crate) proof fn lema_claves_intercambio()
    ensures
        seq!["tipo"@, "exitoso"@, "jugadores"@].no_duplicates(),
{
    reveal_strlit("tipo");
    reveal_strlit("exitoso");
    reveal_strlit("jugadores");
    assert("tipo"@.len() == 4);
    assert("exitoso"@.len() == 7);
    assert("jugadores"@.len() == 9);
}


/// The fields of an object that is being built.
struct Campos {
    lista: Vec<(String, serde_json::Value)>,
}

impl Campos {
    /// No fields yet.
    fn nuevos() -> (r: Self)
        ensures
            nombres_de(r.lista@) == Seq::<Seq<char>>::empty(),
            campos_de(r.lista@) == Seq::<(Seq<char>, Json)>::empty(),
    {
        let r = Campos { lista: Vec::new() };
        assert(nombres_de(r.lista@) =~= Seq::<Seq<char>>::empty());
        assert(campos_de(r.lista@) =~= Seq::<(Seq<char>, Json)>::empty());
        r
    }

    /// The fields with one more behind them.
    fn con(self, nombre: &str, valor: serde_json::Value) -> (r: Self)
        ensures
            nombres_de(r.lista@) == nombres_de(self.lista@).push(nombre@),
            campos_de(r.lista@) == campos_de(self.lista@).push((nombre@, arbol(valor))),
    {
        let ghost antes = self.lista@;
        let mut lista = self.lista;
        lista.push((nombre.to_string(), valor));
        assert(nombres_de(lista@) =~= nombres_de(antes).push(nombre@));
        assert(campos_de(lista@) =~= campos_de(antes).push((nombre@, arbol(valor))));
        Campos { lista }
    }

    /// The object with these fields.
    fn objeto(self) -> (r: serde_json::Value)
        requires
            nombres_de(self.lista@).no_duplicates(),
        ensures
            arbol(r) == Json::Objeto(campos_de(self.lista@)),
    {
        json_objeto(self.lista)
    }
}

fn valor_textos(l: &Vec<String>) -> (r: serde_json::Value)
    ensures
        arbol(r) == json_textos(textos(l@)),
{
    let mut vs: Vec<serde_json::Value> = Vec::new();
    let mut i: usize = 0;
    while i < l.len()
        invariant
            i <= l.len(),
            vs@.len() == i,
            forall|j: int| 0 <= j < i ==> arbol(#[trigger] vs@[j]) == Json::Texto(l@[j]@),
        decreases l.len() - i,
    {
        vs.push(json_texto(l[i].as_str()));
        i = i + 1;
    }
    assert(Json::Lista(arboles(vs@)) == json_textos(textos(l@))) by {
        assert(arboles(vs@) =~= Seq::new(textos(l@).len(), |j: int| Json::Texto(textos(l@)[j])));
    }
    json_lista(vs)
}

fn valor_jugador(j: &Jugador) -> (r: serde_json::Value)
    ensures
        arbol(r) == json_jugador(j@),
{
    let campos = Campos::nuevos().con("id", json_texto(j.id.as_str())).con(
        "nombre",
        json_texto(j.nombre.as_str()),
    ).con("puntos", json_entero(j.puntos as i64)).con("hp", json_entero(j.hp as i64)).con(
        "armas",
        valor_textos(&j.armas),
    );
    proof {
        lema_claves_jugador();
        assert(nombres_de(campos.lista@) =~= seq!["id"@, "nombre"@, "puntos"@, "hp"@, "armas"@]);
        assert(Json::Objeto(campos_de(campos.lista@)) == json_jugador(j@)) by {
            assert(campos_de(campos.lista@) =~= json_jugador(j@)->Objeto_0);
        }
    }
    campos.objeto()
}

/// The players of a table, in the order of their keys.
fn valor_jugadores(t: &Tabla<Jugador>) -> (r: serde_json::Value)
    requires
        t@.valida(),
    ensures
        arbol(r) == json_jugadores(t@.valores()),
{
    let mut vs: Vec<serde_json::Value> = Vec::new();
    let mut i: usize = 0;
    while i < t.len()
        invariant
            t@.valida(),
            i <= t@.claves.len(),
            vs@.len() == i,
            forall|j: int|
                0 <= j < i ==> arbol(#[trigger] vs@[j]) == json_jugador(t@.valores()[j]),
        decreases t@.claves.len() - i,
    {
        vs.push(valor_jugador(t.valor_en(i)));
        i = i + 1;
    }
    assert(Json::Lista(arboles(vs@)) == json_jugadores(t@.valores())) by {
        assert(arboles(vs@) =~= json_jugadores(t@.valores())->Lista_0);
    }
    json_lista(vs)
}

fn valor_monstruo(m: &Monstruo) -> (r: serde_json::Value)
    ensures
        arbol(r) == json_monstruo(m@),
{
    let campos = Campos::nuevos().con("id", json_texto(m.id.as_str())).con(
        "nombre",
        json_texto(m.nombre.as_str()),
    ).con("emoji", json_texto(m.emoji.as_str())).con("hp_max", json_entero(m.hp_max as i64)).con(
        "hp_actual",
        json_entero(m.hp_actual as i64),
    ).con("eliminado", json_bool(m.eliminado));
    proof {
        lema_claves_monstruo();
        assert(nombres_de(campos.lista@) =~= seq![
            "id"@,
            "nombre"@,
            "emoji"@,
            "hp_max"@,
            "hp_actual"@,
            "eliminado"@,
        ]);
        assert(Json::Objeto(campos_de(campos.lista@)) == json_monstruo(m@)) by {
            assert(campos_de(campos.lista@) =~= json_monstruo(m@)->Objeto_0);
        }
    }
    campos.objeto()
}

fn valor_monstruos(ms: &Vec<Monstruo>) -> (r: serde_json::Value)
    ensures
        arbol(r) == json_monstruos(bestias(ms@)),
{
    let mut vs: Vec<serde_json::Value> = Vec::new();
    let mut i: usize = 0;
    while i < ms.len()
        invariant
            i <= ms.len(),
            vs@.len() == i,
            forall|j: int| 0 <= j < i ==> arbol(#[trigger] vs@[j]) == json_monstruo(ms@[j]@),
        decreases ms.len() - i,
    {
        vs.push(valor_monstruo(&ms[i]));
        i = i + 1;
    }
    assert(Json::Lista(arboles(vs@)) == json_monstruos(bestias(ms@))) by {
        assert(arboles(vs@) =~= json_monstruos(bestias(ms@))->Lista_0);
    }
    json_lista(vs)
}

fn valor_alianzas(a: &Tabla<Miembros>) -> (r: serde_json::Value)
    requires
        a@.valida(),
    ensures
        arbol(r) == json_alianzas(a@),
{
    let mut campos = Campos::nuevos();
    let mut i: usize = 0;
    while i < a.len()
        invariant
            a@.valida(),
            i <= a@.claves.len(),
            nombres_de(campos.lista@) =~= a@.claves.take(i as int),
            campos_de(campos.lista@) =~= json_alianzas(a@)->Objeto_0.take(i as int),
        decreases a@.claves.len() - i,
    {
        campos = campos.con(a.clave(i), valor_textos(&a.valor_en(i).lista));
        i = i + 1;
    }
    assert(nombres_de(campos.lista@) =~= a@.claves);
    assert(Json::Objeto(campos_de(campos.lista@)) == json_alianzas(a@)) by {
        assert(campos_de(campos.lista@) =~= json_alianzas(a@)->Objeto_0);
    }
    campos.objeto()
}

/// A message that the server sends.
pub struct Mensaje {
    valor: serde_json::Value,
}

impl View for Mensaje {
    type V = Json;

    closed spec fn view(&self) -> Json {
        arbol(self.valor)
    }
}

impl Mensaje {
    /// The text of the message.
    pub fn texto(&self) -> (r: String)
        ensures
            r@ == json_escrito(self@),
    {
        json_escribir(&self.valor)
    }

    /// The answer to a request that cannot be met.
    pub fn error(mensaje: &str) -> (r: Self)
        ensures
            r@ == json_error(mensaje@),
    {
        let campos = Campos::nuevos()
            .con("tipo", json_texto("error"))
            .con("mensaje", json_texto(mensaje));
        proof {
            lema_claves_error();
            let json = json_error(mensaje@);
            assert(nombres_de(campos.lista@) =~= seq!["tipo"@, "mensaje"@]);
            assert(campos_de(campos.lista@) =~= json->Objeto_0);
        }
        Mensaje { valor: campos.objeto() }
    }

    /// The news that a player came back.
    pub fn reconectado(nombre: &str) -> (r: Self)
        ensures
            r@ == json_reconectado(nombre@),
    {
        let campos = Campos::nuevos()
            .con("tipo", json_texto("jugador_reconectado"))
            .con("nombre", json_texto(nombre));
        proof {
            lema_claves_reconectado();
            let json = json_reconectado(nombre@);
            assert(nombres_de(campos.lista@) =~= seq!["tipo"@, "nombre"@]);
            assert(campos_de(campos.lista@) =~= json->Objeto_0);
        }
        Mensaje { valor: campos.objeto() }
    }

    /// The news that a player left.
    pub fn desconectado(nombre: &str) -> (r: Self)
        ensures
            r@ == json_desconectado(nombre@),
    {
        let campos = Campos::nuevos()
            .con("tipo", json_texto("jugador_desconectado"))
            .con("nombre", json_texto(nombre))
            .con("gracia", json_entero(GRACIA_SEGUNDOS as i64));
        proof {
            lema_claves_desconectado();
            let json = json_desconectado(nombre@);
            assert(nombres_de(campos.lista@) =~= seq!["tipo"@, "nombre"@, "gracia"@]);
            assert(campos_de(campos.lista@) =~= json->Objeto_0);
        }
        Mensaje { valor: campos.objeto() }
    }

    /// The news that a player joined.
    pub fn unido(jugador: &Jugador, jugadores: &Tabla<Jugador>) -> (r: Self)
        requires
            jugadores@.valida(),
        ensures
            r@ == json_unido(jugador@, jugadores@.valores()),
    {
        let campos = Campos::nuevos()
            .con("tipo", json_texto("jugador_unido"))
            .con("jugador", valor_jugador(jugador))
            .con("jugadores", valor_jugadores(jugadores));
        proof {
            lema_claves_unido();
            let json = json_unido(jugador@, jugadores@.valores());
            assert(nombres_de(campos.lista@) =~= seq!["tipo"@, "jugador"@, "jugadores"@]);
            assert(campos_de(campos.lista@) =~= json->Objeto_0);
        }
        Mensaje { valor: campos.objeto() }
    }

    /// The state of the game.
    pub fn estado(e: &EstadoJuego) -> (r: Self)
        requires
            e@.jugadores.valida(),
            e@.alianzas.valida(),
        ensures
            r@ == json_estado(e@),
    {
        let campos = Campos::nuevos()
            .con("tipo", json_texto("estado_juego"))
            .con("jugadores", valor_jugadores(&e.jugadores))
            .con("monstruos", valor_monstruos(&e.monstruos))
            .con("turno_actual", json_texto(e.turno_actual.as_str()))
            .con("fase", json_texto(e.fase.texto()))
            .con("alianzas", valor_alianzas(&e.alianzas))
            .con("tiempo_turno", json_entero(TURNO_SEGUNDOS as i64));
        proof {
            lema_claves_estado();
            let json = json_estado(e@);
            assert(nombres_de(campos.lista@) =~= seq![
                "tipo"@, "jugadores"@, "monstruos"@, "turno_actual"@, "fase"@, "alianzas"@,
                "tiempo_turno"@,
            ]);
            assert(campos_de(campos.lista@) =~= json->Objeto_0);
        }
        Mensaje { valor: campos.objeto() }
    }

    /// The news that the game started.
    pub fn iniciado(e: &EstadoJuego) -> (r: Self)
        requires
            e@.jugadores.valida(),
        ensures
            r@ == json_iniciado(e@),
    {
        let campos = Campos::nuevos()
            .con("tipo", json_texto("juego_iniciado"))
            .con("monstruos", valor_monstruos(&e.monstruos))
            .con("turno_actual", json_texto(e.turno_actual.as_str()))
            .con("jugadores", valor_jugadores(&e.jugadores))
            .con("tiempo_turno", json_entero(TURNO_SEGUNDOS as i64));
        proof {
            lema_claves_iniciado();
            let json = json_iniciado(e@);
            assert(nombres_de(campos.lista@) =~= seq![
                "tipo"@, "monstruos"@, "turno_actual"@, "jugadores"@, "tiempo_turno"@,
            ]);
            assert(campos_de(campos.lista@) =~= json->Objeto_0);
        }
        Mensaje { valor: campos.objeto() }
    }

    /// The news that an alliance was formed.
    pub fn alianza_formada(a: &Tabla<Miembros>) -> (r: Self)
        requires
            a@.valida(),
        ensures
            r@ == json_alianza_formada(a@),
    {
        let campos = Campos::nuevos()
            .con("tipo", json_texto("alianza_formada"))
            .con("alianzas", valor_alianzas(a));
        proof {
            lema_claves_alianza();
            let json = json_alianza_formada(a@);
            assert(nombres_de(campos.lista@) =~= seq!["tipo"@, "alianzas"@]);
            assert(campos_de(campos.lista@) =~= json->Objeto_0);
        }
        Mensaje { valor: campos.objeto() }
    }

    /// The news that a monster was hit.
    pub fn ataque(
        monstruo: &str,
        atacante: &str,
        arma: &str,
        dano: i32,
        dano_base: i32,
        critico: bool,
        hp_restante: i32,
    ) -> (r: Self)
        ensures
            r@ == json_ataque(
                monstruo@,
                atacante@,
                arma@,
                dano as int,
                dano_base as int,
                critico,
                hp_restante as int,
            ),
    {
        let campos = Campos::nuevos()
            .con("tipo", json_texto("ataque"))
            .con("monstruo", json_texto(monstruo))
            .con("atacante", json_texto(atacante))
            .con("arma", json_texto(arma))
            .con("dano", json_entero(dano as i64))
            .con("dano_base", json_entero(dano_base as i64))
            .con("critico", json_bool(critico))
            .con("hp_restante", json_entero(hp_restante as i64));
        proof {
            lema_claves_ataque();
            let json = json_ataque(
                monstruo@,
                atacante@,
                arma@,
                dano as int,
                dano_base as int,
                critico,
                hp_restante as int,
            );
            assert(nombres_de(campos.lista@) =~= seq![
                "tipo"@, "monstruo"@, "atacante"@, "arma"@, "dano"@, "dano_base"@, "critico"@,
                "hp_restante"@,
            ]);
            assert(campos_de(campos.lista@) =~= json->Objeto_0);
        }
        Mensaje { valor: campos.objeto() }
    }

    /// The news that a monster is gone.
    pub fn eliminado(monstruo: &str, eliminado_por: &str, puntos_ganados: i32) -> (r: Self)
        ensures
            r@ == json_eliminado(monstruo@, eliminado_por@, puntos_ganados as int),
    {
        let campos = Campos::nuevos()
            .con("tipo", json_texto("monstruo_eliminado"))
            .con("monstruo", json_texto(monstruo))
            .con("eliminado_por", json_texto(eliminado_por))
            .con("puntos_ganados", json_entero(puntos_ganados as i64));
        proof {
            lema_claves_eliminado();
            let json = json_eliminado(monstruo@, eliminado_por@, puntos_ganados as int);
            assert(nombres_de(campos.lista@) =~= seq![
                "tipo"@, "monstruo"@, "eliminado_por"@, "puntos_ganados"@,
            ]);
            assert(campos_de(campos.lista@) =~= json->Objeto_0);
        }
        Mensaje { valor: campos.objeto() }
    }

    /// The news that the game is over.
    pub fn fin(ganador: &str, jugadores: &Tabla<Jugador>) -> (r: Self)
        requires
            jugadores@.valida(),
        ensures
            r@ == json_fin(ganador@, jugadores@.valores()),
    {
        let campos = Campos::nuevos()
            .con("tipo", json_texto("fin_juego"))
            .con("ganador", json_texto(ganador))
            .con("jugadores", valor_jugadores(jugadores));
        proof {
            lema_claves_fin();
            let json = json_fin(ganador@, jugadores@.valores());
            assert(nombres_de(campos.lista@) =~= seq!["tipo"@, "ganador"@, "jugadores"@]);
            assert(campos_de(campos.lista@) =~= json->Objeto_0);
        }
        Mensaje { valor: campos.objeto() }
    }

    /// The answer to an exchange that cannot be made.
    pub fn rechazo(razon: &str) -> (r: Self)
        ensures
            r@ == json_rechazo(razon@),
    {
        let campos = Campos::nuevos()
            .con("tipo", json_texto("intercambio"))
            .con("exitoso", json_bool(false))
            .con("razon", json_texto(razon));
        proof {
            lema_claves_rechazo();
            let json = json_rechazo(razon@);
            assert(nombres_de(campos.lista@) =~= seq!["tipo"@, "exitoso"@, "razon"@]);
            assert(campos_de(campos.lista@) =~= json->Objeto_0);
        }
        Mensaje { valor: campos.objeto() }
    }

    /// The news that an exchange was made.
    pub fn intercambio(jugadores: &Tabla<Jugador>) -> (r: Self)
        requires
            jugadores@.valida(),
        ensures
            r@ == json_intercambio(jugadores@.valores()),
    {
        let campos = Campos::nuevos()
            .con("tipo", json_texto("intercambio"))
            .con("exitoso", json_bool(true))
            .con("jugadores", valor_jugadores(jugadores));
        proof {
            lema_claves_intercambio();
            let json = json_intercambio(jugadores@.valores());
            assert(nombres_de(campos.lista@) =~= seq!["tipo"@, "exitoso"@, "jugadores"@]);
            assert(campos_de(campos.lista@) =~= json->Objeto_0);
        }
        Mensaje { valor: campos.objeto() }
    }
}

/// The text of the message that tells the state of the game.
pub fn build_estado_snap(state: &EstadoJuego) -> (r: String)
    requires
        state@.jugadores.valida(),
        state@.alianzas.valida(),
    ensures
        r@ == json_escrito(json_estado(state@)),
{
    Mensaje::estado(state).texto()
}

} // verus!
