//! Laws about the messages: what each says, field by field, and that different things are said
//! differently.

use vstd::prelude::*;
use crate::json::{campo, ley_campo, Json};
use crate::mensaje::{
    json_alianza_formada, json_alianzas, json_ataque, json_desconectado, json_eliminado, json_error,
    json_estado, json_fin, json_iniciado, json_intercambio, json_jugador, json_jugadores,
    json_monstruo, json_monstruos, json_rechazo, json_reconectado, json_textos, json_unido,
    lema_claves_alianza, lema_claves_ataque, lema_claves_desconectado, lema_claves_eliminado,
    lema_claves_error, lema_claves_estado, lema_claves_fin, lema_claves_iniciado,
    lema_claves_intercambio, lema_claves_jugador, lema_claves_monstruo, lema_claves_rechazo,
    lema_claves_reconectado, lema_claves_unido,
};
use crate::modelo::{ley_nombre_fase, EstadoV, Fase, JugadorV, MonstruoV};
use crate::tabla::TablaV;

verus! {

/// Whether `x` is an object with `n` fields.
pub open spec fn objeto_de(x: Json, n: nat) -> bool {
    x is Objeto && x->Objeto_0.len() == n
}

/// Whether a field holds exactly these strings, in this order.
pub open spec fn lista_textos(x: Option<Json>, l: Seq<Seq<char>>) -> bool {
    x matches Some(Json::Lista(v)) && v.len() == l.len() && forall|i: int|
        0 <= i < l.len() ==> #[trigger] v[i] == Json::Texto(l[i])
}

/// Whether an object shows a player: each attribute under its name, and nothing else.
pub open spec fn retrata_jugador(x: Json, j: JugadorV) -> bool {
    &&& objeto_de(x, 5)
    &&& campo(x, "id"@) == Some(Json::Texto(j.id))
    &&& campo(x, "nombre"@) == Some(Json::Texto(j.nombre))
    &&& campo(x, "puntos"@) == Some(Json::Entero(j.puntos))
    &&& campo(x, "hp"@) == Some(Json::Entero(j.hp))
    &&& lista_textos(campo(x, "armas"@), j.armas)
}

/// Whether an object shows a monster: each attribute under its name, and nothing else.
pub open spec fn retrata_monstruo(x: Json, m: MonstruoV) -> bool {
    &&& objeto_de(x, 6)
    &&& campo(x, "id"@) == Some(Json::Texto(m.id))
    &&& campo(x, "nombre"@) == Some(Json::Texto(m.nombre))
    &&& campo(x, "emoji"@) == Some(Json::Texto(m.emoji))
    &&& campo(x, "hp_max"@) == Some(Json::Entero(m.hp_max))
    &&& campo(x, "hp_actual"@) == Some(Json::Entero(m.hp_actual))
    &&& campo(x, "eliminado"@) == Some(Json::Bool(m.eliminado))
}

/// Whether a field shows the players of a list, one by one.
pub open spec fn retrata_lista(x: Option<Json>, js: Seq<JugadorV>) -> bool {
    x matches Some(Json::Lista(v)) && v.len() == js.len() && forall|i: int|
        0 <= i < js.len() ==> retrata_jugador(#[trigger] v[i], js[i])
}

/// Whether a field shows the players of a table, one by one.
pub open spec fn retrata_jugadores(x: Option<Json>, t: TablaV<JugadorV>) -> bool {
    x matches Some(Json::Lista(v)) && v.len() == t.claves.len() && forall|i: int|
        0 <= i < t.claves.len() ==> retrata_jugador(#[trigger] v[i], t.datos[t.claves[i]])
}

/// Whether a field shows the monsters of a list, one by one.
pub open spec fn retrata_monstruos(x: Option<Json>, ms: Seq<MonstruoV>) -> bool {
    x matches Some(Json::Lista(v)) && v.len() == ms.len() && forall|i: int|
        0 <= i < ms.len() ==> retrata_monstruo(#[trigger] v[i], ms[i])
}

/// Whether a field shows alliances: under the name of each its members, and nothing else.
pub open spec fn retrata_alianzas(x: Option<Json>, a: TablaV<Seq<Seq<char>>>) -> bool {
    x matches Some(o) && objeto_de(o, a.claves.len()) && forall|k: Seq<char>| #[trigger]
        a.datos.contains_key(k) ==> lista_textos(campo(o, k), a.datos[k])
}

/// A field of an object whose names differ is found by its name.
proof fn lema_hallado(campos: Seq<(Seq<char>, Json)>, nombres: Seq<Seq<char>>, i: int)
    requires
        0 <= i < campos.len(),
        campos.len() == nombres.len(),
        nombres.no_duplicates(),
        forall|j: int| 0 <= j < campos.len() ==> (#[trigger] campos[j]).0 == nombres[j],
    ensures
        campo(Json::Objeto(campos), nombres[i]) == Some(campos[i].1),
{
    assert forall|j: int| 0 <= j < i implies (#[trigger] campos[j]).0 != nombres[i] by {
        assert(nombres[j] != nombres[i]);
    }
    assert(campos[i].0 == nombres[i]);
    ley_campo(campos, nombres[i], i);
}

/// The object for a player shows the player.
pub proof fn ley_jugador_en_json(j: JugadorV)
    ensures
        retrata_jugador(json_jugador(j), j),
{
    let m = json_jugador(j);
    let nombres = seq!["id"@, "nombre"@, "puntos"@, "hp"@, "armas"@];
    lema_claves_jugador();
    lema_hallado(m->Objeto_0, nombres, 0);
    lema_hallado(m->Objeto_0, nombres, 1);
    lema_hallado(m->Objeto_0, nombres, 2);
    lema_hallado(m->Objeto_0, nombres, 3);
    lema_hallado(m->Objeto_0, nombres, 4);
}

/// The object for a monster shows the monster.
pub proof fn ley_monstruo_en_json(m: MonstruoV)
    ensures
        retrata_monstruo(json_monstruo(m), m),
{
    let x = json_monstruo(m);
    let nombres = seq!["id"@, "nombre"@, "emoji"@, "hp_max"@, "hp_actual"@, "eliminado"@];
    lema_claves_monstruo();
    lema_hallado(x->Objeto_0, nombres, 0);
    lema_hallado(x->Objeto_0, nombres, 1);
    lema_hallado(x->Objeto_0, nombres, 2);
    lema_hallado(x->Objeto_0, nombres, 3);
    lema_hallado(x->Objeto_0, nombres, 4);
    lema_hallado(x->Objeto_0, nombres, 5);
}

/// The list for some players shows each of them.
proof fn lema_jugadores(js: Seq<JugadorV>)
    ensures
        retrata_lista(Some(json_jugadores(js)), js),
{
    let v = json_jugadores(js)->Lista_0;
    assert forall|i: int| 0 <= i < js.len() implies retrata_jugador(#[trigger] v[i], js[i]) by {
        ley_jugador_en_json(js[i]);
    }
}

/// The list for the values of a table shows each of its players.
proof fn lema_tabla(t: TablaV<JugadorV>)
    ensures
        retrata_jugadores(Some(json_jugadores(t.valores())), t),
{
    lema_jugadores(t.valores());
    let v = json_jugadores(t.valores())->Lista_0;
    assert forall|i: int| 0 <= i < t.claves.len() implies retrata_jugador(
        #[trigger] v[i],
        t.datos[t.claves[i]],
    ) by {
        assert(t.valores()[i] == t.datos[t.claves[i]]);
    }
}

/// The list for some monsters shows each of them.
proof fn lema_monstruos(ms: Seq<MonstruoV>)
    ensures
        retrata_monstruos(Some(json_monstruos(ms)), ms),
{
    let v = json_monstruos(ms)->Lista_0;
    assert forall|i: int| 0 <= i < ms.len() implies retrata_monstruo(#[trigger] v[i], ms[i]) by {
        ley_monstruo_en_json(ms[i]);
    }
}

/// The object for the alliances shows each of them.
pub proof fn ley_alianzas_en_json(a: TablaV<Seq<Seq<char>>>)
    requires
        a.valida(),
    ensures
        retrata_alianzas(Some(json_alianzas(a)), a),
{
    let o = json_alianzas(a);
    let campos = o->Objeto_0;
    assert forall|k: Seq<char>| #[trigger] a.datos.contains_key(k) implies lista_textos(
        campo(o, k),
        a.datos[k],
    ) by {
        assert(a.claves.contains(k));
        let i = a.claves.index_of(k);
        lema_hallado(campos, a.claves, i);
        assert(campo(o, k) == Some(json_textos(a.datos[k])));
    }
}

/// The snapshot of a state shows every player, every monster and every alliance, and says whose turn
/// it is, which phase the game is in and how long a turn lasts.
pub proof fn ley_estado(e: EstadoV)
    requires
        e.alianzas.valida(),
    ensures
        objeto_de(json_estado(e), 7),
        campo(json_estado(e), "tipo"@) == Some(Json::Texto("estado_juego"@)),
        retrata_jugadores(campo(json_estado(e), "jugadores"@), e.jugadores),
        retrata_monstruos(campo(json_estado(e), "monstruos"@), e.monstruos),
        campo(json_estado(e), "turno_actual"@) == Some(Json::Texto(e.turno_actual)),
        e.fase == Fase::Espera ==> campo(json_estado(e), "fase"@) == Some(Json::Texto("espera"@)),
        e.fase == Fase::Juego ==> campo(json_estado(e), "fase"@) == Some(Json::Texto("juego"@)),
        e.fase == Fase::Fin ==> campo(json_estado(e), "fase"@) == Some(Json::Texto("fin"@)),
        retrata_alianzas(campo(json_estado(e), "alianzas"@), e.alianzas),
        campo(json_estado(e), "tiempo_turno"@) == Some(Json::Entero(20)),
{
    let m = json_estado(e);
    let nombres = seq![
        "tipo"@, "jugadores"@, "monstruos"@, "turno_actual"@, "fase"@, "alianzas"@,
        "tiempo_turno"@,
    ];
    lema_claves_estado();
    lema_hallado(m->Objeto_0, nombres, 0);
    lema_hallado(m->Objeto_0, nombres, 1);
    lema_hallado(m->Objeto_0, nombres, 2);
    lema_hallado(m->Objeto_0, nombres, 3);
    lema_hallado(m->Objeto_0, nombres, 4);
    lema_hallado(m->Objeto_0, nombres, 5);
    lema_hallado(m->Objeto_0, nombres, 6);
    lema_tabla(e.jugadores);
    lema_monstruos(e.monstruos);
    ley_alianzas_en_json(e.alianzas);
    ley_nombre_fase(e.fase, e.fase);
}

/// The news of the start shows every monster and every player, and says whose turn it is and how long
/// a turn lasts.
pub proof fn ley_iniciado(e: EstadoV)
    ensures
        objeto_de(json_iniciado(e), 5),
        campo(json_iniciado(e), "tipo"@) == Some(Json::Texto("juego_iniciado"@)),
        retrata_monstruos(campo(json_iniciado(e), "monstruos"@), e.monstruos),
        campo(json_iniciado(e), "turno_actual"@) == Some(Json::Texto(e.turno_actual)),
        retrata_jugadores(campo(json_iniciado(e), "jugadores"@), e.jugadores),
        campo(json_iniciado(e), "tiempo_turno"@) == Some(Json::Entero(20)),
{
    let m = json_iniciado(e);
    let nombres = seq!["tipo"@, "monstruos"@, "turno_actual"@, "jugadores"@, "tiempo_turno"@];
    lema_claves_iniciado();
    lema_hallado(m->Objeto_0, nombres, 0);
    lema_hallado(m->Objeto_0, nombres, 1);
    lema_hallado(m->Objeto_0, nombres, 2);
    lema_hallado(m->Objeto_0, nombres, 3);
    lema_hallado(m->Objeto_0, nombres, 4);
    lema_tabla(e.jugadores);
    lema_monstruos(e.monstruos);
}

/// The news of an arrival shows the new player and then all players.
pub proof fn ley_unido(j: JugadorV, t: TablaV<JugadorV>)
    ensures
        objeto_de(json_unido(j, t.valores()), 3),
        campo(json_unido(j, t.valores()), "tipo"@) == Some(Json::Texto("jugador_unido"@)),
        campo(json_unido(j, t.valores()), "jugador"@) matches Some(x) && retrata_jugador(x, j),
        retrata_jugadores(campo(json_unido(j, t.valores()), "jugadores"@), t),
{
    let m = json_unido(j, t.valores());
    let nombres = seq!["tipo"@, "jugador"@, "jugadores"@];
    lema_claves_unido();
    lema_hallado(m->Objeto_0, nombres, 0);
    lema_hallado(m->Objeto_0, nombres, 1);
    lema_hallado(m->Objeto_0, nombres, 2);
    ley_jugador_en_json(j);
    lema_tabla(t);
}

/// The news of an alliance shows all alliances.
pub proof fn ley_alianza_formada(a: TablaV<Seq<Seq<char>>>)
    requires
        a.valida(),
    ensures
        objeto_de(json_alianza_formada(a), 2),
        campo(json_alianza_formada(a), "tipo"@) == Some(Json::Texto("alianza_formada"@)),
        retrata_alianzas(campo(json_alianza_formada(a), "alianzas"@), a),
{
    let m = json_alianza_formada(a);
    let nombres = seq!["tipo"@, "alianzas"@];
    lema_claves_alianza();
    lema_hallado(m->Objeto_0, nombres, 0);
    lema_hallado(m->Objeto_0, nombres, 1);
    ley_alianzas_en_json(a);
}

/// The news of a hit says who hit which monster with what, how strong the hit and the weapon were,
/// whether it was critical and what is left of the monster.
pub proof fn ley_aviso_ataque(
    monstruo: Seq<char>,
    atacante: Seq<char>,
    arma: Seq<char>,
    dano: int,
    base: int,
    critico: bool,
    resto: int,
)
    ensures
        ({
            let m = json_ataque(monstruo, atacante, arma, dano, base, critico, resto);
            &&& objeto_de(m, 8)
            &&& campo(m, "tipo"@) == Some(Json::Texto("ataque"@))
            &&& campo(m, "monstruo"@) == Some(Json::Texto(monstruo))
            &&& campo(m, "atacante"@) == Some(Json::Texto(atacante))
            &&& campo(m, "arma"@) == Some(Json::Texto(arma))
            &&& campo(m, "dano"@) == Some(Json::Entero(dano))
            &&& campo(m, "dano_base"@) == Some(Json::Entero(base))
            &&& campo(m, "critico"@) == Some(Json::Bool(critico))
            &&& campo(m, "hp_restante"@) == Some(Json::Entero(resto))
        }),
{
    let m = json_ataque(monstruo, atacante, arma, dano, base, critico, resto);
    let nombres = seq![
        "tipo"@, "monstruo"@, "atacante"@, "arma"@, "dano"@, "dano_base"@, "critico"@,
        "hp_restante"@,
    ];
    lema_claves_ataque();
    lema_hallado(m->Objeto_0, nombres, 0);
    lema_hallado(m->Objeto_0, nombres, 1);
    lema_hallado(m->Objeto_0, nombres, 2);
    lema_hallado(m->Objeto_0, nombres, 3);
    lema_hallado(m->Objeto_0, nombres, 4);
    lema_hallado(m->Objeto_0, nombres, 5);
    lema_hallado(m->Objeto_0, nombres, 6);
    lema_hallado(m->Objeto_0, nombres, 7);
}

/// The news of a removal says which monster is gone, who removed it and what that paid.
pub proof fn ley_aviso_eliminado(monstruo: Seq<char>, por: Seq<char>, puntos: int)
    ensures
        ({
            let m = json_eliminado(monstruo, por, puntos);
            &&& objeto_de(m, 4)
            &&& campo(m, "tipo"@) == Some(Json::Texto("monstruo_eliminado"@))
            &&& campo(m, "monstruo"@) == Some(Json::Texto(monstruo))
            &&& campo(m, "eliminado_por"@) == Some(Json::Texto(por))
            &&& campo(m, "puntos_ganados"@) == Some(Json::Entero(puntos))
        }),
{
    let m = json_eliminado(monstruo, por, puntos);
    let nombres = seq!["tipo"@, "monstruo"@, "eliminado_por"@, "puntos_ganados"@];
    lema_claves_eliminado();
    lema_hallado(m->Objeto_0, nombres, 0);
    lema_hallado(m->Objeto_0, nombres, 1);
    lema_hallado(m->Objeto_0, nombres, 2);
    lema_hallado(m->Objeto_0, nombres, 3);
}

/// The news of the end names the winner and shows all players.
pub proof fn ley_aviso_fin(ganador: Seq<char>, t: TablaV<JugadorV>)
    ensures
        objeto_de(json_fin(ganador, t.valores()), 3),
        campo(json_fin(ganador, t.valores()), "tipo"@) == Some(Json::Texto("fin_juego"@)),
        campo(json_fin(ganador, t.valores()), "ganador"@) == Some(Json::Texto(ganador)),
        retrata_jugadores(campo(json_fin(ganador, t.valores()), "jugadores"@), t),
{
    let m = json_fin(ganador, t.valores());
    let nombres = seq!["tipo"@, "ganador"@, "jugadores"@];
    lema_claves_fin();
    lema_hallado(m->Objeto_0, nombres, 0);
    lema_hallado(m->Objeto_0, nombres, 1);
    lema_hallado(m->Objeto_0, nombres, 2);
    lema_tabla(t);
}

/// The news of an exchange says that it was made and shows all players.
pub proof fn ley_aviso_intercambio(t: TablaV<JugadorV>)
    ensures
        objeto_de(json_intercambio(t.valores()), 3),
        campo(json_intercambio(t.valores()), "tipo"@) == Some(Json::Texto("intercambio"@)),
        campo(json_intercambio(t.valores()), "exitoso"@) == Some(Json::Bool(true)),
        retrata_jugadores(campo(json_intercambio(t.valores()), "jugadores"@), t),
{
    let m = json_intercambio(t.valores());
    let nombres = seq!["tipo"@, "exitoso"@, "jugadores"@];
    lema_claves_intercambio();
    lema_hallado(m->Objeto_0, nombres, 0);
    lema_hallado(m->Objeto_0, nombres, 1);
    lema_hallado(m->Objeto_0, nombres, 2);
    lema_tabla(t);
}

/// The answer to an exchange that is refused says that it was not made, and why.
pub proof fn ley_rechazo(razon: Seq<char>)
    ensures
        objeto_de(json_rechazo(razon), 3),
        campo(json_rechazo(razon), "tipo"@) == Some(Json::Texto("intercambio"@)),
        campo(json_rechazo(razon), "exitoso"@) == Some(Json::Bool(false)),
        campo(json_rechazo(razon), "razon"@) == Some(Json::Texto(razon)),
{
    let m = json_rechazo(razon);
    let nombres = seq!["tipo"@, "exitoso"@, "razon"@];
    lema_claves_rechazo();
    lema_hallado(m->Objeto_0, nombres, 0);
    lema_hallado(m->Objeto_0, nombres, 1);
    lema_hallado(m->Objeto_0, nombres, 2);
}

/// The answer to a request that is refused says why.
pub proof fn ley_error(razon: Seq<char>)
    ensures
        objeto_de(json_error(razon), 2),
        campo(json_error(razon), "tipo"@) == Some(Json::Texto("error"@)),
        campo(json_error(razon), "mensaje"@) == Some(Json::Texto(razon)),
{
    let m = json_error(razon);
    let nombres = seq!["tipo"@, "mensaje"@];
    lema_claves_error();
    lema_hallado(m->Objeto_0, nombres, 0);
    lema_hallado(m->Objeto_0, nombres, 1);
}

/// The news of a return names who came back.
pub proof fn ley_reconectado(nombre: Seq<char>)
    ensures
        objeto_de(json_reconectado(nombre), 2),
        campo(json_reconectado(nombre), "tipo"@) == Some(Json::Texto("jugador_reconectado"@)),
        campo(json_reconectado(nombre), "nombre"@) == Some(Json::Texto(nombre)),
{
    let m = json_reconectado(nombre);
    let nombres = seq!["tipo"@, "nombre"@];
    lema_claves_reconectado();
    lema_hallado(m->Objeto_0, nombres, 0);
    lema_hallado(m->Objeto_0, nombres, 1);
}

/// The news of an absence names who is away, and says for how many seconds the place is kept.
pub proof fn ley_desconectado(nombre: Seq<char>)
    ensures
        objeto_de(json_desconectado(nombre), 3),
        campo(json_desconectado(nombre), "tipo"@) == Some(Json::Texto("jugador_desconectado"@)),
        campo(json_desconectado(nombre), "nombre"@) == Some(Json::Texto(nombre)),
        campo(json_desconectado(nombre), "gracia"@) == Some(Json::Entero(15)),
{
    let m = json_desconectado(nombre);
    let nombres = seq!["tipo"@, "nombre"@, "gracia"@];
    lema_claves_desconectado();
    lema_hallado(m->Objeto_0, nombres, 0);
    lema_hallado(m->Objeto_0, nombres, 1);
    lema_hallado(m->Objeto_0, nombres, 2);
}

/// Different players are shown differently.
pub proof fn ley_jugador_fiel(a: JugadorV, b: JugadorV)
    requires
        json_jugador(a) == json_jugador(b),
    ensures
        a == b,
{
    ley_jugador_en_json(a);
    ley_jugador_en_json(b);
    assert(a.armas =~= b.armas) by {
        let v = campo(json_jugador(a), "armas"@)->0->Lista_0;
        assert forall|i: int| 0 <= i < a.armas.len() implies a.armas[i] == b.armas[i] by {
            assert(v[i] == Json::Texto(a.armas[i]));
        }
    }
}

/// Different monsters are shown differently.
pub proof fn ley_monstruo_fiel(a: MonstruoV, b: MonstruoV)
    requires
        json_monstruo(a) == json_monstruo(b),
    ensures
        a == b,
{
    ley_monstruo_en_json(a);
    ley_monstruo_en_json(b);
}

/// Two states with the same snapshot have the same players, monsters, alliances, turn and phase: no
/// change of these goes unseen.
pub proof fn ley_estado_fiel(e: EstadoV, f: EstadoV)
    requires
        e.alianzas.valida(),
        f.alianzas.valida(),
        json_estado(e) == json_estado(f),
    ensures
        e.monstruos == f.monstruos,
        e.jugadores.claves.len() == f.jugadores.claves.len(),
        forall|i: int|
            0 <= i < e.jugadores.claves.len() ==> e.jugadores.datos[#[trigger] e.jugadores.claves[i]]
                == f.jugadores.datos[f.jugadores.claves[i]],
        e.turno_actual == f.turno_actual,
        e.fase == f.fase,
        e.alianzas.claves.len() == f.alianzas.claves.len(),
        forall|k: Seq<char>| #[trigger]
            e.alianzas.datos.contains_key(k) && f.alianzas.datos.contains_key(k)
                ==> e.alianzas.datos[k] == f.alianzas.datos[k],
{
    ley_estado(e);
    ley_estado(f);
    ley_nombre_fase(e.fase, f.fase);
    let ms = json_estado(e)->Objeto_0[2].1;
    assert(ms == json_monstruos(e.monstruos));
    assert(ms == json_monstruos(f.monstruos));
    assert(e.monstruos =~= f.monstruos) by {
        assert forall|i: int| 0 <= i < e.monstruos.len() implies e.monstruos[i] == f.monstruos[i] by {
            assert(ms->Lista_0[i] == json_monstruo(e.monstruos[i]));
            assert(ms->Lista_0[i] == json_monstruo(f.monstruos[i]));
            ley_monstruo_fiel(e.monstruos[i], f.monstruos[i]);
        }
    }
    let js = json_estado(e)->Objeto_0[1].1;
    let a = e.jugadores.valores();
    let b = f.jugadores.valores();
    assert(js == json_jugadores(a));
    assert(js == json_jugadores(b));
    assert forall|i: int| 0 <= i < e.jugadores.claves.len() implies e.jugadores.datos[
        #[trigger] e.jugadores.claves[i]
    ] == f.jugadores.datos[f.jugadores.claves[i]] by {
        assert(js->Lista_0[i] == json_jugador(a[i]));
        assert(js->Lista_0[i] == json_jugador(b[i]));
        ley_jugador_fiel(a[i], b[i]);
    }
    assert forall|k: Seq<char>| #[trigger]
        e.alianzas.datos.contains_key(k) && f.alianzas.datos.contains_key(k) implies
        e.alianzas.datos[k] == f.alianzas.datos[k] by {
        let x = e.alianzas.datos[k];
        let y = f.alianzas.datos[k];
        let v = campo(campo(json_estado(e), "alianzas"@)->0, k)->0->Lista_0;
        assert(x =~= y) by {
            assert forall|i: int| 0 <= i < x.len() implies x[i] == y[i] by {
                assert(v[i] == Json::Texto(x[i]));
            }
        }
    }
}

} // verus!
