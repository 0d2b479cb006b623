use halloween_game::accion::Accion;
use halloween_game::combate::{calcular_dano, preparar_ataque};
use halloween_game::identidad::{
    generar_id, generar_sesion_id, jugador_id_en, milisegundos_en, sesion_id_en,
};
use halloween_game::mensaje::build_estado_snap;
use halloween_game::modelo::{
    crear_monstruos, dano_base_arma, EstadoJuego, Fase, Jugador, Miembros, GRACIA_SEGUNDOS,
    TURNO_SEGUNDOS,
};
use halloween_game::partida::{llegar, recomenzar, reset_juego};
use halloween_game::peticion::Peticion;
use halloween_game::servidor::{
    conectar, desconectar, handle_message, resolver_ataque, vencer_gracia, Paso,
};
use halloween_game::texto::{escribir_decimal, escribir_entero};
use halloween_game::turnos::{siguiente_turno, vencer_turno};

/// What an action asks for, in one line.
fn linea(a: &Accion) -> String {
    match a {
        Accion::Difundir(m) => format!("todos {}", m.texto()),
        Accion::Enviar { addr, mensaje } => format!("{} {}", addr, mensaje.texto()),
        Accion::IniciarReloj => "iniciar reloj".to_string(),
        Accion::ReiniciarReloj => "reiniciar reloj".to_string(),
        Accion::DetenerReloj => "detener reloj".to_string(),
        Accion::IniciarGracia { nombre, jugador_id } => format!("gracia {} {}", nombre, jugador_id),
        Accion::CancelarGracia { nombre } => format!("cancelar {}", nombre),
        Accion::CancelarGracias => "cancelar todas".to_string(),
        Accion::OlvidarGracia { nombre } => format!("olvidar {}", nombre),
        Accion::RegistrarMovimiento { sesion_id, tipo, datos } => {
            format!("mov {} {} [{}]", sesion_id, tipo, datos)
        }
        Accion::RegistrarInicio { sesion_id, nombres } => {
            format!("inicio {} {}", sesion_id, nombres.join(","))
        }
        Accion::RegistrarFin { sesion_id, ganador, jugadores } => {
            let js: Vec<String> = jugadores
                .iter()
                .map(|j| format!("{}:{}:{}:{}", j.id, j.nombre, j.puntos, j.hp))
                .collect();
            format!("fin {} {} {}", sesion_id, ganador, js.join(","))
        }
    }
}

fn lineas(l: &[Accion]) -> Vec<String> {
    l.iter().map(linea).collect()
}

fn hechas(p: Paso) -> Vec<String> {
    match p {
        Paso::Acciones(l) => lineas(&l),
        Paso::Tirar { .. } => panic!("chance has to decide"),
        Paso::SinHora => panic!("no time"),
        Paso::Desborde => panic!("overflow"),
    }
}

fn error(addr: &str, m: &str) -> Vec<String> {
    vec![format!("{} {{\"tipo\":\"error\",\"mensaje\":\"{}\"}}", addr, m)]
}

/// A game that waits with Ana at x and Bea at y.
fn sala() -> EstadoJuego {
    let mut e = EstadoJuego::nuevo("s1".to_string());
    llegar(&mut e, "x", "Ana", "a".to_string());
    llegar(&mut e, "y", "Bea", "b".to_string());
    e
}

/// The same game, started.
fn juego() -> EstadoJuego {
    let mut e = sala();
    handle_message(&mut e, "x", Peticion::IniciarJuego);
    e
}

fn atacar(m: &str, arma: &str) -> Peticion {
    Peticion::Atacar { monstruo_id: m.to_string(), arma: arma.to_string() }
}

fn golpe(e: &mut EstadoJuego, addr: &str, m: &str, dano: i32) -> Vec<String> {
    lineas(&resolver_ataque(e, addr, m, "daga", dano, false).unwrap())
}

const ANA: &str = "{\"id\":\"a\",\"nombre\":\"Ana\",\"puntos\":0,\"hp\":10,\"armas\":[\"daga\",\"granada\",\"dinamita\"]}";
const BEA: &str = "{\"id\":\"b\",\"nombre\":\"Bea\",\"puntos\":0,\"hp\":10,\"armas\":[\"daga\",\"granada\",\"dinamita\"]}";
const MONSTRUOS: &str = "[{\"id\":\"m1\",\"nombre\":\"Drácula\",\"emoji\":\"🧛\",\"hp_max\":30,\"hp_actual\":30,\"eliminado\":false},{\"id\":\"m2\",\"nombre\":\"Frankenstein\",\"emoji\":\"🧟\",\"hp_max\":40,\"hp_actual\":40,\"eliminado\":false},{\"id\":\"m3\",\"nombre\":\"La Momia\",\"emoji\":\"🏺\",\"hp_max\":25,\"hp_actual\":25,\"eliminado\":false},{\"id\":\"m4\",\"nombre\":\"El Fantasma\",\"emoji\":\"👻\",\"hp_max\":20,\"hp_actual\":20,\"eliminado\":false},{\"id\":\"m5\",\"nombre\":\"La Bruja\",\"emoji\":\"🧙\",\"hp_max\":28,\"hp_actual\":28,\"eliminado\":false}]";

#[test]
fn constantes() {
    assert_eq!(TURNO_SEGUNDOS, 20);
    assert_eq!(GRACIA_SEGUNDOS, 15);
}

#[test]
fn armas() {
    assert_eq!(dano_base_arma("daga"), Some(3));
    assert_eq!(dano_base_arma("granada"), Some(8));
    assert_eq!(dano_base_arma("dinamita"), Some(15));
    assert_eq!(dano_base_arma("Daga"), None);
    assert_eq!(dano_base_arma(""), None);
}

#[test]
fn dano_minimo() {
    assert_eq!(calcular_dano(-3), 1);
    assert_eq!(calcular_dano(0), 1);
    assert_eq!(calcular_dano(1), 1);
    assert_eq!(calcular_dano(18), 18);
}

#[test]
fn monstruos_del_comienzo() {
    let ms = crear_monstruos();
    let vidas: Vec<(String, i32, i32, bool)> = ms
        .iter()
        .map(|m| (m.id.clone(), m.hp_max, m.hp_actual, m.eliminado))
        .collect();
    assert_eq!(
        vidas,
        vec![
            ("m1".to_string(), 30, 30, false),
            ("m2".to_string(), 40, 40, false),
            ("m3".to_string(), 25, 25, false),
            ("m4".to_string(), 20, 20, false),
            ("m5".to_string(), 28, 28, false),
        ]
    );
    assert_eq!(ms[0].nombre, "Drácula");
    assert_eq!(ms[3].emoji, "👻");
}

#[test]
fn numeros_escritos() {
    assert_eq!(escribir_decimal(0), "0");
    assert_eq!(escribir_decimal(1730000000123), "1730000000123");
    assert_eq!(escribir_decimal(u128::MAX), u128::MAX.to_string());
    assert_eq!(escribir_entero(i32::MIN), i32::MIN.to_string());
    assert_eq!(escribir_entero(-70), "-70");
    assert_eq!(escribir_entero(10), "10");
}

#[test]
fn identificadores() {
    assert_eq!(sesion_id_en(1730000000123), "s1730000000123");
    assert_eq!(jugador_id_en(1730000000123, 65535), "j1730000000123_65535");
    let s = generar_sesion_id().unwrap();
    assert!(s.starts_with('s'));
    let t: u128 = s[1..].parse().unwrap();
    assert!(t > 1_600_000_000_000);
    let j = generar_id().unwrap();
    assert!(j.starts_with('j'));
    let partes: Vec<&str> = j[1..].split('_').collect();
    assert_eq!(partes.len(), 2);
    assert!(partes[0].parse::<u128>().unwrap() >= t);
    assert!(partes[1].parse::<u16>().is_ok());
}

#[test]
fn milisegundos_de_una_hora() {
    let epoca = std::time::UNIX_EPOCH;
    let micros = std::time::Duration::from_micros;
    assert_eq!(milisegundos_en(epoca), Some(0));
    assert_eq!(milisegundos_en(epoca + micros(1_234_567_899)), Some(1_234_567));
    assert_eq!(milisegundos_en(epoca - micros(1)), None);
}

#[test]
fn azar_varia() {
    let ids: Vec<String> = (0..8)
        .map(|_| generar_id().unwrap().split('_').last().unwrap().to_string())
        .collect();
    assert!(ids.iter().any(|i| *i != ids[0]));
}

#[test]
fn unirse_nuevo() {
    let mut e = EstadoJuego::nuevo("s1".to_string());
    let l = llegar(&mut e, "x", "Ana", "a".to_string());
    assert_eq!(
        lineas(&l),
        vec![
            format!("todos {{\"tipo\":\"jugador_unido\",\"jugador\":{},\"jugadores\":[{}]}}", ANA, ANA),
            "mov s1 unirse [Ana]".to_string(),
        ]
    );
    let l = llegar(&mut e, "y", "Bea", "b".to_string());
    assert_eq!(
        lineas(&l)[0],
        format!("todos {{\"tipo\":\"jugador_unido\",\"jugador\":{},\"jugadores\":[{},{}]}}", BEA, ANA, BEA)
    );
    assert_eq!(e.addr_to_id.buscar("y").unwrap(), "b");
}

#[test]
fn unirse_por_mensaje() {
    let mut e = EstadoJuego::nuevo("s1".to_string());
    let l = hechas(handle_message(&mut e, "x", Peticion::Unirse { nombre: "Ana".to_string() }));
    assert_eq!(l.len(), 2);
    assert_eq!(l[1], "mov s1 unirse [Ana]");
    let id = e.addr_to_id.buscar("x").unwrap().clone();
    let j = e.jugadores.buscar(&id).unwrap();
    assert_eq!(j.id, id);
    assert_eq!(j.nombre, "Ana");
    assert_eq!((j.puntos, j.hp), (0, 10));
    assert!(id.starts_with('j'));
}

#[test]
fn inicio_con_pocos() {
    let mut e = EstadoJuego::nuevo("s1".to_string());
    llegar(&mut e, "x", "Ana", "a".to_string());
    assert_eq!(
        hechas(handle_message(&mut e, "x", Peticion::IniciarJuego)),
        error("x", "Se necesitan al menos 2 jugadores")
    );
    assert_eq!(e.fase, Fase::Espera);
}

#[test]
fn inicio_normal_y_doble() {
    let mut e = sala();
    assert_eq!(
        hechas(handle_message(&mut e, "y", Peticion::IniciarJuego)),
        vec![
            "iniciar reloj".to_string(),
            format!(
                "todos {{\"tipo\":\"juego_iniciado\",\"monstruos\":{},\"turno_actual\":\"a\",\"jugadores\":[{},{}],\"tiempo_turno\":20}}",
                MONSTRUOS, ANA, BEA
            ),
            "inicio s1 Ana,Bea".to_string(),
            "mov s1 iniciar_juego []".to_string(),
        ]
    );
    assert_eq!(e.fase, Fase::Juego);
    assert!(e.reloj);
    assert_eq!(e.orden_turnos, vec!["a".to_string(), "b".to_string()]);
    assert_eq!(
        hechas(handle_message(&mut e, "y", Peticion::IniciarJuego)),
        error("y", "Juego ya iniciado")
    );
}

#[test]
fn estado_escrito() {
    let e = juego();
    let texto = format!(
        "{{\"tipo\":\"estado_juego\",\"jugadores\":[{},{}],\"monstruos\":{},\"turno_actual\":\"a\",\"fase\":\"juego\",\"alianzas\":{{}},\"tiempo_turno\":20}}",
        ANA, BEA, MONSTRUOS
    );
    assert_eq!(build_estado_snap(&e), texto);
    assert_eq!(conectar(&e).unwrap().texto(), texto);
}

#[test]
fn bienvenida_sin_nadie() {
    let mut e = EstadoJuego::nuevo("s1".to_string());
    assert!(conectar(&e).is_none());
    llegar(&mut e, "x", "Ana", "a".to_string());
    assert!(conectar(&e).is_some());
}

#[test]
fn texto_con_comillas() {
    let mut e = EstadoJuego::nuevo("s1".to_string());
    let l = llegar(&mut e, "x", "A\"\n", "a".to_string());
    assert!(lineas(&l)[0].contains("\"nombre\":\"A\\\"\\n\""));
}

#[test]
fn alianza_formada() {
    let mut e = sala();
    let pedir = |alias: &str, m: &[&str]| Peticion::Alianza {
        alias: alias.to_string(),
        miembros: m.iter().map(|s| s.to_string()).collect(),
    };
    assert_eq!(
        hechas(handle_message(&mut e, "x", pedir("z", &["a", "b"]))),
        vec![
            "todos {\"tipo\":\"alianza_formada\",\"alianzas\":{\"z\":[\"a\",\"b\"]}}".to_string(),
            "mov s1 alianza []".to_string(),
        ]
    );
    handle_message(&mut e, "x", pedir("w", &[]));
    assert_eq!(
        hechas(handle_message(&mut e, "y", pedir("z", &["b"])))[0],
        "todos {\"tipo\":\"alianza_formada\",\"alianzas\":{\"z\":[\"b\"],\"w\":[]}}"
    );
}

#[test]
fn ataque_sin_juego() {
    let mut e = sala();
    assert_eq!(
        hechas(handle_message(&mut e, "x", atacar("m1", "daga"))),
        error("x", "Juego no activo")
    );
}

#[test]
fn ataque_de_extrano() {
    let mut e = juego();
    assert_eq!(
        hechas(handle_message(&mut e, "q", atacar("m1", "daga"))),
        error("q", "No estás en el juego")
    );
}

#[test]
fn ataque_fuera_de_turno() {
    let mut e = juego();
    assert_eq!(
        hechas(handle_message(&mut e, "y", atacar("m1", "daga"))),
        error("y", "No es tu turno")
    );
}

#[test]
fn ataque_con_arma_ajena() {
    let mut e = juego();
    assert_eq!(
        hechas(handle_message(&mut e, "x", atacar("m1", "sable"))),
        error("x", "No tienes esa arma")
    );
}

#[test]
fn ataque_a_nadie() {
    let mut e = juego();
    assert!(matches!(
        handle_message(&mut e, "x", atacar("m9", "granada")),
        Paso::Tirar { dano_base: 8 }
    ));
    assert_eq!(golpe(&mut e, "x", "m9", 8), error("x", "Monstruo no encontrado"));
    assert_eq!(e.turno_actual, "a");
}

#[test]
fn ataque_con_arma_invalida() {
    // Only a player who was given an unknown weapon gets this far.
    let mut e = juego();
    let mut j = e.jugadores.buscar("a").unwrap().clone();
    j.armas.push("sable".to_string());
    e.jugadores.poner("a".to_string(), j);
    assert_eq!(preparar_ataque(&e, "x", "sable"), Err("Arma inválida"));
    assert_eq!(preparar_ataque(&e, "x", "daga"), Ok(("a".to_string(), 3)));
}

#[test]
fn ataque_que_hiere() {
    let mut e = juego();
    let l = lineas(&resolver_ataque(&mut e, "x", "m4", "dinamita", 17, true).unwrap());
    assert_eq!(l.len(), 4);
    assert_eq!(l[0], "reiniciar reloj");
    assert_eq!(
        l[1],
        "todos {\"tipo\":\"ataque\",\"monstruo\":\"El Fantasma\",\"atacante\":\"Ana\",\"arma\":\"dinamita\",\"dano\":17,\"dano_base\":15,\"critico\":true,\"hp_restante\":3}"
    );
    assert_eq!(l[2], format!("todos {}", build_estado_snap(&e)));
    assert_eq!(l[3], "mov s1 atacar [m4 con dinamita]");
    assert_eq!(e.turno_actual, "b");
    assert_eq!(e.monstruos[3].hp_actual, 3);
    assert_eq!(e.jugadores.buscar("a").unwrap().puntos, 0);
}

#[test]
fn ataque_que_elimina() {
    let mut e = juego();
    golpe(&mut e, "x", "m4", 19);
    let l = golpe(&mut e, "y", "m4", 0);
    assert_eq!(
        l[2],
        "todos {\"tipo\":\"monstruo_eliminado\",\"monstruo\":\"El Fantasma\",\"eliminado_por\":\"Bea\",\"puntos_ganados\":4}"
    );
    assert_eq!(l.len(), 5);
    assert!(e.monstruos[3].eliminado);
    let b = e.jugadores.buscar("b").unwrap();
    assert_eq!((b.puntos, b.hp), (4, 12));
    assert_eq!(golpe(&mut e, "x", "m4", 5), error("x", "Monstruo ya eliminado"));
    assert_eq!(e.turno_actual, "a");
}

#[test]
fn fin_del_juego() {
    let mut e = juego();
    golpe(&mut e, "x", "m1", 99);
    golpe(&mut e, "y", "m2", 99);
    golpe(&mut e, "x", "m3", 99);
    golpe(&mut e, "y", "m4", 99);
    let l = golpe(&mut e, "x", "m5", 28);
    let ana = ANA.replace("\"puntos\":0,\"hp\":10", "\"puntos\":16,\"hp\":16");
    let bea = BEA.replace("\"puntos\":0,\"hp\":10", "\"puntos\":12,\"hp\":14");
    assert_eq!(
        l,
        vec![
            "reiniciar reloj".to_string(),
            "detener reloj".to_string(),
            "todos {\"tipo\":\"ataque\",\"monstruo\":\"La Bruja\",\"atacante\":\"Ana\",\"arma\":\"daga\",\"dano\":28,\"dano_base\":3,\"critico\":false,\"hp_restante\":0}".to_string(),
            "todos {\"tipo\":\"monstruo_eliminado\",\"monstruo\":\"La Bruja\",\"eliminado_por\":\"Ana\",\"puntos_ganados\":5}".to_string(),
            format!("todos {{\"tipo\":\"fin_juego\",\"ganador\":\"Ana\",\"jugadores\":[{},{}]}}", ana, bea),
            "fin s1 Ana a:Ana:16:16,b:Bea:12:14".to_string(),
            "mov s1 atacar [m5 con daga]".to_string(),
        ]
    );
    assert_eq!(e.fase, Fase::Fin);
    assert!(!e.reloj);
    assert_eq!(golpe(&mut e, "y", "m1", 5), error("y", "Juego no activo"));
    assert!(vencer_turno(&mut e).is_none());
}

#[test]
fn empate() {
    let mut e = juego();
    golpe(&mut e, "x", "m1", 99);
    golpe(&mut e, "y", "m3", 99);
    golpe(&mut e, "x", "m2", 99);
    golpe(&mut e, "y", "m4", 99);
    golpe(&mut e, "x", "m5", 1);
    let l = golpe(&mut e, "y", "m5", 99);
    assert_eq!(l[5], "fin s1 Bea a:Ana:14:14,b:Bea:14:16");
}

#[test]
fn puntos_que_no_caben() {
    let mut e = juego();
    let mut j = e.jugadores.buscar("a").unwrap().clone();
    j.puntos = i32::MAX - 3;
    e.jugadores.poner("a".to_string(), j);
    assert!(resolver_ataque(&mut e, "x", "m4", "daga", 20, false).is_none());
    assert_eq!(e.monstruos[3].hp_actual, 20);
    assert!(resolver_ataque(&mut e, "x", "m4", "daga", 19, false).is_some());
}

#[test]
fn salud_que_no_cabe() {
    let mut e = juego();
    let mut j = e.jugadores.buscar("a").unwrap().clone();
    j.hp = i32::MAX - 1;
    e.jugadores.poner("a".to_string(), j);
    assert!(resolver_ataque(&mut e, "x", "m4", "daga", 20, false).is_none());
    e.monstruos[3].hp_actual = i32::MIN + 4;
    assert!(resolver_ataque(&mut e, "x", "m4", "daga", 5, false).is_none());
    assert_eq!(e.monstruos[3].hp_actual, i32::MIN + 4);
    assert_eq!(e.turno_actual, "a");
}

#[test]
fn quinta_parte_hacia_cero() {
    let mut e = juego();
    e.monstruos[3].hp_max = -7;
    let l = golpe(&mut e, "x", "m4", 20);
    assert!(l[2].ends_with("\"puntos_ganados\":-1}"));
    assert_eq!(puntos(&e, "a"), -1);
    e.monstruos[0].hp_max = 34;
    let l = golpe(&mut e, "y", "m1", 30);
    assert!(l[2].ends_with("\"puntos_ganados\":6}"));
}

/// Ana and Bea are allies; Ana has 6 points.
fn aliadas() -> EstadoJuego {
    let mut e = juego();
    handle_message(
        &mut e,
        "x",
        Peticion::Alianza {
            alias: "z".to_string(),
            miembros: vec!["a".to_string(), "b".to_string(), "fuera".to_string()],
        },
    );
    golpe(&mut e, "x", "m1", 30);
    e
}

fn dar(para: &str, n: i32) -> Peticion {
    Peticion::Intercambiar { para: para.to_string(), cantidad: n }
}

fn puntos(e: &EstadoJuego, id: &str) -> i32 {
    e.jugadores.buscar(id).unwrap().puntos
}

#[test]
fn intercambio_hecho() {
    let mut e = aliadas();
    let l = hechas(handle_message(&mut e, "x", dar("b", 4)));
    let ana = ANA.replace("\"puntos\":0,\"hp\":10", "\"puntos\":2,\"hp\":12");
    let bea = BEA.replace("\"puntos\":0", "\"puntos\":4");
    assert_eq!(
        l,
        vec![
            format!("todos {{\"tipo\":\"intercambio\",\"exitoso\":true,\"jugadores\":[{},{}]}}", ana, bea),
            "mov s1 intercambiar [4 -> b puntos]".to_string(),
        ]
    );
}

#[test]
fn intercambio_rechazado() {
    let mut e = aliadas();
    assert_eq!(
        hechas(handle_message(&mut e, "x", dar("b", 7))),
        vec!["x {\"tipo\":\"intercambio\",\"exitoso\":false,\"razon\":\"Puntos insuficientes\"}".to_string()]
    );
    assert_eq!(
        hechas(handle_message(&mut e, "x", dar("c", 1))),
        vec!["x {\"tipo\":\"intercambio\",\"exitoso\":false,\"razon\":\"No son aliados\"}".to_string()]
    );
    assert!(hechas(handle_message(&mut e, "q", dar("b", 1))).is_empty());
    assert_eq!((puntos(&e, "a"), puntos(&e, "b")), (6, 0));
}

#[test]
fn intercambio_negativo_propio_y_perdido() {
    let mut e = aliadas();
    let l = hechas(handle_message(&mut e, "x", dar("b", -3)));
    assert_eq!(l[1], "mov s1 intercambiar [-3 -> b puntos]");
    assert_eq!((puntos(&e, "a"), puntos(&e, "b")), (9, -3));
    hechas(handle_message(&mut e, "x", dar("a", 5)));
    assert_eq!(puntos(&e, "a"), 9);
    hechas(handle_message(&mut e, "x", dar("fuera", 5)));
    assert_eq!((puntos(&e, "a"), puntos(&e, "b")), (4, -3));
}

#[test]
fn intercambio_consigo_sin_monstruos() {
    let mut e = EstadoJuego::nuevo("s1".to_string());
    e.fase = Fase::Juego;
    e.jugadores.poner(
        "p1".to_string(),
        Jugador {
            id: "p1".to_string(),
            nombre: "Ana".to_string(),
            puntos: 5,
            hp: 10,
            armas: vec![],
        },
    );
    e.addr_to_id.poner("a1".to_string(), "p1".to_string());
    e.alianzas.poner("x".to_string(), Miembros { lista: vec!["p1".to_string()] });
    let l = hechas(handle_message(&mut e, "a1", dar("p1", 5)));
    assert_eq!(
        l[0],
        "todos {\"tipo\":\"intercambio\",\"exitoso\":true,\"jugadores\":[{\"id\":\"p1\",\"nombre\":\"Ana\",\"puntos\":5,\"hp\":10,\"armas\":[]}]}"
    );
    assert_eq!(l.len(), 2);
    assert_eq!((e.jugadores.len(), puntos(&e, "p1")), (1, 5));
}

#[test]
fn intercambio_que_no_cabe() {
    let mut e = aliadas();
    assert!(matches!(handle_message(&mut e, "x", dar("b", i32::MIN)), Paso::Desborde));
    assert_eq!((puntos(&e, "a"), puntos(&e, "b")), (6, 0));
}

#[test]
fn turnos_en_circulo() {
    let mut e = juego();
    siguiente_turno(&mut e);
    assert_eq!((e.turno_index, e.turno_actual.as_str()), (1, "b"));
    siguiente_turno(&mut e);
    assert_eq!((e.turno_index, e.turno_actual.as_str()), (0, "a"));
}

#[test]
fn turnos_con_ausentes() {
    let mut e = sala();
    llegar(&mut e, "w", "Cris", "c".to_string());
    handle_message(&mut e, "x", Peticion::IniciarJuego);
    e.jugadores.quitar("b");
    siguiente_turno(&mut e);
    assert_eq!((e.turno_index, e.turno_actual.as_str()), (2, "c"));
    e.jugadores.quitar("a");
    siguiente_turno(&mut e);
    assert_eq!((e.turno_index, e.turno_actual.as_str()), (2, "c"));
    e.jugadores.quitar("c");
    siguiente_turno(&mut e);
    assert_eq!((e.turno_index, e.turno_actual.as_str()), (0, "c"));
}

#[test]
fn turno_sin_orden() {
    let mut e = sala();
    siguiente_turno(&mut e);
    assert_eq!((e.turno_index, e.turno_actual.as_str()), (0, ""));
}

#[test]
fn turno_con_posicion_lejana() {
    let mut e = juego();
    e.turno_index = 1_000_000;
    siguiente_turno(&mut e);
    assert_eq!((e.turno_index, e.turno_actual.as_str()), (1, "b"));
}

#[test]
fn turno_vencido() {
    let mut e = juego();
    let l = vencer_turno(&mut e).unwrap();
    assert_eq!(e.turno_actual, "b");
    assert_eq!(lineas(&l), vec![format!("todos {}", build_estado_snap(&e))]);
    let mut f = sala();
    assert!(vencer_turno(&mut f).is_none());
}

#[test]
fn abandono_y_regreso() {
    let mut e = aliadas();
    assert_eq!(
        lineas(&desconectar(&mut e, "x")),
        vec![
            "gracia Ana a".to_string(),
            "todos {\"tipo\":\"jugador_desconectado\",\"nombre\":\"Ana\",\"gracia\":15}".to_string(),
        ]
    );
    assert!(!e.addr_to_id.contiene("x"));
    assert!(e.jugadores.contiene("a"));
    let l = hechas(handle_message(&mut e, "n", Peticion::Unirse { nombre: "Ana".to_string() }));
    assert_eq!(
        l,
        vec![
            "cancelar Ana".to_string(),
            format!("n {}", build_estado_snap(&e)),
            "todos {\"tipo\":\"jugador_reconectado\",\"nombre\":\"Ana\"}".to_string(),
        ]
    );
    assert_eq!(e.addr_to_id.buscar("n").unwrap(), "a");
    assert_eq!(puntos(&e, "a"), 6);
    assert_eq!(lineas(&vencer_gracia(&mut e, "Ana", "a")), vec!["olvidar Ana".to_string()]);
    assert!(e.jugadores.contiene("a"));
}

#[test]
fn abandono_sin_regreso() {
    let mut e = juego();
    desconectar(&mut e, "x");
    let l = lineas(&vencer_gracia(&mut e, "Ana", "a"));
    assert_eq!(
        l,
        vec![format!("todos {}", build_estado_snap(&e)), "olvidar Ana".to_string()]
    );
    assert!(!e.jugadores.contiene("a"));
    assert!(!e.desconectados.contiene("Ana"));
    assert_eq!(e.turno_actual, "b");
}

#[test]
fn abandono_en_espera() {
    let mut e = sala();
    let l = lineas(&desconectar(&mut e, "x"));
    assert_eq!(l, vec![format!("todos {}", build_estado_snap(&e))]);
    assert!(!e.jugadores.contiene("a"));
    assert!(desconectar(&mut e, "y").is_empty());
    assert!(desconectar(&mut e, "y").is_empty());
    assert!(e.jugadores.is_empty());
}

#[test]
fn comenzar_de_nuevo() {
    let mut e = aliadas();
    assert_eq!(
        lineas(&recomenzar(&mut e, "s9".to_string())),
        vec!["cancelar todas".to_string(), "detener reloj".to_string()]
    );
    assert_eq!(e.sesion_id, "s9");
    assert_eq!(e.fase, Fase::Espera);
    assert!(e.jugadores.is_empty() && e.alianzas.is_empty() && e.monstruos.is_empty());
    let mut f = juego();
    assert!(reset_juego(&mut f).is_some());
    assert!(f.sesion_id.starts_with('s') && f.sesion_id.len() > 10);
    assert!(conectar(&f).is_none());
}

#[test]
fn dos_ausentes_con_un_nombre() {
    let mut e = sala();
    llegar(&mut e, "w", "Ana", "c".to_string());
    handle_message(&mut e, "x", Peticion::IniciarJuego);
    desconectar(&mut e, "x");
    desconectar(&mut e, "w");
    // The later one is who comes back; the countdown of the earlier one then changes nothing.
    handle_message(&mut e, "n", Peticion::Unirse { nombre: "Ana".to_string() });
    assert_eq!(e.addr_to_id.buscar("n").unwrap(), "c");
    assert_eq!(lineas(&vencer_gracia(&mut e, "Ana", "a")), vec!["olvidar Ana".to_string()]);
    assert!(e.jugadores.contiene("c"));
}

#[test]
fn regreso_con_lo_de_entonces() {
    let mut e = aliadas();
    desconectar(&mut e, "x");
    // What happens to an absent player is undone when they come back.
    let mut j = e.jugadores.buscar("a").unwrap().clone();
    j.puntos = 50;
    e.jugadores.poner("a".to_string(), j);
    handle_message(&mut e, "n", Peticion::Unirse { nombre: "Ana".to_string() });
    assert_eq!(puntos(&e, "a"), 6);
}
