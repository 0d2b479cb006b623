use halloween_game::peticion::{leer_peticion, Peticion};
use halloween_game::servidor::{recibir_trama, Suceso};
use halloween_game::trama::{ws_read_frame, Lectura};

#[test]
fn pide_unirse() {
    match leer_peticion("{\"tipo\":\"unirse\",\"nombre\":\"Ana \\u00f1\"}") {
        Some(Peticion::Unirse { nombre }) => assert_eq!(nombre, "Ana ñ"),
        _ => panic!("not a request to join"),
    }
}

#[test]
fn pide_iniciar() {
    assert!(matches!(
        leer_peticion("{\"tipo\":\"iniciar_juego\"}"),
        Some(Peticion::IniciarJuego)
    ));
}

#[test]
fn pide_alianza() {
    match leer_peticion("{\"tipo\":\"alianza\",\"alias\":\"z\",\"miembros\":[\"a\",1,null,\"b\",[]]}") {
        Some(Peticion::Alianza { alias, miembros }) => {
            assert_eq!(alias, "z");
            assert_eq!(miembros, vec!["a".to_string(), "b".to_string()]);
        }
        _ => panic!("not an alliance"),
    }
    assert!(leer_peticion("{\"tipo\":\"alianza\",\"alias\":\"z\",\"miembros\":\"a\"}").is_none());
    assert!(leer_peticion("{\"tipo\":\"alianza\",\"miembros\":[]}").is_none());
}

#[test]
fn pide_atacar() {
    match leer_peticion("{\"arma\":\"daga\",\"tipo\":\"atacar\",\"monstruo_id\":\"m2\"}") {
        Some(Peticion::Atacar { monstruo_id, arma }) => {
            assert_eq!(monstruo_id, "m2");
            assert_eq!(arma, "daga");
        }
        _ => panic!("not an attack"),
    }
    assert!(leer_peticion("{\"tipo\":\"atacar\",\"monstruo_id\":\"m2\"}").is_none());
    assert!(leer_peticion("{\"tipo\":\"atacar\",\"arma\":\"daga\"}").is_none());
}

fn cantidad(n: &str) -> Option<i32> {
    match leer_peticion(&format!(
        "{{\"tipo\":\"intercambiar\",\"para\":\"x\",\"cantidad\":{}}}",
        n
    )) {
        Some(Peticion::Intercambiar { para, cantidad }) => {
            assert_eq!(para, "x");
            Some(cantidad)
        }
        Some(_) => panic!("not an exchange"),
        None => None,
    }
}

#[test]
fn pide_intercambiar() {
    assert_eq!(cantidad("5"), Some(5));
    assert_eq!(cantidad("-5"), Some(-5));
    assert_eq!(cantidad("4294967297"), Some(1));
    assert_eq!(cantidad("2147483648"), Some(-2147483648));
    assert_eq!(cantidad("9223372036854775807"), Some(-1));
    assert_eq!(cantidad("9223372036854775808"), None);
    assert_eq!(cantidad("1.5"), None);
    assert_eq!(cantidad("\"5\""), None);
}

#[test]
fn no_pide_nada() {
    assert!(leer_peticion("{\"tipo\":\"bailar\"}").is_none());
    assert!(leer_peticion("{\"tipo\":7}").is_none());
    assert!(leer_peticion("{}").is_none());
    assert!(leer_peticion("[\"tipo\"]").is_none());
    assert!(leer_peticion("no es json").is_none());
    assert!(leer_peticion("{\"tipo\":\"unirse\"}").is_none());
    assert!(leer_peticion("{\"tipo\":\"unirse\",\"nombre\":3}").is_none());
}

#[test]
fn tramas_recibidas() {
    let texto = b"{\"tipo\":\"iniciar_juego\"}".to_vec();
    assert!(matches!(
        recibir_trama(1, texto.clone()),
        Suceso::Pedir(Peticion::IniciarJuego)
    ));
    assert!(matches!(recibir_trama(2, texto.clone()), Suceso::Ignorar));
    assert!(matches!(recibir_trama(8, texto), Suceso::Cerrar));
    assert!(matches!(recibir_trama(9, vec![1]), Suceso::Ignorar));
    assert!(matches!(recibir_trama(1, vec![0xFF]), Suceso::Ignorar));
    assert!(matches!(recibir_trama(1, b"{".to_vec()), Suceso::Ignorar));
}

#[test]
fn peticion_en_trama_enmascarada() {
    let texto = b"{\"tipo\":\"unirse\",\"nombre\":\"Ana\"}";
    let mascara = [0xA1u8, 0x02, 0xFF, 0x37];
    let mut trama = vec![0x81, 0x80 | texto.len() as u8];
    trama.extend_from_slice(&mascara);
    for (i, b) in texto.iter().enumerate() {
        trama.push(b ^ mascara[i % 4]);
    }
    match ws_read_frame(&trama) {
        Lectura::Trama { opcode, carga } => match recibir_trama(opcode, carga) {
            Suceso::Pedir(Peticion::Unirse { nombre }) => assert_eq!(nombre, "Ana"),
            _ => panic!("not a request to join"),
        },
        Lectura::Faltan(_) => panic!("incomplete"),
    }
}
