use halloween_game::saludo::{
    aceptar_clave, clave_websocket, es_linea_clave, escribir_respuesta, ws_handshake, ErrorSaludo,
};

#[test]
fn aceptacion_del_estandar() {
    assert_eq!(
        aceptar_clave("dGhlIHNhbXBsZSBub25jZQ=="),
        "s3pPLMBiTxaQ9kYGzzhZRbK+xOo="
    );
}

#[test]
fn saludo_completo() {
    let peticion = b"GET /chat HTTP/1.1\r\nHost: server\r\nUpgrade: websocket\r\nSec-WebSocket-Key: dGhlIHNhbXBsZSBub25jZQ==\r\n\r\n";
    assert_eq!(
        ws_handshake(peticion),
        Ok("HTTP/1.1 101 Switching Protocols\r\nUpgrade: websocket\r\nConnection: Upgrade\r\nSec-WebSocket-Accept: s3pPLMBiTxaQ9kYGzzhZRbK+xOo=\r\n\r\n".to_string())
    );
}

#[test]
fn saludo_sin_clave() {
    assert_eq!(ws_handshake(b"GET / HTTP/1.1\r\n\r\n"), Err(ErrorSaludo::SinClave));
    assert_eq!(ws_handshake(b""), Err(ErrorSaludo::SinClave));
    assert_eq!(ErrorSaludo::SinClave.texto(), "no sec-websocket-key");
}

#[test]
fn saludo_con_bytes_ajenos() {
    let mut peticion = b"GET /\xFF\xFE HTTP/1.1\n".to_vec();
    peticion.extend_from_slice(b"SEC-WEBSOCKET-KEY:dGhlIHNhbXBsZSBub25jZQ==");
    let r = ws_handshake(&peticion).unwrap();
    assert!(r.ends_with("Accept: s3pPLMBiTxaQ9kYGzzhZRbK+xOo=\r\n\r\n"));
}

#[test]
fn clave_entre_blancos() {
    assert_eq!(
        clave_websocket("a: b\r\nsec-WebSocket-key: \t x:y \r\nz").as_deref(),
        Some("x:y")
    );
    assert_eq!(clave_websocket("Sec-WebSocket-Key:\u{a0}k\u{2003}").as_deref(), Some("k"));
    assert_eq!(clave_websocket("Sec-WebSocket-Key:   \n").as_deref(), Some(""));
}

#[test]
fn todos_los_blancos() {
    let mut n = 0;
    for c in '\0'..=char::MAX {
        let k = clave_websocket(&format!("Sec-WebSocket-Key:k{}", c)).unwrap();
        if c == '\n' {
            continue;
        }
        let blanco = matches!(
            c as u32,
            0x9..=0xd | 0x20 | 0x85 | 0xa0 | 0x1680 | 0x2000..=0x200a | 0x2028 | 0x2029 | 0x202f
                | 0x205f | 0x3000
        );
        assert_eq!(k == "k", blanco, "{:x}", c as u32);
        if blanco {
            n += 1;
        }
    }
    assert_eq!(n, 24);
    assert_eq!(clave_websocket("Sec-WebSocket-Key:\u{3000}k\u{85}").as_deref(), Some("k"));
    assert_eq!(clave_websocket("Sec-WebSocket-Key:\u{200b}k").as_deref(), Some("\u{200b}k"));
}

#[test]
fn aceptacion_de_largo_fijo() {
    for k in ["", "k", "una clave mucho más larga que las demás"] {
        assert_eq!(aceptar_clave(k).len(), 28);
        assert!(aceptar_clave(k).ends_with('='));
    }
}

#[test]
fn clave_de_la_primera_linea() {
    assert_eq!(
        clave_websocket("sec-websocket-key: uno\nsec-websocket-key: dos\n").as_deref(),
        Some("uno")
    );
    assert_eq!(clave_websocket(" sec-websocket-key: uno\n"), None);
    assert_eq!(clave_websocket("sec-websocket-key uno\n"), None);
}

#[test]
fn clave_con_letra_de_otro_alfabeto() {
    // The Kelvin sign is a `k` in lowercase.
    assert_eq!(clave_websocket("sec-websocKet-\u{212A}ey: v").as_deref(), Some("v"));
}

#[test]
fn prefijo_de_la_linea() {
    assert!(es_linea_clave("sec-websocket-key: a"));
    assert!(es_linea_clave("sec-websocket-key:"));
    assert!(!es_linea_clave("sec-websocket-key"));
    assert!(!es_linea_clave("Sec-WebSocket-Key: a"));
}

#[test]
fn respuesta_escrita() {
    assert_eq!(
        escribir_respuesta("x"),
        "HTTP/1.1 101 Switching Protocols\r\nUpgrade: websocket\r\nConnection: Upgrade\r\nSec-WebSocket-Accept: x\r\n\r\n"
    );
}
