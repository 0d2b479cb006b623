use halloween_game::trama::{ws_make_pong_frame, ws_make_text_frame, ws_read_frame, Lectura};

fn leida(b: &[u8]) -> (u8, Vec<u8>) {
    match ws_read_frame(b) {
        Lectura::Trama { opcode, carga } => (opcode, carga),
        Lectura::Faltan(n) => panic!("{} bytes are missing", n),
    }
}

fn faltan(b: &[u8]) -> usize {
    match ws_read_frame(b) {
        Lectura::Faltan(n) => n,
        Lectura::Trama { .. } => panic!("the frame is complete"),
    }
}

#[test]
fn trama_corta() {
    let f = ws_make_text_frame("hola");
    assert_eq!(f, vec![0x81, 4, b'h', b'o', b'l', b'a']);
    assert_eq!(leida(&f), (1, b"hola".to_vec()));
}

#[test]
fn trama_vacia() {
    let f = ws_make_text_frame("");
    assert_eq!(f, vec![0x81, 0]);
    assert_eq!(leida(&f), (1, vec![]));
}

#[test]
fn trama_con_acentos() {
    let f = ws_make_text_frame("ñ🧛");
    assert_eq!(f, vec![0x81, 6, 0xC3, 0xB1, 0xF0, 0x9F, 0xA7, 0x9B]);
}

#[test]
fn trama_de_125_y_126() {
    let f = ws_make_text_frame(&"a".repeat(125));
    assert_eq!(f[..2].to_vec(), vec![0x81, 125]);
    assert_eq!(f.len(), 127);
    let g = ws_make_text_frame(&"a".repeat(126));
    assert_eq!(g[..4].to_vec(), vec![0x81, 126, 0, 126]);
    assert_eq!(g.len(), 130);
    assert_eq!(leida(&g), (1, vec![b'a'; 126]));
}

#[test]
fn trama_de_65535_y_65536() {
    let f = ws_make_text_frame(&"b".repeat(65535));
    assert_eq!(f[..4].to_vec(), vec![0x81, 126, 0xFF, 0xFF]);
    assert_eq!(leida(&f).1.len(), 65535);
    let g = ws_make_text_frame(&"b".repeat(65536));
    assert_eq!(g[..10].to_vec(), vec![0x81, 127, 0, 0, 0, 0, 0, 1, 0, 0]);
    assert_eq!(g.len(), 10 + 65536);
    assert_eq!(leida(&g).1.len(), 65536);
}

#[test]
fn pong() {
    assert_eq!(ws_make_pong_frame(&[7, 8]), vec![0x8A, 2, 7, 8]);
    assert_eq!(leida(&ws_make_pong_frame(&[7, 8])), (10, vec![7, 8]));
    let largo = ws_make_pong_frame(&[1; 258]);
    assert_eq!(largo[..2].to_vec(), vec![0x8A, 2]);
    assert_eq!(largo.len(), 260);
}

#[test]
fn trama_enmascarada() {
    // "Hello" as a client sends it.
    let f = [0x81, 0x85, 0x37, 0xfa, 0x21, 0x3d, 0x7f, 0x9f, 0x4d, 0x51, 0x58];
    assert_eq!(leida(&f), (1, b"Hello".to_vec()));
}

#[test]
fn trama_enmascarada_larga() {
    let mascara = [1u8, 2, 3, 4];
    let mut f = vec![0x82, 0x80 | 126, 0, 200];
    f.extend_from_slice(&mascara);
    for i in 0..200usize {
        f.push(9 ^ mascara[i % 4]);
    }
    assert_eq!(leida(&f), (2, vec![9; 200]));
}

#[test]
fn trama_incompleta() {
    assert_eq!(faltan(&[]), 2);
    assert_eq!(faltan(&[0x81]), 1);
    assert_eq!(faltan(&[0x81, 126]), 2);
    assert_eq!(faltan(&[0x81, 127, 0]), 7);
    assert_eq!(faltan(&[0x81, 0x85]), 4);
    assert_eq!(faltan(&[0x81, 0x80 | 126, 0, 5, 1]), 3);
    assert_eq!(faltan(&[0x81, 0x85, 1, 2, 3, 4]), 5);
    assert_eq!(faltan(&[0x81, 3, b'a']), 2);
}

#[test]
fn trama_con_bytes_detras() {
    assert_eq!(leida(&[0x81, 1, b'a', 0x88, 0]), (1, vec![b'a']));
    assert_eq!(leida(&[0x88, 0]), (8, vec![]));
    assert_eq!(leida(&[0x89, 1, 5]), (9, vec![5]));
}

#[test]
fn trama_con_largo_enorme() {
    assert_eq!(
        faltan(&[0x81, 127, 0, 0, 0, 1, 0, 0, 0, 0]) as u64,
        0x1_0000_0000
    );
}
