//! WebSocket frames: how the bytes of a frame are read and written.

use vstd::prelude::*;

verus! {

/// The number that the bytes spell, most significant byte first.
pub open spec fn be_valor(b: Seq<u8>) -> nat
    decreases b.len(),
{
    if b.len() == 0 {
        0
    } else {
        be_valor(b.drop_last()) * 256 + b.last() as nat
    }
}

/// The `k` bytes of `n`, most significant byte first.
pub open spec fn be_bytes(n: nat, k: nat) -> Seq<u8>
    decreases k,
{
    if k == 0 {
        seq![]
    } else {
        be_bytes(n / 256, (k - 1) as nat).push((n % 256) as u8)
    }
}

/// `256` to the power `k`: how many numbers fit in `k` bytes.
pub open spec fn capacidad(k: nat) -> nat
    decreases k,
{
    if k == 0 {
        1
    } else {
        256 * capacidad((k - 1) as nat)
    }
}

/// Writing a number in `k` bytes and reading it back gives the number.
pub proof fn ley_be_ida_y_vuelta(n: nat, k: nat)
    requires
        n < capacidad(k),
    ensures
        be_bytes(n, k).len() == k,
        be_valor(be_bytes(n, k)) == n,
    decreases k,
{
    if k > 0 {
        ley_be_ida_y_vuelta(n / 256, (k - 1) as nat);
        assert(be_bytes(n, k).drop_last() =~= be_bytes(n / 256, (k - 1) as nat));
    }
}

/// What `b` bytes spell stays below the capacity of their number.
pub proof fn lema_be_cota(b: Seq<u8>)
    ensures
        be_valor(b) < capacidad(b.len()),
    decreases b.len(),
{
    if b.len() > 0 {
        lema_be_cota(b.drop_last());
    }
}

proof fn lema_capacidades()
    ensures
        capacidad(2) == 0x1_0000,
        capacidad(8) == 0x1_0000_0000_0000_0000,
{
    reveal_with_fuel(capacidad, 9);
}

/// Each byte combined by exclusive or with the mask byte of its turn; the four mask bytes repeat.
pub open spec fn enmascarar(p: Seq<u8>, m: Seq<u8>) -> Seq<u8> {
    Seq::new(p.len(), |i: int| p[i] ^ m[i % 4])
}

/// How many bytes follow the second byte to give the payload length: none where the length is in
/// the second byte itself.
pub open spec fn ancho_extension(b1: u8) -> nat {
    if b1 % 128 == 126 {
        2
    } else if b1 % 128 == 127 {
        8
    } else {
        0
    }
}

/// How many mask bytes the frame holds.
pub open spec fn ancho_mascara(b1: u8) -> nat {
    if b1 >= 128 {
        4
    } else {
        0
    }
}

/// The payload length that a frame announces, as this machine can address it. The frame starts
/// with `b`, which reaches at least to the end of the length.
pub open spec fn largo_carga(b: Seq<u8>) -> nat {
    let e = ancho_extension(b[1]);
    if e == 0 {
        (b[1] % 128) as nat
    } else {
        ((be_valor(b.subrange(2, 2 + e as int)) as u64) as usize) as nat
    }
}

/// The outcome of reading a frame, over mathematical values.
pub enum LecturaV {
    Faltan(nat),
    Trama { opcode: u8, carga: Seq<u8> },
}

/// What the bytes received so far hold: either a whole frame at their start, or the beginning
/// of one, whose next part lacks some bytes. The parts are the first two bytes, the extended
/// length, the mask and the payload.
pub open spec fn leer_trama(b: Seq<u8>) -> LecturaV {
    if b.len() < 2 {
        LecturaV::Faltan((2 - b.len()) as nat)
    } else {
        let e = ancho_extension(b[1]);
        let m = ancho_mascara(b[1]);
        if b.len() < 2 + e {
            LecturaV::Faltan((2 + e - b.len()) as nat)
        } else if b.len() < 2 + e + m {
            LecturaV::Faltan((2 + e + m - b.len()) as nat)
        } else {
            let inicio = (2 + e + m) as int;
            let largo = largo_carga(b) as int;
            if b.len() < inicio + largo {
                LecturaV::Faltan((inicio + largo - b.len()) as nat)
            } else {
                let cruda = b.subrange(inicio, inicio + largo);
                LecturaV::Trama {
                    opcode: b[0] % 16,
                    carga: if m == 0 {
                        cruda
                    } else {
                        enmascarar(cruda, b.subrange(2 + e as int, inicio))
                    },
                }
            }
        }
    }
}

/// The outcome of reading a frame.
pub enum Lectura {
    /// The frame is not complete: this many bytes more are needed for its next part.
    Faltan(usize),
    /// A whole frame: its opcode, and its payload with the mask taken off.
    Trama { opcode: u8, carga: Vec<u8> },
}

impl View for Lectura {
    type V = LecturaV;

    open spec fn view(&self) -> LecturaV {
        match *self {
            Lectura::Faltan(n) => LecturaV::Faltan(n as nat),
            Lectura::Trama { opcode, carga } => LecturaV::Trama { opcode, carga: carga@ },
        }
    }
}

/// The number that the bytes from `desde` up to `hasta` spell, most significant byte first.
fn leer_be(b: &[u8], desde: usize, hasta: usize) -> (r: u64)
    requires
        desde <= hasta <= b@.len(),
        hasta - desde <= 8,
    ensures
        r == be_valor(b@.subrange(desde as int, hasta as int)),
{
    let mut r: u64 = 0;
    let mut i: usize = desde;
    while i < hasta
        invariant
            desde <= i <= hasta <= b@.len(),
            hasta - desde <= 8,
            r == be_valor(b@.subrange(desde as int, i as int)),
        decreases hasta - i,
    {
        proof {
            let s = b@.subrange(desde as int, i as int);
            let t = b@.subrange(desde as int, i + 1);
            lema_be_cota(t);
            reveal_with_fuel(capacidad, 9);
            assert(t.drop_last() =~= s);
        }
        r = r * 256 + b[i] as u64;
        i = i + 1;
    }
    r
}

/// Reads one WebSocket frame from the bytes received so far.
pub fn ws_read_frame(b: &[u8]) -> (r: Lectura)
    ensures
        r@ == leer_trama(b@),
{
    if b.len() < 2 {
        return Lectura::Faltan(2 - b.len());
    }
    let b0: u8 = b[0];
    let b1: u8 = b[1];
    assert(b0 & 0x0F == b0 % 16) by (bit_vector);
    assert(b1 & 0x7F == b1 % 128) by (bit_vector);
    assert((b1 & 0x80 != 0) == (b1 >= 128)) by (bit_vector);
    let opcode: u8 = b0 & 0x0F;
    let enmascarada = (b1 & 0x80) != 0;
    let corto: u8 = b1 & 0x7F;
    let e: usize = if corto == 126 {
        2
    } else if corto == 127 {
        8
    } else {
        0
    };
    let m: usize = if enmascarada {
        4
    } else {
        0
    };
    if b.len() < 2 + e {
        return Lectura::Faltan(2 + e - b.len());
    }
    if b.len() < 2 + e + m {
        return Lectura::Faltan(2 + e + m - b.len());
    }
    let inicio: usize = 2 + e + m;
    let largo: usize = if e == 0 {
        corto as usize
    } else {
        #[verifier::truncate]
        (leer_be(b, 2, 2 + e) as usize)
    };
    if b.len() - inicio < largo {
        return Lectura::Faltan(largo - (b.len() - inicio));
    }
    let fin: usize = inicio + largo;
    let mut carga: Vec<u8> = Vec::new();
    let mut i: usize = 0;
    while i < largo
        invariant
            i <= largo,
            inicio == 2 + e + m,
            inicio + largo == fin <= b@.len(),
            m == (if enmascarada { 4int } else { 0int }),
            carga@.len() == i,
            forall|j: int|
                0 <= j < i ==> #[trigger] carga@[j] == (if enmascarada {
                    b@[inicio + j] ^ b@[2 + e + j % 4]
                } else {
                    b@[inicio + j]
                }),
        decreases largo - i,
    {
        if enmascarada {
            carga.push(b[inicio + i] ^ b[2 + e + i % 4]);
        } else {
            carga.push(b[inicio + i]);
        }
        i = i + 1;
    }
    proof {
        let cruda = b@.subrange(inicio as int, inicio + largo);
        if enmascarada {
            assert(carga@ =~= enmascarar(cruda, b@.subrange(2 + e as int, inicio as int)));
        } else {
            assert(carga@ =~= cruda);
        }
    }
    Lectura::Trama { opcode, carga }
}

/// How an unmasked frame gives the length of its payload.
pub open spec fn largo_codificado(n: nat) -> Seq<u8> {
    if n < 126 {
        seq![n as u8]
    } else if n < 65536 {
        seq![126u8] + be_bytes(n, 2)
    } else {
        seq![127u8] + be_bytes(n, 8)
    }
}

/// The unmasked final text frame with payload `p`.
pub open spec fn trama_texto(p: Seq<u8>) -> Seq<u8> {
    seq![0x81u8] + largo_codificado(p.len()) + p
}

/// The unmasked final pong frame with payload `p`, whose length is written in one byte.
pub open spec fn trama_pong(p: Seq<u8>) -> Seq<u8> {
    seq![0x8Au8, (p.len() % 256) as u8] + p
}

/// Appends the bytes of `p` to `v`.
fn anexar(v: &mut Vec<u8>, p: &[u8])
    ensures
        final(v)@ == old(v)@ + p@,
{
    v.extend_from_slice(p);
    assert(v@ =~= old(v)@ + p@);
}

/// Appends the `k` bytes of `n` to `v`, most significant byte first.
fn anexar_be(v: &mut Vec<u8>, n: u64, k: usize)
    ensures
        final(v)@ == old(v)@ + be_bytes(n as nat, k as nat),
    decreases k,
{
    if k > 0 {
        anexar_be(v, n / 256, k - 1);
        v.push((n % 256) as u8);
    }
    assert(v@ =~= old(v)@ + be_bytes(n as nat, k as nat));
}

/// Writes one WebSocket text frame, unmasked, as a server sends it.
pub fn ws_make_text_frame(msg: &str) -> (frame: Vec<u8>)
    ensures
        frame@ == trama_texto(vstd::utf8::encode_utf8(msg@)),
{
    let payload = msg.as_bytes();
    let len: usize = payload.len();
    let mut frame: Vec<u8> = Vec::new();
    frame.push(0x81u8);
    if len < 126 {
        frame.push(len as u8);
    } else if len < 65536 {
        frame.push(126);
        anexar_be(&mut frame, len as u64, 2);
    } else {
        frame.push(127);
        anexar_be(&mut frame, len as u64, 8);
    }
    anexar(&mut frame, payload);
    assert(frame@ =~= trama_texto(payload@));
    frame
}

/// Writes a pong frame.
pub fn ws_make_pong_frame(payload: &[u8]) -> (frame: Vec<u8>)
    ensures
        frame@ == trama_pong(payload@),
{
    let mut frame: Vec<u8> = Vec::new();
    let len: usize = payload.len();
    assert(len as u8 == len % 256) by (bit_vector);
    frame.push(0x8Au8);
    frame.push(len as u8);
    anexar(&mut frame, payload);
    assert(frame@ =~= trama_pong(payload@));
    frame
}

/// The masked final frame with opcode `op`, mask `m` and payload `p`, as a client sends it.
pub open spec fn trama_cliente(op: u8, m: Seq<u8>, p: Seq<u8>) -> Seq<u8> {
    let l = largo_codificado(p.len());
    seq![(0x80 + op) as u8] + l.update(0, (0x80 + l[0]) as u8) + m + enmascarar(p, m)
}

/// Masking twice with the same mask gives the payload back.
pub proof fn ley_enmascarar_involucion(p: Seq<u8>, m: Seq<u8>)
    ensures
        enmascarar(enmascarar(p, m), m) == p,
{
    assert forall|i: int| 0 <= i < p.len() implies #[trigger] enmascarar(
        enmascarar(p, m),
        m,
    )[i] == p[i] by {
        let a = p[i];
        let b = m[i % 4];
        assert((a ^ b) ^ b == a) by (bit_vector);
    }
    assert(enmascarar(enmascarar(p, m), m) =~= p);
}

/// What the length prefix of a frame says is read back.
proof fn lema_largo_codificado(n: nat)
    requires
        n <= usize::MAX,
    ensures
        ({
            let l = largo_codificado(n);
            &&& l.len() == 1 + ancho_extension(l[0])
            &&& l[0] < 128
            &&& ancho_extension(l[0]) == 0 ==> l[0] == n
            &&& ancho_extension(l[0]) != 0 ==> be_valor(l.skip(1)) == n
        }),
{
    lema_capacidades();
    let l = largo_codificado(n);
    if n < 126 {
    } else if n < 65536 {
        ley_be_ida_y_vuelta(n, 2);
        assert(l.skip(1) =~= be_bytes(n, 2));
    } else {
        ley_be_ida_y_vuelta(n, 8);
        assert(l.skip(1) =~= be_bytes(n, 8));
    }
}

/// The number that two bytes spell from position `i` on.
pub open spec fn dos_bytes(b: Seq<u8>, i: int) -> int {
    b[i] * 256 + b[i + 1]
}

/// The number that eight bytes spell from position `i` on.
pub open spec fn ocho_bytes(b: Seq<u8>, i: int) -> int {
    dos_bytes(b, i) * 0x1_0000_0000_0000 + dos_bytes(b, i + 2) * 0x1_0000_0000 + dos_bytes(b, i + 4)
        * 0x1_0000 + dos_bytes(b, i + 6)
}

proof fn lema_dos_bytes(s: Seq<u8>)
    requires
        s.len() == 2,
    ensures
        be_valor(s) == dos_bytes(s, 0),
{
    reveal_with_fuel(be_valor, 3);
    assert(s.drop_last().last() == s[0]);
    assert(s.drop_last().drop_last().len() == 0);
}

proof fn lema_ocho_bytes(s: Seq<u8>)
    requires
        s.len() == 8,
    ensures
        be_valor(s) == ocho_bytes(s, 0),
{
    let s6 = s.take(6);
    let s4 = s.take(4);
    let s2 = s.take(2);
    lema_dos_bytes(s2);
    assert(be_valor(s4) == be_valor(s2) * 65536 + dos_bytes(s, 2)) by {
        reveal_with_fuel(be_valor, 3);
        assert(s4.drop_last().drop_last() =~= s2);
        assert(s4.last() == s[3]);
        assert(s4.drop_last().last() == s[2]);
    }
    assert(be_valor(s6) == be_valor(s4) * 65536 + dos_bytes(s, 4)) by {
        reveal_with_fuel(be_valor, 3);
        assert(s6.drop_last().drop_last() =~= s4);
        assert(s6.last() == s[5]);
        assert(s6.drop_last().last() == s[4]);
    }
    assert(be_valor(s) == be_valor(s6) * 65536 + dos_bytes(s, 6)) by {
        reveal_with_fuel(be_valor, 3);
        assert(s.drop_last().drop_last() =~= s6);
        assert(s.last() == s[7]);
        assert(s.drop_last().last() == s[6]);
    }
}

/// Where the mask of a frame starts, or its payload if it has no mask: behind the length, which
/// takes two or eight bytes more where the second byte says so in its lower seven bits.
pub open spec fn tras_largo(b: Seq<u8>) -> int {
    if b[1] & 0x7F == 126 {
        4
    } else if b[1] & 0x7F == 127 {
        10
    } else {
        2
    }
}

/// Where the payload of a frame starts: behind the four bytes of the mask, if the upper bit of the
/// second byte says that there is one.
pub open spec fn tras_mascara(b: Seq<u8>) -> int {
    if b[1] & 0x80 != 0 {
        tras_largo(b) + 4
    } else {
        tras_largo(b)
    }
}

/// How long the payload of a frame is, by what its header says.
pub open spec fn largo_dicho(b: Seq<u8>) -> int {
    if b[1] & 0x7F == 126 {
        dos_bytes(b, 2)
    } else if b[1] & 0x7F == 127 {
        ocho_bytes(b, 2)
    } else {
        (b[1] & 0x7F) as int
    }
}

/// What the header of a frame says, in terms of its parts.
proof fn lema_partes(b: Seq<u8>)
    requires
        b.len() >= 2,
        b.len() >= tras_largo(b),
    ensures
        tras_largo(b) == 2 + ancho_extension(b[1]),
        tras_mascara(b) == 2 + ancho_extension(b[1]) + ancho_mascara(b[1]),
        largo_dicho(b) <= usize::MAX ==> largo_carga(b) == largo_dicho(b),
{
    let x = b[1];
    assert(x & 0x7F == x % 128) by (bit_vector);
    assert((x & 0x80 != 0) == (x >= 128)) by (bit_vector);
    let e = ancho_extension(x) as int;
    let s = b.subrange(2, 2 + e);
    if e == 2 {
        lema_dos_bytes(s);
    } else if e == 8 {
        lema_ocho_bytes(s);
    }
}

/// How a frame is read from bytes that hold all of it. Its opcode is in the lower four bits of the
/// first byte. Its payload is as long as the header says and starts behind the header; where there
/// is a mask, the four bytes of it are taken off the payload in turn.
pub proof fn ley_trama_leida(b: Seq<u8>)
    requires
        b.len() >= 2,
        b.len() >= tras_mascara(b),
        largo_dicho(b) <= usize::MAX,
        b.len() >= tras_mascara(b) + largo_dicho(b),
    ensures
        leer_trama(b) is Trama,
        leer_trama(b)->opcode == b[0] & 0x0F,
        ({
            let p = leer_trama(b)->carga;
            &&& p.len() == largo_dicho(b)
            &&& forall|i: int|
                0 <= i < p.len() ==> #[trigger] p[i] == (if b[1] & 0x80 != 0 {
                    b[tras_mascara(b) + i] ^ b[tras_largo(b) + i % 4]
                } else {
                    b[tras_mascara(b) + i]
                })
        }),
{
    let y = b[0];
    assert(y & 0x0F == y % 16) by (bit_vector);
    let x = b[1];
    assert((x & 0x80 != 0) == (x >= 128)) by (bit_vector);
    lema_partes(b);
}

/// Bytes that do not hold a whole frame: as many more are asked for as the next part of it lacks,
/// be that the first two bytes, the length, the mask or the payload.
pub proof fn ley_trama_incompleta(b: Seq<u8>)
    requires
        b.len() >= tras_largo(b) ==> largo_dicho(b) <= usize::MAX,
    ensures
        b.len() < 2 ==> leer_trama(b) == LecturaV::Faltan((2 - b.len()) as nat),
        2 <= b.len() < tras_largo(b) ==> leer_trama(b) == LecturaV::Faltan(
            (tras_largo(b) - b.len()) as nat,
        ),
        2 <= b.len() && tras_largo(b) <= b.len() < tras_mascara(b) ==> leer_trama(b)
            == LecturaV::Faltan((tras_mascara(b) - b.len()) as nat),
        2 <= b.len() && tras_mascara(b) <= b.len() < tras_mascara(b) + largo_dicho(b)
            ==> leer_trama(b) == LecturaV::Faltan(
            (tras_mascara(b) + largo_dicho(b) - b.len()) as nat,
        ),
{
    let x = b[1];
    assert(x & 0x7F == x % 128) by (bit_vector);
    assert((x & 0x80 != 0) == (x >= 128)) by (bit_vector);
    if b.len() >= 2 && b.len() >= tras_largo(b) {
        lema_partes(b);
    }
}

/// How a text frame is written: a final frame with opcode 1 and without a mask, the length in as few
/// bytes as its size allows, and the payload.
pub proof fn ley_trama_texto(p: Seq<u8>)
    requires
        p.len() <= usize::MAX,
    ensures
        ({
            let b = trama_texto(p);
            let n = p.len();
            &&& b[0] == 0x81
            &&& n < 126 ==> b[1] == n && b.skip(2) == p
            &&& 126 <= n < 65536 ==> b[1] == 126 && dos_bytes(b, 2) == n && b.skip(4) == p
            &&& n >= 65536 ==> b[1] == 127 && ocho_bytes(b, 2) == n && b.skip(10) == p
        }),
{
    lema_capacidades();
    let b = trama_texto(p);
    let n = p.len();
    if n < 126 {
        assert(b.skip(2) =~= p);
    } else if n < 65536 {
        let s = be_bytes(n, 2);
        ley_be_ida_y_vuelta(n, 2);
        lema_dos_bytes(s);
        assert(b[2] == s[0] && b[3] == s[1]);
        assert(b.skip(4) =~= p);
    } else {
        let s = be_bytes(n, 8);
        ley_be_ida_y_vuelta(n, 8);
        lema_ocho_bytes(s);
        assert forall|i: int| 0 <= i < 8 implies b[2 + i] == #[trigger] s[i] by {}
        assert(ocho_bytes(b, 2) == ocho_bytes(s, 0)) by {
            assert(b[2] == s[0] && b[3] == s[1] && b[4] == s[2] && b[5] == s[3]);
            assert(b[6] == s[4] && b[7] == s[5] && b[8] == s[6] && b[9] == s[7]);
        }
        assert(b.skip(10) =~= p);
    }
}

/// How a pong frame is written: a final frame with opcode 10 and without a mask, the lower eight
/// bits of the length, and the payload.
pub proof fn ley_trama_pong(p: Seq<u8>)
    ensures
        trama_pong(p)[0] == 0x8A,
        trama_pong(p)[1] == p.len() % 256,
        trama_pong(p).skip(2) == p,
{
    assert(trama_pong(p).skip(2) =~= p);
}

/// A text frame is read back as a text frame with the payload that was written.
pub proof fn ley_trama_texto_ida_y_vuelta(p: Seq<u8>)
    requires
        p.len() <= usize::MAX,
    ensures
        leer_trama(trama_texto(p)) == (LecturaV::Trama { opcode: 1, carga: p }),
{
    lema_largo_codificado(p.len());
    let b = trama_texto(p);
    let l = largo_codificado(p.len());
    let e = ancho_extension(l[0]) as int;
    assert(b[1] == l[0]);
    assert(b.subrange(2, 2 + e) =~= l.skip(1));
    assert(b.subrange(2 + e, 2 + e + p.len()) =~= p);
}

/// The text of a text frame is read back: the payload of the frame is the UTF-8 form of the
/// message.
pub proof fn ley_mensaje_ida_y_vuelta(msg: Seq<char>)
    requires
        vstd::utf8::encode_utf8(msg).len() <= usize::MAX,
    ensures
        leer_trama(trama_texto(vstd::utf8::encode_utf8(msg))) matches LecturaV::Trama {
            opcode,
            carga,
        } && opcode == 1 && vstd::utf8::valid_utf8(carga) && vstd::utf8::decode_utf8(carga) == msg,
{
    let p = vstd::utf8::encode_utf8(msg);
    ley_trama_texto_ida_y_vuelta(p);
    vstd::utf8::encode_utf8_valid_utf8(msg);
    vstd::utf8::encode_utf8_decode_utf8(msg);
}

/// A pong frame whose payload is short enough for a control frame is read back.
pub proof fn ley_trama_pong_ida_y_vuelta(p: Seq<u8>)
    requires
        p.len() <= 125,
    ensures
        leer_trama(trama_pong(p)) == (LecturaV::Trama { opcode: 10, carga: p }),
{
    let b = trama_pong(p);
    assert(b.subrange(2, 2 + p.len() as int) =~= p);
}

/// A masked frame of a client is read as its opcode and its payload before masking.
pub proof fn ley_trama_cliente(op: u8, m: Seq<u8>, p: Seq<u8>)
    requires
        op < 16,
        m.len() == 4,
        p.len() <= usize::MAX,
    ensures
        leer_trama(trama_cliente(op, m, p)) == (LecturaV::Trama { opcode: op, carga: p }),
{
    lema_largo_codificado(p.len());
    let b = trama_cliente(op, m, p);
    let l = largo_codificado(p.len());
    let e = ancho_extension(l[0]) as int;
    assert(b[1] == 0x80 + l[0]);
    assert(b[0] == 0x80 + op);
    assert(b.subrange(2, 2 + e) =~= l.skip(1));
    assert(b.subrange(2 + e, 6 + e) =~= m);
    assert(b.subrange(6 + e, 6 + e + p.len()) =~= enmascarar(p, m));
    ley_enmascarar_involucion(p, m);
}

/// A reader that is told how many bytes are missing never has a frame before it got them: with
/// fewer, the frame is still incomplete.
pub proof fn ley_faltan_necesarios(b: Seq<u8>, c: Seq<u8>)
    requires
        leer_trama(b) matches LecturaV::Faltan(n) && c.len() < n,
    ensures
        leer_trama(b + c) is Faltan,
{
    let t = b + c;
    if b.len() >= 2 {
        assert(t[1] == b[1]);
        let e = ancho_extension(b[1]) as int;
        if b.len() >= 2 + e {
            assert(t.subrange(2, 2 + e) =~= b.subrange(2, 2 + e));
        }
    }
}

/// A reader that is told how many bytes are missing is told at least one, and never more than the
/// frame still has: where `b` and `c` together hold a whole frame, `c` has as many.
pub proof fn ley_faltan_suficientes(b: Seq<u8>, c: Seq<u8>)
    requires
        leer_trama(b) is Faltan,
        leer_trama(b + c) is Trama,
    ensures
        0 < leer_trama(b)->Faltan_0 <= c.len(),
{
    let t = b + c;
    if b.len() >= 2 {
        assert(t[1] == b[1]);
        let e = ancho_extension(b[1]) as int;
        if b.len() >= 2 + e {
            assert(t.subrange(2, 2 + e) =~= b.subrange(2, 2 + e));
        }
    }
}

/// Once a whole frame is there, bytes behind it do not change how it is read.
pub proof fn ley_trama_prefijo(b: Seq<u8>, c: Seq<u8>)
    requires
        leer_trama(b) is Trama,
    ensures
        leer_trama(b + c) == leer_trama(b),
{
    let t = b + c;
    let e = ancho_extension(b[1]) as int;
    let m = ancho_mascara(b[1]) as int;
    assert(t[1] == b[1]);
    assert(t.subrange(2, 2 + e) =~= b.subrange(2, 2 + e));
    assert(t.subrange(2 + e, 2 + e + m) =~= b.subrange(2 + e, 2 + e + m));
    let largo = largo_carga(b) as int;
    assert(t.subrange(2 + e + m, 2 + e + m + largo) =~= b.subrange(2 + e + m, 2 + e + m + largo));
}

} // verus!
