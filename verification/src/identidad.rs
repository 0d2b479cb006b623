//! Fresh identifiers for players and sessions, made from the clock and from chance.

use vstd::prelude::*;
use crate::texto::{decimal, escribir_decimal};

verus! {

/// A reading of the system clock.
#[verifier::external_type_specification]
#[verifier::external_body]
pub struct ExSystemTime(std::time::SystemTime);

/// The error of a clock that reads a time before the one it is compared with.
#[verifier::external_type_specification]
#[verifier::external_body]
pub struct ExSystemTimeError(std::time::SystemTimeError);

/// `SystemTime::now` of std: the time is whatever the clock reads, so nothing is claimed of it.
pub assume_specification[ std::time::SystemTime::now ]() -> (r: std::time::SystemTime)
;

/// How far a reading of the clock is from the Unix epoch, in nanoseconds; negative before it.
pub uninterp spec fn nanos_unix(t: std::time::SystemTime) -> int;

/// How long a duration is, in nanoseconds.
pub uninterp spec fn nanos(d: std::time::Duration) -> nat;

/// `SystemTime::duration_since` of std, from the Unix epoch: how long ago the epoch was at the
/// given time, or an error for a time before the epoch.
#[verifier::external_body]
fn desde_epoca(t: std::time::SystemTime) -> (r: Result<
    std::time::Duration,
    std::time::SystemTimeError,
>)
    ensures
        match r {
            Ok(d) => nanos_unix(t) == nanos(d),
            Err(_) => nanos_unix(t) < 0,
        },
{
    t.duration_since(std::time::UNIX_EPOCH)
}

/// `Duration::as_millis` of std: the number of whole milliseconds of the duration.
pub assume_specification[ std::time::Duration::as_millis ](d: &std::time::Duration) -> (r: u128)
    ensures
        r == nanos(*d) / 1_000_000,
;

/// `Rng::gen` of `rand` on the generator of the thread: any 16-bit number may come out, so nothing
/// is claimed of it.
#[verifier::external_body]
fn azar() -> (r: u16) {
    rand::Rng::gen::<u16>(&mut rand::thread_rng())
}

/// The whole milliseconds from the Unix epoch to a reading of the clock; none where the clock is
/// set before the epoch.
pub open spec fn milis_de(t: std::time::SystemTime) -> Option<nat> {
    if nanos_unix(t) < 0 {
        None
    } else {
        Some((nanos_unix(t) as nat) / 1_000_000)
    }
}

/// The whole milliseconds from the Unix epoch to the given time. `None` where that is before the
/// epoch.
pub fn milisegundos_en(t: std::time::SystemTime) -> (r: Option<u128>)
    ensures
        match r {
            Some(m) => milis_de(t) == Some(m as nat),
            None => milis_de(t) is None,
        },
{
    match desde_epoca(t) {
        Ok(d) => Some(d.as_millis()),
        Err(_) => None,
    }
}

/// The milliseconds since the Unix epoch, as the clock reads. `None` where the clock is set before
/// it.
fn milisegundos() -> (r: Option<u128>)
    ensures
        exists|t: std::time::SystemTime|
            match r {
                Some(m) => #[trigger] milis_de(t) == Some(m as nat),
                None => milis_de(t) is None,
            },
{
    let t = std::time::SystemTime::now();
    let r = milisegundos_en(t);
    assert(milis_de(t) is Some == r is Some);
    r
}

/// The identifier of a session that starts at the time `t`.
pub open spec fn id_sesion(t: nat) -> Seq<char> {
    "s"@ + decimal(t)
}

/// The identifier of a player who joins at the time `t` and draws the number `n`.
pub open spec fn id_jugador(t: nat, n: nat) -> Seq<char> {
    "j"@ + decimal(t) + "_"@ + decimal(n)
}

/// The identifier of a session that starts at the time `t`.
pub fn sesion_id_en(t: u128) -> (r: String)
    ensures
        r@ == id_sesion(t as nat),
{
    let mut r = "s".to_string();
    r.append(escribir_decimal(t).as_str());
    r
}

/// The identifier of a player who joins at the time `t` and draws the number `n`.
pub fn jugador_id_en(t: u128, n: u16) -> (r: String)
    ensures
        r@ == id_jugador(t as nat, n as nat),
{
    let mut r = "j".to_string();
    r.append(escribir_decimal(t).as_str());
    r.append("_");
    r.append(escribir_decimal(n as u128).as_str());
    r
}

/// Whether `s` is the identifier of a session that starts at some time.
pub open spec fn es_id_sesion(s: Seq<char>) -> bool {
    exists|t: u128| s == #[trigger] id_sesion(t as nat)
}

/// Whether `s` is the identifier of a player who joins at some time.
pub open spec fn es_id_jugador(s: Seq<char>) -> bool {
    exists|t: u128, n: u16| s == #[trigger] id_jugador(t as nat, n as nat)
}

/// The identifier of a session that starts when the clock reads `t`; none where the clock is set
/// before the Unix epoch.
pub open spec fn sesion_en(t: std::time::SystemTime) -> Option<Seq<char>> {
    match milis_de(t) {
        Some(m) => Some(id_sesion(m)),
        None => None,
    }
}

/// The identifier of a player who joins when the clock reads `t` and draws the number `n`; none
/// where the clock is set before the Unix epoch.
pub open spec fn jugador_en(t: std::time::SystemTime, n: u16) -> Option<Seq<char>> {
    match milis_de(t) {
        Some(m) => Some(id_jugador(m, n as nat)),
        None => None,
    }
}

/// An identifier for a session that starts now, that is, when the clock reads some time `t`. `None`
/// where that is before the Unix epoch, and only there.
pub fn generar_sesion_id() -> (r: Option<String>)
    ensures
        exists|t: std::time::SystemTime|
            match r {
                Some(s) => #[trigger] sesion_en(t) == Some(s@),
                None => sesion_en(t) is None,
            },
        r matches Some(s) ==> es_id_sesion(s@),
{
    let m = milisegundos();
    let ghost t = choose|t: std::time::SystemTime|
        match m {
            Some(x) => #[trigger] milis_de(t) == Some(x as nat),
            None => milis_de(t) is None,
        };
    assert(sesion_en(t) is Some == m is Some);
    match m {
        Some(x) => Some(sesion_id_en(x)),
        None => None,
    }
}

/// An identifier for a player who joins now, that is, when the clock reads some time `t`, and draws
/// some number `n`. `None` where the time is before the Unix epoch, and only there.
pub fn generar_id() -> (r: Option<String>)
    ensures
        exists|t: std::time::SystemTime, n: u16|
            match r {
                Some(s) => #[trigger] jugador_en(t, n) == Some(s@),
                None => jugador_en(t, n) is None,
            },
        r matches Some(s) ==> es_id_jugador(s@),
{
    let m = milisegundos();
    let ghost t = choose|t: std::time::SystemTime|
        match m {
            Some(x) => #[trigger] milis_de(t) == Some(x as nat),
            None => milis_de(t) is None,
        };
    match m {
        Some(x) => {
            let n: u16 = azar();
            assert(jugador_en(t, n) is Some);
            Some(jugador_id_en(x, n))
        },
        None => {
            assert(jugador_en(t, 0) is None);
            None
        },
    }
}

} // verus!
