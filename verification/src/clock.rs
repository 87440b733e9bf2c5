//! Wall-clock time since the Unix epoch.
use vstd::prelude::*;
use std::time::UNIX_EPOCH;

verus! {

/// `SystemTime::elapsed` on `UNIX_EPOCH`, given as its `Duration::as_secs` and
/// `Duration::subsec_nanos`: the whole seconds and the nanoseconds within the
/// second since 1970-01-01 00:00:00 UTC; `None` where the call fails, which it
/// does when the clock reads an earlier time. The reading comes from the
/// system clock, so nothing is stated of it but that the nanoseconds stay
/// below one second.
#[verifier::external_body]
fn read_clock() -> (r: Option<(u64, u32)>)
    ensures
        r matches Some(t) ==> t.1 < 1_000_000_000,
{
    match UNIX_EPOCH.elapsed() {
        Ok(d) => Some((d.as_secs(), d.subsec_nanos())),
        Err(_) => None,
    }
}

/// A clock reading as it can come back: the nanoseconds stay below one second.
pub open spec fn is_reading(reading: Option<(u64, u32)>) -> bool {
    reading matches Some(t) ==> t.1 < 1_000_000_000
}

/// The whole milliseconds of `secs` seconds and `nanos` nanoseconds, reduced
/// modulo 2^64.
pub open spec fn spec_millis(secs: u64, nanos: u32) -> u64 {
    ((secs * 1000 + nanos / 1_000_000) % 0x1_0000_0000_0000_0000) as u64
}

/// The whole seconds of a reading; `None` for a clock before the epoch.
pub open spec fn spec_secs_since_epoch(reading: Option<(u64, u32)>) -> Option<u64> {
    match reading {
        Some(t) => Some(t.0),
        None => None,
    }
}

/// The whole milliseconds of a reading, modulo 2^64; `None` for a clock before
/// the epoch.
pub open spec fn spec_millis_since_epoch(reading: Option<(u64, u32)>) -> Option<u64> {
    match reading {
        Some(t) => Some(spec_millis(t.0, t.1)),
        None => None,
    }
}

/// The whole seconds of a clock reading (see [`spec_secs_since_epoch`]).
pub fn secs_since_epoch(reading: Option<(u64, u32)>) -> (r: Option<u64>)
    ensures
        r == spec_secs_since_epoch(reading),
{
    match reading {
        Some(t) => Some(t.0),
        None => None,
    }
}

/// The whole milliseconds of a clock reading (see [`spec_millis_since_epoch`]).
pub fn millis_since_epoch(reading: Option<(u64, u32)>) -> (r: Option<u64>)
    ensures
        r == spec_millis_since_epoch(reading),
{
    match reading {
        Some(t) => {
            let total: u128 = (t.0 as u128) * 1000 + ((t.1 / 1_000_000) as u128);
            Some(low_64_bits(total))
        },
        None => None,
    }
}

/// The current time in whole seconds since the Unix epoch, from one reading
/// of the clock; `None` when the clock reads a time before the epoch.
pub fn now_secs() -> (r: Option<u64>)
    ensures
        exists|reading: Option<(u64, u32)>|
            is_reading(reading) && r == #[trigger] spec_secs_since_epoch(reading),
{
    let reading = read_clock();
    secs_since_epoch(reading)
}

/// The current time in whole milliseconds since the Unix epoch, modulo 2^64,
/// from one reading of the clock; `None` when the clock reads a time before
/// the epoch.
pub fn now_millis() -> (r: Option<u64>)
    ensures
        exists|reading: Option<(u64, u32)>|
            is_reading(reading) && r == #[trigger] spec_millis_since_epoch(reading),
{
    let reading = read_clock();
    millis_since_epoch(reading)
}

/// The low 64 bits of a 128-bit count.
pub fn low_64_bits(x: u128) -> (r: u64)
    ensures
        r == x % 0x1_0000_0000_0000_0000,
{
    (x % 0x1_0000_0000_0000_0000u128) as u64
}

/// Seconds and milliseconds agree: for one reading whose millisecond count
/// fits in 64 bits, the milliseconds divided by 1000 are the seconds.
pub proof fn law_millis_agree_with_secs(secs: u64, nanos: u32)
    requires
        nanos < 1_000_000_000,
        secs * 1000 + nanos / 1_000_000 < 0x1_0000_0000_0000_0000,
    ensures
        spec_millis(secs, nanos) / 1000 == secs,
        spec_millis_since_epoch(Some((secs, nanos))) matches Some(m) && m / 1000 == secs,
{
    let k: int = nanos as int / 1_000_000;
    assert(0 <= k < 1000);
    let total: int = secs * 1000 + k;
    assert(total % 0x1_0000_0000_0000_0000 == total);
    assert((secs * 1000 + k) / 1000 == secs) by (nonlinear_arith)
        requires
            0 <= k < 1000,
            secs >= 0,
    ;
}

} // verus!
