use vstd::prelude::*;

verus! {

/// Milliseconds denoted by a wall-clock reading of `sec` seconds and `nsec`
/// nanoseconds, reduced modulo 2^32 (the width of KCP timestamps).
pub open spec fn spec_millis(sec: int, nsec: int) -> int {
    (sec * 1000 + nsec / 1_000_000) % 0x1_0000_0000
}

/// Reads the wall clock through `time::get_time`.
///
/// `time::get_time` builds its result with `Timespec::new`, which asserts
/// that the nanosecond part lies in `0..1_000_000_000`; that range is all this
/// contract claims. The reading itself depends on the machine's clock.
#[verifier::external_body]
fn wall_clock() -> (now: (i64, i32))
    ensures
        0 <= now.1 < 1_000_000_000,
{
    let t = time::get_time();
    (t.sec, t.nsec)
}

/// KCP timestamp (milliseconds, wrapping at 2^32) of a wall-clock reading.
pub fn millis_from_timespec(sec: i64, nsec: i32) -> (ms: u32)
    requires
        0 <= nsec < 1_000_000_000,
    ensures
        ms as int == spec_millis(sec as int, nsec as int),
{
    let total: i128 = (sec as i128) * 1000 + (nsec / 1000 / 1000) as i128;
    assert(nsec / 1000 / 1000 == nsec / 1_000_000);
    let r = total.checked_rem_euclid(0x1_0000_0000i128);
    match r {
        Some(v) => v as u32,
        None => 0,
    }
}

/// The current KCP clock: the wall-clock time in milliseconds, modulo 2^32.
///
/// The reading comes from the machine's clock, so no clause can say which
/// value is returned; `millis_from_timespec` states the conversion.
pub fn clock() -> u32 {
    let (sec, nsec) = wall_clock();
    millis_from_timespec(sec, nsec)
}

} // verus!
