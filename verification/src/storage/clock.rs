//! Wall-clock time and ages.
use vstd::prelude::*;

verus! {

/// `std::time::SystemTime`, carried through unchanged.
#[verifier::external_type_specification]
#[verifier::external_body]
pub struct ExSystemTime(std::time::SystemTime);

/// Calls `SystemTime::now`. Nothing is claimed of the result, which depends
/// on the time of the call.
#[verifier::external_body]
fn system_now() -> std::time::SystemTime {
    std::time::SystemTime::now()
}

/// Calls `SystemTime::duration_since(UNIX_EPOCH)`: the time from the epoch
/// to `t`, none when `t` lies before the epoch. Nothing is claimed of the
/// value: the time is opaque here.
#[verifier::external_body]
fn time_since_epoch(t: &std::time::SystemTime) -> Option<std::time::Duration> {
    match t.duration_since(std::time::UNIX_EPOCH) {
        Ok(elapsed) => Some(elapsed),
        Err(_) => None,
    }
}

/// Calls `Duration::as_secs`: the whole seconds of `d`. Nothing is claimed
/// of the value: the duration is opaque here.
#[verifier::external_body]
fn whole_seconds(d: &std::time::Duration) -> u64 {
    d.as_secs()
}

/// The Unix time, in seconds, of a clock reading that lies `elapsed` whole
/// seconds after the epoch (none when it lies before): zero before the
/// epoch; beyond `i64::MAX` seconds the value wraps, as a cast does.
pub open spec fn unix_seconds_of(elapsed: Option<u64>) -> i64 {
    match elapsed {
        Some(secs) => secs as i64,
        None => 0,
    }
}

/// The Unix time of a clock reading `elapsed` whole seconds after the epoch
/// (see `unix_seconds_of`).
pub fn unix_seconds(elapsed: Option<u64>) -> (t: i64)
    ensures
        t == unix_seconds_of(elapsed),
{
    match elapsed {
        Some(secs) => {
            #[verifier::truncate]
            let t = secs as i64;
            t
        },
        None => 0,
    }
}

/// The current Unix time in seconds: `unix_seconds` of the system clock's
/// reading. Nothing is claimed of the value, which is the time of the call.
pub fn now_unix() -> i64 {
    let now = system_now();
    let elapsed = match time_since_epoch(&now) {
        Some(d) => Some(whole_seconds(&d)),
        None => None,
    };
    unix_seconds(elapsed)
}

/// `a - b`, saturated to the range of `i64`.
pub open spec fn saturating_diff(a: i64, b: i64) -> i64 {
    let d = a - b;
    if d > i64::MAX {
        i64::MAX
    } else if d < i64::MIN {
        i64::MIN
    } else {
        d as i64
    }
}

/// `a - b`, saturated to the range of `i64` (`i64::saturating_sub`).
pub fn saturating_sub_i64(a: i64, b: i64) -> (r: i64)
    ensures
        r == saturating_diff(a, b),
{
    let d = a as i128 - b as i128;
    if d > i64::MAX as i128 {
        i64::MAX
    } else if d < i64::MIN as i128 {
        i64::MIN
    } else {
        d as i64
    }
}

/// The age in seconds of a timestamp at time `now`.
pub open spec fn age_of(last_seen_at: Option<i64>, now: i64) -> Option<i64> {
    match last_seen_at {
        None => None,
        Some(t) => {
            let d = saturating_diff(now, t);
            Some(if d < 0 { 0 } else { d })
        },
    }
}

/// How many seconds before `now` the timestamp lies, never negative; none
/// without a timestamp.
pub fn age_seconds(last_seen_at: Option<i64>, now: i64) -> (r: Option<i64>)
    ensures
        r == age_of(last_seen_at, now),
        r matches Some(a) ==> a >= 0,
        r is None <==> last_seen_at is None,
{
    match last_seen_at {
        None => None,
        Some(timestamp) => {
            let d = saturating_sub_i64(now, timestamp);
            Some(if d < 0 { 0 } else { d })
        },
    }
}

} // verus!
