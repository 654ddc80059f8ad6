//! The monotonic clock the firmware's timers read, in milliseconds, and the
//! arithmetic on its readings.

use vstd::prelude::*;

verus! {

/// `embassy_time::Instant::now`, in milliseconds since boot. Nothing is
/// promised of the value: it is the time of the call.
#[verifier::external_body]
pub(crate) fn now_millis() -> u64 {
    embassy_time::Instant::now().as_millis()
}

/// Milliseconds from `earlier` to `now`, zero if `earlier` lies ahead.
pub open spec fn since(now: u64, earlier: u64) -> u64 {
    if now >= earlier {
        (now - earlier) as u64
    } else {
        0
    }
}

/// `now` plus `ms`, saturating.
pub open spec fn after(now: u64, ms: u64) -> u64 {
    if now + ms <= u64::MAX {
        (now + ms) as u64
    } else {
        u64::MAX
    }
}

/// Milliseconds from `earlier` to `now`.
pub fn elapsed_ms(now: u64, earlier: u64) -> (d: u64)
    ensures
        d == since(now, earlier),
{
    if now >= earlier {
        now - earlier
    } else {
        0
    }
}

/// The time `ms` milliseconds after `now`.
pub fn later_by(now: u64, ms: u64) -> (t: u64)
    ensures
        t == after(now, ms),
{
    match now.checked_add(ms) {
        Some(t) => t,
        None => u64::MAX,
    }
}

} // verus!
