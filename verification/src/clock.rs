//! The wall clock: millisecond epoch timestamps for session and
//! departure stamps.

use vstd::prelude::*;

verus! {

/// Relies on `chrono::Utc::now` / `timestamp_millis`: the current
/// moment in milliseconds since the Unix epoch.  Nothing can be
/// promised of the value itself.
#[verifier::external_body]
fn utc_now_millis() -> (r: i64) {
    chrono::Utc::now().timestamp_millis()
}

/// The current moment in milliseconds since the Unix epoch, clamped
/// below by `floor` so that departure stamps never precede the
/// forwarder's creation even under a clock step.
pub fn current_millis(floor: u64) -> (r: u64)
    ensures
        r >= floor,
{
    let t = utc_now_millis();
    if t <= 0 {
        return floor;
    }
    let now = t as u64;
    if now < floor {
        floor
    } else {
        now
    }
}

} // verus!
