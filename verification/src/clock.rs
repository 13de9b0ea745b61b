//! Access to the wall clock.

use vstd::prelude::*;

verus! {

/// Relies on chrono's `Utc::now` and `DateTime::timestamp_micros`: returns the
/// current wall-clock time as microseconds since the Unix epoch. Nothing is
/// promised of the value, since it depends on the machine's clock; callers
/// must hold for every value. Assumes the system clock is not set before the
/// Unix epoch (chrono panics there).
#[verifier::external_body]
pub fn now_micros() -> i64 {
    chrono::Utc::now().timestamp_micros()
}

} // verus!
