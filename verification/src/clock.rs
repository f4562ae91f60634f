//! The one place where wall-clock time enters the system.
use vstd::prelude::*;

use crate::ports::Clock;
use crate::user::UtcTimestamp;

verus! {

/// The system's UTC clock.
#[derive(Debug, Clone, Copy, Default)]
pub struct SystemClock;

/// Reads `chrono::Utc::now()` as seconds since the epoch (`timestamp`) and the
/// sub-second part (`timestamp_subsec_nanos`). The time itself is whatever the
/// machine says; chrono keeps the nanoseconds below two seconds' worth, the upper
/// second being used only for a leap second.
#[verifier::external_body]
fn utc_now() -> (t: UtcTimestamp)
    ensures
        t.nanos < 2_000_000_000,
{
    let now = chrono::Utc::now();
    UtcTimestamp { secs: now.timestamp(), nanos: now.timestamp_subsec_nanos() }
}

impl Clock for SystemClock {
    fn now(&self) -> (t: UtcTimestamp)
        ensures
            t.nanos < 2_000_000_000,
    {
        utc_now()
    }
}

} // verus!
