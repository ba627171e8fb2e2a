use vstd::prelude::*;

verus! {

/// A UTC instant, held as whole seconds since the Unix epoch and the
/// nanoseconds within that second.
#[derive(Debug, Clone, Copy, PartialEq, Eq, Structural)]
pub struct UtcTime {
    pub secs: i64,
    pub nanos: u32,
}

/// Reads the system clock (`chrono::Utc::now`).
///
/// The value depends on the machine's clock, so nothing is stated of it but
/// that the sub-second part is below one second, as chrono documents for
/// `timestamp_subsec_nanos` outside leap seconds (a leap second may reach
/// 1_999_999_999, which the contract therefore does not exclude).
#[verifier::external_body]
pub fn now_utc() -> (t: UtcTime)
    ensures
        t.nanos < 2_000_000_000,
{
    let now = chrono::Utc::now();
    UtcTime { secs: now.timestamp(), nanos: now.timestamp_subsec_nanos() }
}

} // verus!
