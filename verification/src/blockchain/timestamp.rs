//! Instants, as the ledger records them.

use chrono::Utc;
use vstd::prelude::*;

verus! {

/// An instant: whole seconds since the Unix epoch and the nanoseconds past
/// that second. Only the seconds enter a fingerprint.
#[derive(Clone, Copy, Debug, PartialEq, Eq, Structural)]
pub struct Timestamp {
    pub secs: i64,
    pub nanos: u32,
}

/// Calls `Utc::now` of the `chrono` crate and splits the result with
/// `DateTime::timestamp` and `DateTime::timestamp_subsec_nanos`.
///
/// Trusted, not proved: the nanoseconds are below one second, because
/// `Utc::now` takes them from the fraction of a `Duration`, so that no
/// leap-second reading comes back. Which instant comes back is not stated.
/// `Utc::now` panics where the system clock stands before the epoch;
/// nothing here rules that out.
#[verifier::external_body]
pub(crate) fn current_time() -> (t: Timestamp)
    ensures
        t.nanos < 1_000_000_000,
{
    let now = Utc::now();
    Timestamp { secs: now.timestamp(), nanos: now.timestamp_subsec_nanos() }
}

} // verus!
