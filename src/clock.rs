//! Instants at which blocks are sealed.

use vstd::prelude::*;

verus! {

/// An instant in UTC: whole seconds since the Unix epoch and the nanoseconds
/// past that second.
#[derive(Clone, Copy, Debug, PartialEq, Eq, Hash)]
pub struct Timestamp {
    pub seconds: i64,
    pub nanos: u32,
}

/// Relies on `From<SystemTime>` for chrono's `DateTime<Utc>`, applied to
/// std's `SystemTime::now`: a clock set before 1970 gives negative seconds
/// rather than a panic. Nothing is promised of the value.
#[verifier::external_body]
pub(crate) fn now() -> (r: Timestamp) {
    let t = chrono::DateTime::<chrono::Utc>::from(std::time::SystemTime::now());
    Timestamp { seconds: t.timestamp(), nanos: t.timestamp_subsec_nanos() }
}

} // verus!
