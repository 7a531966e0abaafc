//! Points in time, as the library stores them.
use vstd::prelude::*;

verus! {

/// A UTC instant: whole seconds since the Unix epoch and the nanoseconds
/// within that second (as `chrono::DateTime<Utc>` holds it). The library
/// never reads the clock; callers hand it the time.
#[derive(Debug, Clone, Copy, PartialEq, Eq, Structural)]
pub struct Timestamp {
    pub secs: i64,
    pub nanos: u32,
}

} // verus!
