//! Points in time and spans of time, as whole seconds and nanoseconds.

use vstd::prelude::*;

verus! {

/// Nanoseconds in a second.
pub const NANOS_PER_SEC: u32 = 1_000_000_000;

/// A span of time.
#[derive(Clone, Copy, Debug, Eq, PartialEq, Structural)]
pub struct Duration {
    /// Whole seconds.
    pub secs: u64,
    /// Nanoseconds on top of them.
    pub nanos: u32,
}

impl Duration {
    /// The span in nanoseconds.
    pub open spec fn total_nanos(self) -> int {
        self.secs * NANOS_PER_SEC + self.nanos
    }

    /// A span of whole seconds.
    pub fn from_secs(secs: u64) -> (span: Duration)
        ensures
            span == (Duration { secs, nanos: 0 }),
    {
        Duration { secs, nanos: 0 }
    }
}

/// A point in time, counted from the Unix epoch.
#[derive(Clone, Copy, Debug, Eq, PartialEq, Structural)]
pub struct Timestamp {
    /// Whole seconds since the epoch; negative before it.
    pub secs: i64,
    /// Nanoseconds after that second.
    pub nanos: u32,
}

impl Timestamp {
    /// Nanoseconds since the epoch.
    pub open spec fn total_nanos(self) -> int {
        self.secs * NANOS_PER_SEC + self.nanos
    }

    /// The point `secs` seconds after the epoch, where it can be represented.
    pub fn from_unix_secs(secs: u64) -> (at: Option<Timestamp>)
        ensures
            match at {
                Some(at) => at.total_nanos() == secs * NANOS_PER_SEC && at.nanos == 0,
                None => secs > i64::MAX,
            },
    {
        if secs <= i64::MAX as u64 {
            Some(Timestamp { secs: secs as i64, nanos: 0 })
        } else {
            None
        }
    }

    /// Whether more than `span` has passed from `earlier` to `self`.
    pub fn is_past(&self, earlier: Timestamp, span: Duration) -> (past: bool)
        ensures
            past == (self.total_nanos() - earlier.total_nanos() > span.total_nanos()),
    {
        let later: i128 = self.secs as i128 * 1_000_000_000 + self.nanos as i128;
        let sooner: i128 = earlier.secs as i128 * 1_000_000_000 + earlier.nanos as i128;
        let limit: i128 = span.secs as i128 * 1_000_000_000 + span.nanos as i128;
        later - sooner > limit
    }
}

} // verus!
