//! Spans of time with nanosecond resolution.

use vstd::prelude::*;

verus! {

/// The number of nanoseconds in one second.
pub const NANOS_PER_SEC: u32 = 1_000_000_000;

/// A span of time: whole seconds and the nanoseconds beyond them.
#[derive(Clone, Copy, Debug, PartialEq, Eq)]
pub struct Duration {
    /// Whole seconds.
    pub secs: u64,
    /// Nanoseconds beyond the whole seconds.
    pub nanos: u32,
}

impl Duration {
    /// The nanoseconds stay below one second.
    pub open spec fn wf(self) -> bool {
        self.nanos < NANOS_PER_SEC
    }

    /// The span in nanoseconds.
    pub open spec fn as_nanos(self) -> int {
        self.secs * NANOS_PER_SEC + self.nanos
    }

    /// This span and `secs` seconds more.
    pub open spec fn plus_secs(self, secs: u64) -> Duration {
        Duration { secs: (self.secs + secs) as u64, nanos: self.nanos }
    }

    /// This span less `secs` seconds, and nothing where the span is shorter
    /// than that.
    pub open spec fn minus_secs(self, secs: u64) -> Duration {
        if self.secs < secs {
            Duration { secs: 0, nanos: 0 }
        } else {
            Duration { secs: (self.secs - secs) as u64, nanos: self.nanos }
        }
    }

    /// A span of `secs` seconds and `nanos` nanoseconds; none where the
    /// nanoseconds amount to a second or more.
    pub fn new(secs: u64, nanos: u32) -> (r: Option<Duration>)
        ensures
            r == if nanos < NANOS_PER_SEC {
                Some(Duration { secs, nanos })
            } else {
                None
            },
    {
        if nanos < NANOS_PER_SEC {
            Some(Duration { secs, nanos })
        } else {
            None
        }
    }

    /// The span as a clock shows it: whole minutes, and the seconds beyond
    /// them.
    pub fn clock(self) -> (r: (u64, u64))
        ensures
            r.0 == self.secs / 60,
            r.1 == self.secs % 60,
    {
        (self.secs / 60, self.secs % 60)
    }

    /// A span of whole seconds.
    pub fn from_secs(secs: u64) -> (r: Duration)
        ensures
            r == (Duration { secs, nanos: 0 }),
            r.wf(),
            r.as_nanos() == secs * NANOS_PER_SEC,
    {
        Duration { secs, nanos: 0 }
    }

    /// This span and `secs` seconds more.
    pub fn add_secs(self, secs: u64) -> (r: Duration)
        requires
            self.secs + secs <= u64::MAX,
        ensures
            r == self.plus_secs(secs),
            r.as_nanos() == self.as_nanos() + secs * NANOS_PER_SEC,
            r.wf() == self.wf(),
    {
        Duration { secs: self.secs + secs, nanos: self.nanos }
    }

    /// This span less `secs` seconds, and nothing where the span is shorter
    /// than that.
    pub fn saturating_sub_secs(self, secs: u64) -> (r: Duration)
        ensures
            r == self.minus_secs(secs),
            r.wf() == (self.secs < secs || self.wf()),
            self.wf() ==> r.as_nanos() == if self.as_nanos() < secs * NANOS_PER_SEC {
                0
            } else {
                self.as_nanos() - secs * NANOS_PER_SEC
            },
    {
        if self.secs < secs {
            Duration { secs: 0, nanos: 0 }
        } else {
            Duration { secs: self.secs - secs, nanos: self.nanos }
        }
    }
}

} // verus!
