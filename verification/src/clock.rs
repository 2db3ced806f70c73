use vstd::prelude::*;

verus! {

/// A point in time relative to the Unix epoch (1970-01-01): whole
/// seconds, which may be negative for times before the epoch, and a
/// sub-second component in nanoseconds.
#[derive(Clone, Copy, Debug, PartialEq, Eq, Structural)]
pub struct Timespec {
    pub sec: i64,
    pub nsec: u32,
}

impl Timespec {
    /// True of every value this library constructs: the sub-second
    /// component is below one whole second.
    pub open spec fn wf(self) -> bool {
        self.nsec < 1_000_000_000
    }

    /// The sub-second component in microseconds, for a clock-setting
    /// collaborator that takes (seconds, microseconds).
    pub fn subsec_micros(&self) -> (r: u32)
        ensures
            r == self.nsec / 1000,
    {
        self.nsec / 1000
    }
}

} // verus!
