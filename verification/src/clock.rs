//! Points in time.
use vstd::prelude::*;

verus! {

/// A point on the host's monotonic clock, counted from an origin that the host
/// chose.
#[derive(Clone, Copy, Debug, PartialEq, Eq, Structural)]
pub struct Moment {
    pub nanos: u64,
}

impl Moment {
    /// Nanoseconds from `earlier` to this moment, and none if it is not
    /// earlier.
    pub open spec fn after(self, earlier: Moment) -> u64 {
        if self.nanos >= earlier.nanos {
            (self.nanos - earlier.nanos) as u64
        } else {
            0
        }
    }

    /// Nanoseconds between two moments, whichever comes first.
    pub open spec fn apart(self, other: Moment) -> u64 {
        if self.nanos >= other.nanos {
            self.after(other)
        } else {
            other.after(self)
        }
    }

    /// Nanoseconds since `earlier`.
    pub fn since(self, earlier: Moment) -> (r: u64)
        ensures
            r == self.after(earlier),
    {
        if self.nanos >= earlier.nanos {
            self.nanos - earlier.nanos
        } else {
            0
        }
    }

    /// Nanoseconds to or from `other`.
    pub fn distance(self, other: Moment) -> (r: u64)
        ensures
            r == self.apart(other),
    {
        if self.nanos >= other.nanos {
            self.nanos - other.nanos
        } else {
            other.nanos - self.nanos
        }
    }
}

/// A moment that comes `d` nanoseconds after another is `d` after it and `d`
/// apart from it, and the other is not after it at all.
pub proof fn stretches_are_measured(early: Moment, late: Moment, d: u64)
    requires
        late.nanos == early.nanos + d,
    ensures
        late.after(early) == d,
        early.after(late) == 0,
        late.apart(early) == d,
        early.apart(late) == d,
{
}

} // verus!
