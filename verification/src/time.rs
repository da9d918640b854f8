//! Spans of time.

use vstd::prelude::*;

verus! {

pub const NANOS_PER_SEC: u32 = 1_000_000_000;

pub const NANOS_PER_MILLI: u32 = 1_000_000;

pub const MILLIS_PER_SEC: u64 = 1_000;

/// A span of time, to the nanosecond: whole seconds and the nanoseconds beyond
/// them. Its view is the whole span in nanoseconds.
#[derive(Debug, Clone, Copy, PartialEq, Eq)]
pub struct Duration {
    secs: u64,
    nanos: u32,
}

/// The longest span that a `Duration` holds, in nanoseconds.
pub open spec fn max_nanos() -> nat {
    u64::MAX as nat * NANOS_PER_SEC as nat + (NANOS_PER_SEC - 1) as nat
}

/// What is left of `a` after `b`, and nothing where `b` is longer.
pub open spec fn span_between(b: nat, a: nat) -> nat {
    if a >= b {
        (a - b) as nat
    } else {
        0
    }
}

impl View for Duration {
    type V = nat;

    closed spec fn view(&self) -> nat {
        self.secs as nat * NANOS_PER_SEC as nat + self.nanos as nat
    }
}

impl Duration {
    #[verifier::type_invariant]
    spec fn wf(self) -> bool {
        self.nanos < NANOS_PER_SEC
    }

    /// The empty span.
    pub fn zero() -> (d: Duration)
        ensures
            d@ == 0,
    {
        Duration { secs: 0, nanos: 0 }
    }

    /// The span of `secs` seconds and `nanos` nanoseconds.
    pub fn new(secs: u64, nanos: u32) -> (d: Duration)
        requires
            nanos < NANOS_PER_SEC,
        ensures
            d@ == secs as nat * NANOS_PER_SEC as nat + nanos as nat,
    {
        Duration { secs, nanos }
    }

    /// The span of `millis` milliseconds.
    pub fn from_millis(millis: u64) -> (d: Duration)
        ensures
            d@ == millis as nat * NANOS_PER_MILLI as nat,
    {
        let secs: u64 = millis / MILLIS_PER_SEC;
        let rest: u32 = (millis % MILLIS_PER_SEC) as u32;
        Duration { secs, nanos: rest * NANOS_PER_MILLI }
    }

    /// The whole seconds of the span.
    pub fn as_secs(&self) -> (secs: u64)
        ensures
            secs == self@ / NANOS_PER_SEC as nat,
            self@ <= max_nanos(),
    {
        proof {
            use_type_invariant(self);
        }
        self.secs
    }

    /// The nanoseconds beyond the whole seconds.
    pub fn subsec_nanos(&self) -> (nanos: u32)
        ensures
            nanos == self@ % NANOS_PER_SEC as nat,
    {
        proof {
            use_type_invariant(self);
        }
        self.nanos
    }

    /// The whole milliseconds beyond the whole seconds.
    pub fn subsec_millis(&self) -> (millis: u32)
        ensures
            millis == self@ % NANOS_PER_SEC as nat / NANOS_PER_MILLI as nat,
            millis < MILLIS_PER_SEC,
    {
        proof {
            use_type_invariant(self);
        }
        self.nanos / NANOS_PER_MILLI
    }

    /// What is left of this span after `other`: nothing where `other` is longer.
    pub fn saturating_sub(self, other: Duration) -> (d: Duration)
        ensures
            d@ == span_between(other@, self@),
    {
        proof {
            use_type_invariant(self);
            use_type_invariant(other);
        }
        if self.secs < other.secs || (self.secs == other.secs && self.nanos < other.nanos) {
            Duration::zero()
        } else if self.nanos >= other.nanos {
            Duration { secs: self.secs - other.secs, nanos: self.nanos - other.nanos }
        } else {
            Duration {
                secs: self.secs - other.secs - 1,
                nanos: NANOS_PER_SEC - other.nanos + self.nanos,
            }
        }
    }

    /// Both spans one after the other, unless that is longer than any `Duration`.
    pub fn checked_add(self, other: Duration) -> (sum: Option<Duration>)
        ensures
            sum is Some <==> self@ + other@ <= max_nanos(),
            sum matches Some(d) ==> d@ == self@ + other@,
    {
        proof {
            use_type_invariant(self);
            use_type_invariant(other);
        }
        let nanos: u32 = self.nanos + other.nanos;
        let secs: u64 = match self.secs.checked_add(other.secs) {
            Some(secs) => secs,
            None => {
                return None;
            },
        };
        if nanos < NANOS_PER_SEC {
            Some(Duration { secs, nanos })
        } else if secs < u64::MAX {
            Some(Duration { secs: secs + 1, nanos: nanos - NANOS_PER_SEC })
        } else {
            None
        }
    }
}

} // verus!
