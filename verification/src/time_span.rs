//! A span of time with nanosecond resolution.
//!
//! `TimeSpan` holds exactly what `core::time::Duration` holds (whole seconds
//! and a sub-second nanosecond count below one billion), so the two convert
//! one for one. Its view is the length of the span in nanoseconds.
use vstd::prelude::*;

verus! {

/// Nanoseconds in one second.
pub const NANOS_PER_SEC: u32 = 1_000_000_000;

/// Nanoseconds in one millisecond.
pub const NANOS_PER_MILLI: u32 = 1_000_000;

/// A non-negative span of time: whole seconds plus a nanosecond remainder.
#[derive(Clone, Copy, Debug, PartialEq, Eq, Hash, Structural)]
pub struct TimeSpan {
    pub(crate) secs: u64,
    pub(crate) nanos: u32,
}

impl TimeSpan {
    /// The nanosecond remainder is always below one second.
    #[verifier::type_invariant]
    spec fn nanos_below_one_second(self) -> bool {
        self.nanos < NANOS_PER_SEC
    }

    /// Length of the span in nanoseconds.
    pub closed spec fn total_nanos(self) -> nat {
        self.secs as nat * NANOS_PER_SEC as nat + self.nanos as nat
    }

    /// The empty span.
    pub fn zero() -> (r: Self)
        ensures
            r@ == 0,
    {
        TimeSpan { secs: 0, nanos: 0 }
    }

    /// A span of `secs` seconds and `nanos` nanoseconds; nanoseconds of a
    /// billion or more carry into the seconds, as `Duration::new` does.
    pub fn new(secs: u64, nanos: u32) -> (r: Self)
        requires
            secs + nanos / NANOS_PER_SEC <= u64::MAX,
        ensures
            r@ == secs * NANOS_PER_SEC + nanos,
    {
        let carry: u64 = (nanos / NANOS_PER_SEC) as u64;
        let rest: u32 = nanos % NANOS_PER_SEC;
        assert(nanos == carry * NANOS_PER_SEC + rest) by (nonlinear_arith)
            requires
                carry == nanos / 1_000_000_000u32,
                rest == nanos % 1_000_000_000u32,
        ;
        TimeSpan { secs: secs + carry, nanos: rest }
    }

    /// A span of `millis` milliseconds.
    pub fn from_millis(millis: u64) -> (r: Self)
        ensures
            r@ == millis * NANOS_PER_MILLI,
    {
        let secs: u64 = millis / 1000;
        let rest: u64 = millis % 1000;
        let nanos: u32 = (rest as u32) * NANOS_PER_MILLI;
        assert(millis == secs * 1000 + rest) by (nonlinear_arith)
            requires
                secs == millis / 1000,
                rest == millis % 1000,
        ;
        TimeSpan { secs, nanos }
    }

    /// The whole seconds of the span.
    pub fn as_secs(&self) -> (r: u64)
        ensures
            r == self@ / NANOS_PER_SEC as nat,
    {
        proof {
            use_type_invariant(self);
        }
        self.secs
    }

    /// The nanoseconds past the whole seconds.
    pub fn subsec_nanos(&self) -> (r: u32)
        ensures
            r == self@ % NANOS_PER_SEC as nat,
            r < NANOS_PER_SEC,
    {
        proof {
            use_type_invariant(self);
        }
        self.nanos
    }

    /// Whether the span is empty.
    pub fn is_zero(&self) -> (r: bool)
        ensures
            r == (self@ == 0),
    {
        self.secs == 0 && self.nanos == 0
    }

    /// Whether `self` is strictly shorter than `other`.
    pub fn lt(&self, other: &Self) -> (r: bool)
        ensures
            r == (self@ < other@),
    {
        proof {
            use_type_invariant(self);
            use_type_invariant(other);
        }
        self.secs < other.secs || (self.secs == other.secs && self.nanos < other.nanos)
    }

    /// `self - other`, or the empty span where `other` is longer.
    pub fn saturating_sub(self, other: Self) -> (r: Self)
        ensures
            r@ == if other@ <= self@ { self@ - other@ } else { 0 },
    {
        proof {
            use_type_invariant(self);
            use_type_invariant(other);
        }
        if self.lt(&other) {
            return TimeSpan::zero();
        }
        if self.nanos >= other.nanos {
            TimeSpan { secs: self.secs - other.secs, nanos: self.nanos - other.nanos }
        } else {
            TimeSpan {
                secs: self.secs - other.secs - 1,
                nanos: self.nanos + (NANOS_PER_SEC - other.nanos),
            }
        }
    }
}

impl View for TimeSpan {
    type V = nat;

    open spec fn view(&self) -> nat {
        self.total_nanos()
    }
}

} // verus!
