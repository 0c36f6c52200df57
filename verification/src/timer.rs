//! A one-shot timer: a duration and the time elapsed toward it.
//!
//! `OnceTimer` holds, as plain values, what a bevy `Timer` in
//! `TimerMode::Once` holds for the blink logic. Ticking it and asking it for
//! the time left are done by bevy's `Timer` itself.
use bevy::time::{Timer, TimerMode};
use vstd::prelude::*;

use crate::time_span::TimeSpan;

verus! {

/// A once-mode timer: it counts up from zero and stops at its duration.
#[derive(Clone, Copy, Debug, PartialEq, Eq)]
pub struct OnceTimer {
    duration: TimeSpan,
    elapsed: TimeSpan,
}

/// What `bevy::time::Timer::tick` leaves in the stopwatch of a freshly made
/// once-mode timer of `duration` whose stopwatch was set to `elapsed`.
///
/// In bevy's source (`Timer::tick`, `Stopwatch::tick`) the stopwatch adds
/// `delta` with `Duration::saturating_add`, and the timer, once the sum
/// reaches its duration, sets the elapsed time back to the duration. The
/// contract states the result of both: the smaller of the sum and the
/// duration.
#[verifier::external_body]
fn once_timer_tick(duration: TimeSpan, elapsed: TimeSpan, delta: TimeSpan) -> (r: TimeSpan)
    ensures
        r@ == if elapsed@ + delta@ <= duration@ { elapsed@ + delta@ } else { duration@ },
{
    let mut timer = Timer::new(
        core::time::Duration::new(duration.secs, duration.nanos),
        TimerMode::Once,
    );
    timer.set_elapsed(core::time::Duration::new(elapsed.secs, elapsed.nanos));
    timer.tick(core::time::Duration::new(delta.secs, delta.nanos));
    let after = timer.elapsed();
    TimeSpan { secs: after.as_secs(), nanos: after.subsec_nanos() }
}

/// What `bevy::time::Timer::remaining` returns for a once-mode timer of
/// `duration` whose stopwatch reads `elapsed`: `duration - elapsed`, which
/// panics where `elapsed` is longer, so that input is left out.
#[verifier::external_body]
fn once_timer_remaining(duration: TimeSpan, elapsed: TimeSpan) -> (r: TimeSpan)
    requires
        elapsed@ <= duration@,
    ensures
        r@ == duration@ - elapsed@,
{
    let mut timer = Timer::new(
        core::time::Duration::new(duration.secs, duration.nanos),
        TimerMode::Once,
    );
    timer.set_elapsed(core::time::Duration::new(elapsed.secs, elapsed.nanos));
    let left = timer.remaining();
    TimeSpan { secs: left.as_secs(), nanos: left.subsec_nanos() }
}

impl OnceTimer {
    /// The elapsed time never passes the duration.
    #[verifier::type_invariant]
    spec fn elapsed_within_duration(self) -> bool {
        self.elapsed@ <= self.duration@
    }

    /// The duration of the timer, in nanoseconds.
    pub closed spec fn spec_duration(self) -> nat {
        self.duration@
    }

    /// The time elapsed so far, in nanoseconds.
    pub closed spec fn spec_elapsed(self) -> nat {
        self.elapsed@
    }

    /// A fresh timer of `duration`, nothing elapsed yet.
    pub fn new(duration: TimeSpan) -> (r: Self)
        ensures
            r.spec_duration() == duration@,
            r.spec_elapsed() == 0,
    {
        OnceTimer { duration, elapsed: TimeSpan::zero() }
    }

    /// A timer of `duration` that has already run for `elapsed`, or to its
    /// end where `elapsed` is longer.
    pub fn with_elapsed(duration: TimeSpan, elapsed: TimeSpan) -> (r: Self)
        ensures
            r.spec_duration() == duration@,
            r.spec_elapsed() == if elapsed@ <= duration@ {
                elapsed@
            } else {
                duration@
            },
    {
        if duration.lt(&elapsed) {
            OnceTimer { duration, elapsed: duration }
        } else {
            OnceTimer { duration, elapsed }
        }
    }

    /// The duration of the timer.
    pub fn duration(&self) -> (r: TimeSpan)
        ensures
            r@ == self.spec_duration(),
    {
        self.duration
    }

    /// The time elapsed so far.
    pub fn elapsed(&self) -> (r: TimeSpan)
        ensures
            r@ == self.spec_elapsed(),
            r@ <= self.spec_duration(),
    {
        proof {
            use_type_invariant(self);
        }
        self.elapsed
    }

    /// The time left until the timer finishes.
    pub fn remaining(&self) -> (r: TimeSpan)
        ensures
            r@ == self.spec_duration() - self.spec_elapsed(),
            self.spec_elapsed() <= self.spec_duration(),
    {
        proof {
            use_type_invariant(self);
        }
        once_timer_remaining(self.duration, self.elapsed)
    }

    /// Advance the timer by `delta`; it stops at its duration.
    pub fn tick(&mut self, delta: TimeSpan)
        ensures
            final(self).spec_duration() == old(self).spec_duration(),
            final(self).spec_elapsed() == if old(self).spec_elapsed() + delta@
                <= old(self).spec_duration() {
                old(self).spec_elapsed() + delta@
            } else {
                old(self).spec_duration()
            },
    {
        let elapsed = once_timer_tick(self.duration, self.elapsed, delta);
        self.elapsed = elapsed;
    }
}

} // verus!
