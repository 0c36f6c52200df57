//! The blink of a partially-covered slot.
//!
//! A blink alternates between an empty phase and a follow phase. Time left
//! over when a phase ends is carried into the next phase, crossing as many
//! phases as one advance covers, so the blink does not depend on how the
//! time is cut into frames.
use vstd::prelude::*;

use crate::segment::SegmentState;
use crate::time_span::TimeSpan;
use crate::timer::OnceTimer;

verus! {

/// The state of a blink as numbers: which phase shows, the running phase's
/// length and elapsed time, and the configured lengths of both phases
/// (all in nanoseconds).
pub struct BlinkPhase {
    pub showing_empty: bool,
    pub duration: nat,
    pub elapsed: nat,
    pub empty: nat,
    pub follow: nat,
}

/// Time left in the running phase.
pub open spec fn phase_left(b: BlinkPhase) -> nat {
    if b.elapsed <= b.duration {
        (b.duration - b.elapsed) as nat
    } else {
        0
    }
}

/// Configured length of the phase that comes after the running one.
pub open spec fn next_phase_length(b: BlinkPhase) -> nat {
    if b.showing_empty {
        b.follow
    } else {
        b.empty
    }
}

/// The blink just after its running phase ends: the other phase starts
/// afresh at its configured length.
pub open spec fn flipped(b: BlinkPhase) -> BlinkPhase {
    BlinkPhase {
        showing_empty: !b.showing_empty,
        duration: next_phase_length(b),
        elapsed: 0,
        empty: b.empty,
        follow: b.follow,
    }
}

/// Whether both configured phases are empty; such a blink can never use up
/// time, and an advance stops after one flip.
pub open spec fn never_runs(b: BlinkPhase) -> bool {
    b.empty == 0 && b.follow == 0
}

/// How many flips in a row can still happen without using up time.
pub open spec fn idle_flips(b: BlinkPhase) -> nat {
    if phase_left(b) > 0 {
        0
    } else if next_phase_length(b) > 0 {
        1
    } else {
        2
    }
}

/// The blink after `delta` nanoseconds: the running phase uses up what it
/// has left, each phase that ends flips to the next one, and the overshoot
/// is carried on, until the time is used up inside a phase (or, where both
/// phases are empty, after one flip).
pub open spec fn blink_advanced(b: BlinkPhase, delta: nat) -> BlinkPhase
    decreases delta, idle_flips(b),
{
    if delta == 0 {
        b
    } else if delta < phase_left(b) {
        BlinkPhase { elapsed: b.elapsed + delta, ..b }
    } else if never_runs(b) {
        flipped(b)
    } else {
        blink_advanced(flipped(b), (delta - phase_left(b)) as nat)
    }
}

/// The blink with new configured phase lengths; the running phase keeps
/// its length.
pub open spec fn retimed(b: BlinkPhase, empty: nat, follow: nat) -> BlinkPhase {
    BlinkPhase { empty, follow, ..b }
}

/// Blink bookkeeping for the partially-covered slot.
///
/// While a slot has one, its state alternates between
/// [`SegmentState::Empty`] and [`SegmentState::Follow`].
#[derive(Clone, Copy, Debug)]
pub struct SegmentBlink {
    /// Time left in the current phase.
    pub timer: OnceTimer,
    /// Whether currently showing the empty phase (vs the follow phase).
    pub showing_empty: bool,
    /// Duration of the empty phase.
    pub empty_duration: TimeSpan,
    /// Duration of the follow phase.
    pub follow_duration: TimeSpan,
}

impl View for SegmentBlink {
    type V = BlinkPhase;

    open spec fn view(&self) -> BlinkPhase {
        BlinkPhase {
            showing_empty: self.showing_empty,
            duration: self.timer.spec_duration(),
            elapsed: self.timer.spec_elapsed(),
            empty: self.empty_duration@,
            follow: self.follow_duration@,
        }
    }
}

impl SegmentBlink {
    /// A blink starting in its empty phase.
    pub fn new(empty: TimeSpan, follow: TimeSpan) -> (r: Self)
        ensures
            r.showing_empty,
            r.empty_duration == empty,
            r.follow_duration == follow,
            r.timer.spec_duration() == empty@,
            r.timer.spec_elapsed() == 0,
    {
        SegmentBlink {
            timer: OnceTimer::new(empty),
            showing_empty: true,
            empty_duration: empty,
            follow_duration: follow,
        }
    }

    /// The visual state of the current blink phase.
    pub fn current_state(&self) -> (r: SegmentState)
        ensures
            r == if self.showing_empty {
                SegmentState::Empty
            } else {
                SegmentState::Follow
            },
    {
        if self.showing_empty {
            SegmentState::Empty
        } else {
            SegmentState::Follow
        }
    }

    /// Take new phase lengths; they apply from the next phase flip on.
    pub fn retime(&mut self, empty: TimeSpan, follow: TimeSpan)
        ensures
            final(self)@ == retimed(old(self)@, empty@, follow@),
            final(self).timer == old(self).timer,
            final(self).showing_empty == old(self).showing_empty,
            final(self).empty_duration == empty,
            final(self).follow_duration == follow,
    {
        if self.empty_duration != empty {
            self.empty_duration = empty;
        }
        if self.follow_duration != follow {
            self.follow_duration = follow;
        }
    }

    /// Let `delta` pass: the running phase uses up what it has left, each
    /// phase that ends flips to the next, and leftover time is carried over.
    pub fn advance(&mut self, delta: TimeSpan)
        ensures
            final(self)@ == blink_advanced(old(self)@, delta@),
            0 < delta@ < old(self)@.duration - old(self)@.elapsed ==> final(self).showing_empty
                == old(self).showing_empty,
            0 < delta@ && delta@ == old(self)@.duration - old(self)@.elapsed ==> final(self).showing_empty
                == !old(self).showing_empty && final(self)@.elapsed == 0,
    {
        let ghost target = blink_advanced(self@, delta@);
        let started = self.timer.elapsed();
        proof {
            assert(started@ <= self@.duration);
            if delta@ > 0 {
                lemma_phase_ends_when_its_time_is_used_up(self@, delta@);
            }
        }
        let mut left = delta;
        loop
            invariant_except_break
                blink_advanced(self@, left@) == target,
            ensures
                self@ == target,
            decreases left@, idle_flips(self@),
        {
            if left.is_zero() {
                break;
            }
            let remaining = self.timer.remaining();
            if left.lt(&remaining) {
                self.timer.tick(left);
                break;
            }
            let ghost before = self@;
            left = left.saturating_sub(remaining);
            self.showing_empty = !self.showing_empty;
            let next = if self.showing_empty {
                self.empty_duration
            } else {
                self.follow_duration
            };
            self.timer = OnceTimer::new(next);
            assert(self@ == flipped(before));
            if self.empty_duration.is_zero() && self.follow_duration.is_zero() {
                break;
            }
        }
    }
}

/// Letting `x` and then `y` pass is letting `x + y` pass: the blink does not
/// depend on how time is cut into frames. (A blink whose phases are both
/// empty is left out: each advance by a positive time flips it once.)
pub proof fn lemma_advance_is_frame_rate_independent(b: BlinkPhase, x: nat, y: nat)
    requires
        !never_runs(b),
        b.elapsed <= b.duration,
    ensures
        blink_advanced(blink_advanced(b, x), y) == blink_advanced(b, x + y),
    decreases x, idle_flips(b),
{
    if x == 0 {
    } else if x < phase_left(b) {
        let b1 = BlinkPhase { elapsed: b.elapsed + x, ..b };
        assert(blink_advanced(b, x) == b1);
        if y == 0 {
        } else {
            assert(phase_left(b1) == phase_left(b) - x);
            assert(flipped(b1) == flipped(b));
        }
    } else {
        lemma_advance_is_frame_rate_independent(flipped(b), (x - phase_left(b)) as nat, y);
        assert((x + y - phase_left(b)) as nat == (x - phase_left(b)) as nat + y);
    }
}

/// New phase lengths take effect at the next flip: retiming a blink and then
/// letting less time pass than its running phase has left is the same as
/// letting the time pass and retiming afterwards.
pub proof fn lemma_retime_waits_for_the_flip(b: BlinkPhase, empty: nat, follow: nat, x: nat)
    requires
        b.elapsed <= b.duration,
        x < phase_left(b),
    ensures
        blink_advanced(retimed(b, empty, follow), x) == retimed(blink_advanced(b, x), empty, follow),
        flipped(retimed(b, empty, follow)).duration == if b.showing_empty {
            follow
        } else {
            empty
        },
{
}

/// The running phase of a blink never has more time elapsed than its length,
/// however much time passes.
pub proof fn lemma_advance_keeps_elapsed_within_phase(b: BlinkPhase, x: nat)
    requires
        b.elapsed <= b.duration,
    ensures
        blink_advanced(b, x).elapsed <= blink_advanced(b, x).duration,
    decreases x, idle_flips(b),
{
    if x == 0 {
    } else if x < phase_left(b) {
    } else if never_runs(b) {
    } else {
        lemma_advance_keeps_elapsed_within_phase(flipped(b), (x - phase_left(b)) as nat);
    }
}

/// A phase ends exactly when its time is used up: letting a positive time
/// shorter than what the running phase has left pass keeps the phase and adds
/// the time to it, while letting exactly what is left pass shows the other
/// phase, started afresh at its configured length.
pub proof fn lemma_phase_ends_when_its_time_is_used_up(b: BlinkPhase, delta: nat)
    requires
        b.elapsed <= b.duration,
        0 < delta,
    ensures
        delta < b.duration - b.elapsed ==> blink_advanced(b, delta).showing_empty
            == b.showing_empty && blink_advanced(b, delta).elapsed == b.elapsed + delta
            && blink_advanced(b, delta).duration == b.duration,
        delta == b.duration - b.elapsed ==> blink_advanced(b, delta).showing_empty
            == !b.showing_empty && blink_advanced(b, delta).elapsed == 0 && blink_advanced(
            b,
            delta,
        ).duration == (if b.showing_empty {
            b.follow
        } else {
            b.empty
        }),
        b.empty == 0 && b.follow == 0 && delta >= b.duration - b.elapsed ==> blink_advanced(
            b,
            delta,
        ).showing_empty == !b.showing_empty && blink_advanced(b, delta).elapsed == 0,
{
    if delta == b.duration - b.elapsed {
        let f = flipped(b);
        if !never_runs(b) {
            assert(blink_advanced(b, delta) == blink_advanced(f, 0));
        }
    }
}

} // verus!
