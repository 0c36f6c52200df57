//! Segmented (discrete-slot) value bars.
//!
//! A [`SegmentedBar`] shows a value as `slot_count` slots filling in order.
//! Slots below the value are [`SegmentState::Fill`], slots above it are
//! [`SegmentState::Empty`], and a partially-covered slot blinks between
//! [`SegmentState::Empty`] and [`SegmentState::Follow`].
use vstd::prelude::*;

use crate::blink::SegmentBlink;
use crate::time_span::TimeSpan;

verus! {

/// Fill direction of a segmented bar: which end slot `0` sits at when the
/// host lays the slots out. Slot filling order is always by index.
#[derive(Clone, Copy, Debug, PartialEq, Eq, Hash, Structural)]
pub enum SegmentFillDirection {
    /// Slot 0 first: left-to-right (or top-to-bottom) layouts.
    Normal,
    /// Slot 0 last: right-to-left (or bottom-to-top) layouts.
    Inverse,
}

/// State of an individual segment.
#[derive(Clone, Copy, Debug, PartialEq, Eq, Hash, Structural)]
pub enum SegmentState {
    /// Slot is empty.
    Empty,
    /// Slot is fully filled.
    Fill,
    /// Slot is in follow state (the blink phase of a partial slot).
    Follow,
    /// Slot is in an indeterminate/loading state. Never chosen by the
    /// library, and not kept either: the next state pass writes
    /// `Fill`/`Empty` over it.
    Indeterminate,
}

/// One slot of a [`SegmentedBar`].
#[derive(Clone, Copy, Debug, PartialEq, Eq, Structural)]
pub struct Segment {
    /// Index of this slot within the bar (0-based, filling order).
    pub index: usize,
    /// Current state of the slot.
    pub state: SegmentState,
}

/// A segmented value bar: `slot_count` discrete slots driven by a value in
/// 0..1, each slot spanning `1 / slot_count` of it.
#[derive(Clone, Copy, Debug, PartialEq, Eq, Structural)]
pub struct SegmentedBar {
    /// Number of slots.
    pub slot_count: usize,
    /// Layout hint for the theming layer; see [`SegmentFillDirection`].
    pub fill_direction: SegmentFillDirection,
    /// Duration of the empty phase of a partial slot's blink.
    pub blink_empty: TimeSpan,
    /// Duration of the follow phase of a partial slot's blink.
    pub blink_follow: TimeSpan,
}

/// What the state pass does with a slot's blink.
#[derive(Clone, Copy, Debug, PartialEq, Eq, Structural)]
pub enum BlinkChange {
    /// Leave it as it is (or leave the slot without one).
    Keep,
    /// Give the running blink the bar's current phase lengths.
    Retime,
    /// Give the slot a fresh blink with the bar's phase lengths.
    Start,
    /// Take the blink away.
    Stop,
}

/// What the state pass does with one slot: its blink, and the state to
/// write, if the state is to change.
#[derive(Clone, Copy, Debug, PartialEq, Eq, Structural)]
pub struct SegmentPlan {
    pub blink: BlinkChange,
    pub state: Option<SegmentState>,
}

/// The slot children to take away and the slot indices to spawn so that a
/// bar has one child per slot.
#[derive(Debug)]
pub struct SlotReconciliation {
    /// Positions, in the list of present slot indices, of the children to
    /// take away (ascending).
    pub despawn: Vec<usize>,
    /// Slot indices to spawn a child for (ascending).
    pub spawn: Vec<usize>,
}

/// Whether slot `index` blinks for a split of `full` full slots.
pub open spec fn slot_blinks(full: usize, has_partial: bool, index: usize) -> bool {
    has_partial && index == full
}

/// The state of a slot that does not blink: full below the split, empty from
/// it on.
pub open spec fn settled_state(full: usize, index: usize) -> SegmentState {
    if index < full {
        SegmentState::Fill
    } else {
        SegmentState::Empty
    }
}

/// The state a slot shows after `plan` is applied to it.
pub open spec fn state_after(segment: Segment, plan: SegmentPlan) -> SegmentState {
    match plan.state {
        Some(s) => s,
        None => segment.state,
    }
}

/// `s` lists, in strictly ascending order, exactly the numbers below `bound`
/// that satisfy `p`.
pub open spec fn lists_exactly(s: Seq<usize>, bound: nat, p: spec_fn(nat) -> bool) -> bool {
    &&& forall|i: int, j: int| 0 <= i < j < s.len() ==> s[i] < s[j]
    &&& forall|i: int| 0 <= i < s.len() ==> s[i] < bound && #[trigger] p(s[i] as nat)
    &&& forall|k: nat| k < bound && #[trigger] p(k) ==> s.contains(k as usize)
}

/// Whether a child at `position` of `present` is out of range of the bar.
pub open spec fn out_of_range(present: Seq<usize>, slot_count: usize) -> spec_fn(nat) -> bool {
    |position: nat| present[position as int] >= slot_count
}

/// Whether slot `index` has no child among `present`.
pub open spec fn missing_slot(present: Seq<usize>) -> spec_fn(nat) -> bool {
    |index: nat| !present.contains(index as usize)
}

impl Default for SegmentedBar {
    /// Five slots, normal direction, 50 ms for each blink phase.
    fn default() -> (r: Self)
        ensures
            r.slot_count == 5,
            r.fill_direction == SegmentFillDirection::Normal,
            r.blink_empty@ == 50_000_000,
            r.blink_follow@ == 50_000_000,
    {
        SegmentedBar {
            slot_count: 5,
            fill_direction: SegmentFillDirection::Normal,
            blink_empty: TimeSpan::from_millis(50),
            blink_follow: TimeSpan::from_millis(50),
        }
    }
}

impl SegmentedBar {
    /// Where slot `index` sits in the host's layout (see [`Self::display_index`]).
    pub open spec fn display_position(self, index: int) -> int {
        match self.fill_direction {
            SegmentFillDirection::Normal => index,
            SegmentFillDirection::Inverse => if index + 1 <= self.slot_count {
                self.slot_count - 1 - index
            } else {
                0
            },
        }
    }

    /// The split of a bar into full slots and a partial slot, from the whole
    /// slots a value covers and what is left of the next one (see
    /// [`Self::slot_split_of_units`]).
    pub open spec fn split_of_units(
        self,
        whole_slots: usize,
        snaps_up: bool,
        partial_visible: bool,
    ) -> (usize, bool) {
        if self.slot_count == 0 {
            (0, false)
        } else {
            let full = if snaps_up {
                whole_slots + 1
            } else {
                whole_slots as int
            };
            (full as usize, !snaps_up && partial_visible && full < self.slot_count)
        }
    }

    /// A bar with `slot_count` slots and the default direction and timing.
    pub fn new(slot_count: usize) -> (r: Self)
        ensures
            r.slot_count == slot_count,
            r.fill_direction == SegmentFillDirection::Normal,
            r.blink_empty@ == 50_000_000,
            r.blink_follow@ == 50_000_000,
    {
        SegmentedBar { slot_count, ..Self::default() }
    }

    /// Sets the fill direction.
    pub fn with_fill_direction(self, fill_direction: SegmentFillDirection) -> (r: Self)
        ensures
            r == (SegmentedBar { fill_direction, ..self }),
    {
        SegmentedBar { fill_direction, ..self }
    }

    /// Sets the blink timing for partially-covered slots.
    pub fn with_blink_timing(self, empty: TimeSpan, follow: TimeSpan) -> (r: Self)
        ensures
            r == (SegmentedBar { blink_empty: empty, blink_follow: follow, ..self }),
    {
        SegmentedBar { blink_empty: empty, blink_follow: follow, ..self }
    }

    /// Where slot `index` sits in the host's layout under the bar's fill
    /// direction: `index` itself for `Normal`, mirrored for `Inverse`
    /// (`slot_count - 1 - index`, or 0 past the last slot).
    pub fn display_index(&self, index: usize) -> (r: usize)
        requires
            index < usize::MAX,
        ensures
            r == self.display_position(index as int),
            self.fill_direction == SegmentFillDirection::Normal ==> r == index,
            self.fill_direction == SegmentFillDirection::Inverse && index < self.slot_count
                ==> r == self.slot_count - 1 - index,
    {
        match self.fill_direction {
            SegmentFillDirection::Normal => index,
            SegmentFillDirection::Inverse => self.slot_count.saturating_sub(1 + index),
        }
    }

    /// The threshold split `(full_slots, has_partial)` of a value that covers
    /// `whole_slots` slots completely, where `snaps_up` says that what is left
    /// of the next slot lies within the boundary tolerance of a whole slot,
    /// and `partial_visible` that it lies beyond the tolerance above zero.
    ///
    /// A value that snaps up fills the next slot too and has no partial
    /// slot; otherwise the next slot is partial when its share is visible
    /// and the slot exists. A bar without slots splits into `(0, false)`.
    pub fn slot_split_of_units(&self, whole_slots: usize, snaps_up: bool, partial_visible: bool) -> (r: (
        usize,
        bool,
    ))
        requires
            self.slot_count == 0 || !snaps_up || whole_slots < usize::MAX,
        ensures
            r == self.split_of_units(whole_slots, snaps_up, partial_visible),
            r.1 ==> r.0 < self.slot_count,
            self.slot_count == 0 ==> r == (0usize, false),
            self.slot_count > 0 && snaps_up ==> r.0 == whole_slots + 1 && !r.1,
            self.slot_count > 0 && !snaps_up ==> r.0 == whole_slots && (r.1 <==> (
            partial_visible && whole_slots < self.slot_count)),
    {
        if self.slot_count == 0 {
            return (0, false);
        }
        let mut full = whole_slots;
        let mut partial = partial_visible;
        if snaps_up {
            full = full + 1;
            partial = false;
        }
        (full, partial && full < self.slot_count)
    }

    /// What the state pass does with `segment` for the split
    /// `(full, has_partial)`, where `blink` is the slot's running blink.
    ///
    /// The slot at the split blinks when there is a partial slot: a running
    /// blink gets the bar's timing where it differs, a slot without one gets
    /// a fresh one. Any other slot loses its blink and settles on `Fill`
    /// below the split and `Empty` from it on; its state is written only
    /// where it differs, and a host-set state is overwritten.
    pub fn plan_segment(
        &self,
        full: usize,
        has_partial: bool,
        segment: &Segment,
        blink: Option<&SegmentBlink>,
    ) -> (p: SegmentPlan)
        ensures
            p.blink == match blink {
                Some(b) => if slot_blinks(full, has_partial, segment.index) {
                    if b.empty_duration == self.blink_empty && b.follow_duration
                        == self.blink_follow {
                        BlinkChange::Keep
                    } else {
                        BlinkChange::Retime
                    }
                } else {
                    BlinkChange::Stop
                },
                None => if slot_blinks(full, has_partial, segment.index) {
                    BlinkChange::Start
                } else {
                    BlinkChange::Keep
                },
            },
            p.state == if slot_blinks(full, has_partial, segment.index)
                || settled_state(full, segment.index) == segment.state {
                None
            } else {
                Some(settled_state(full, segment.index))
            },
            has_partial && segment.index == full ==> p.state.is_none() && match blink {
                Some(_) => p.blink != BlinkChange::Stop && p.blink != BlinkChange::Start,
                None => p.blink == BlinkChange::Start,
            },
            !(has_partial && segment.index == full) ==> match blink {
                Some(_) => p.blink == BlinkChange::Stop,
                None => p.blink == BlinkChange::Keep,
            },
    {
        let should_blink = has_partial && segment.index == full;
        let change = match blink {
            Some(b) => {
                if should_blink {
                    if b.empty_duration == self.blink_empty && b.follow_duration
                        == self.blink_follow {
                        BlinkChange::Keep
                    } else {
                        BlinkChange::Retime
                    }
                } else {
                    BlinkChange::Stop
                }
            },
            None => {
                if should_blink {
                    BlinkChange::Start
                } else {
                    BlinkChange::Keep
                }
            },
        };
        if should_blink {
            return SegmentPlan { blink: change, state: None };
        }
        let new_state = if segment.index < full {
            SegmentState::Fill
        } else {
            SegmentState::Empty
        };
        let state = if segment.state != new_state {
            Some(new_state)
        } else {
            None
        };
        SegmentPlan { blink: change, state }
    }

    /// Which slot children to take away and which slots to spawn, given the
    /// slot indices of the present children in order: a child whose index is
    /// past the bar is taken away, and every slot without a child gets one.
    /// Children that share an index are all kept.
    pub fn reconcile_slots(&self, present: &Vec<usize>) -> (r: SlotReconciliation)
        ensures
            lists_exactly(
                r.despawn@,
                present@.len(),
                out_of_range(present@, self.slot_count),
            ),
            lists_exactly(r.spawn@, self.slot_count as nat, missing_slot(present@)),
    {
        let n = self.slot_count;
        let mut covered: Vec<bool> = Vec::new();
        let mut j: usize = 0;
        while j < n
            invariant
                j <= n,
                covered@.len() == j,
                forall|k: int| 0 <= k < j ==> !covered@[k],
            decreases n - j,
        {
            covered.push(false);
            j = j + 1;
        }
        let mut despawn: Vec<usize> = Vec::new();
        let mut i: usize = 0;
        while i < present.len()
            invariant
                n == self.slot_count,
                i <= present@.len(),
                covered@.len() == n,
                forall|k: int|
                    0 <= k < n ==> (covered@[k] <==> present@.take(i as int).contains(
                        k as usize,
                    )),
                forall|a: int, b: int| 0 <= a < b < despawn@.len() ==> despawn@[a] < despawn@[b],
                forall|a: int|
                    0 <= a < despawn@.len() ==> despawn@[a] < i && present@[despawn@[a] as int]
                        >= n,
                forall|k: int| 0 <= k < i && present@[k] >= n ==> despawn@.contains(k as usize),
            decreases present@.len() - i,
        {
            let index = present[i];
            let ghost old_despawn = despawn@;
            proof {
                assert(present@.take(i + 1) == present@.take(i as int).push(index));
            }
            if index < n {
                covered.set(index, true);
            } else {
                despawn.push(i);
                proof {
                    assert(despawn@[despawn@.len() - 1] == i);
                    assert forall|k: int| 0 <= k < i && present@[k] >= n implies despawn@.contains(
                        k as usize,
                    ) by {
                        let a = choose|a: int| 0 <= a < old_despawn.len() && old_despawn[a] == k as usize;
                        assert(despawn@[a] == k as usize);
                    }
                }
            }
            proof {
                assert forall|k: int| 0 <= k < n implies (covered@[k] <==> present@.take(
                    i + 1,
                ).contains(k as usize)) by {
                    if present@.take(i as int).contains(k as usize) {
                        let m = choose|m: int| 0 <= m < i && present@.take(i as int)[m] == k as usize;
                        assert(present@.take(i + 1)[m] == k as usize);
                    }
                    let upto = present@.take(i + 1);
                    if upto.contains(k as usize) {
                        let m = choose|m: int| 0 <= m < upto.len() && upto[m] == k as usize;
                        if m < i {
                            assert(present@.take(i as int)[m] == k as usize);
                        }
                    }
                    if k == index {
                        assert(present@.take(i + 1)[i as int] == index);
                    }
                }
            }
            i = i + 1;
        }
        proof {
            assert(present@.take(present@.len() as int) == present@);
        }
        let mut spawn: Vec<usize> = Vec::new();
        let mut j: usize = 0;
        while j < n
            invariant
                j <= n,
                covered@.len() == n,
                forall|k: int| 0 <= k < n ==> (covered@[k] <==> present@.contains(k as usize)),
                forall|a: int, b: int| 0 <= a < b < spawn@.len() ==> spawn@[a] < spawn@[b],
                forall|a: int|
                    0 <= a < spawn@.len() ==> spawn@[a] < j && !present@.contains(spawn@[a]),
                forall|k: usize| k < j && !present@.contains(k) ==> #[trigger] spawn@.contains(k),
            decreases n - j,
        {
            let ghost old_spawn = spawn@;
            if !covered[j] {
                spawn.push(j);
                proof {
                    assert(spawn@[spawn@.len() - 1] == j);
                    assert forall|k: usize| k < j && !present@.contains(k) implies #[trigger] spawn@.contains(k) by {
                        assert(old_spawn.contains(k));
                        let a = choose|a: int| 0 <= a < old_spawn.len() && old_spawn[a] == k;
                        assert(spawn@[a] == k);
                    }
                }
            }
            j = j + 1;
        }
        SlotReconciliation { despawn, spawn }
    }
}

/// A mirrored layout is a permutation of the slots: every slot lands on a
/// slot, and mirroring twice gives the slot back.
pub proof fn lemma_display_index_permutes_slots(bar: SegmentedBar, index: int)
    requires
        0 <= index < bar.slot_count,
    ensures
        0 <= bar.display_position(index) < bar.slot_count,
        bar.display_position(bar.display_position(index)) == index,
{
}

/// Only a real slot blinks: where a split has a partial slot, it lies below
/// the slot count, and it is the one slot that blinks.
pub proof fn lemma_split_blinks_one_real_slot(
    bar: SegmentedBar,
    whole_slots: usize,
    snaps_up: bool,
    partial_visible: bool,
    i: usize,
    j: usize,
)
    requires
        bar.split_of_units(whole_slots, snaps_up, partial_visible).1,
        slot_blinks(
            bar.split_of_units(whole_slots, snaps_up, partial_visible).0,
            true,
            i,
        ),
        slot_blinks(
            bar.split_of_units(whole_slots, snaps_up, partial_visible).0,
            true,
            j,
        ),
    ensures
        i < bar.slot_count,
        i == j,
{
}

/// After the state pass, a slot that does not blink shows `Fill` below the
/// split and `Empty` from it on, whatever it showed before; a slot that
/// blinks keeps its state for the blink to drive.
pub proof fn lemma_plan_settles_slot(
    bar: SegmentedBar,
    full: usize,
    has_partial: bool,
    segment: Segment,
    plan: SegmentPlan,
)
    requires
        plan.state == if slot_blinks(full, has_partial, segment.index) || settled_state(
            full,
            segment.index,
        ) == segment.state {
            None
        } else {
            Some(settled_state(full, segment.index))
        },
    ensures
        !slot_blinks(full, has_partial, segment.index) ==> state_after(segment, plan)
            == settled_state(full, segment.index),
        slot_blinks(full, has_partial, segment.index) ==> state_after(segment, plan)
            == segment.state,
{
}

/// After reconciliation, the children kept and the children spawned cover
/// every slot of the bar and nothing else, and no slot is spawned twice or
/// spawned where a child is kept.
pub proof fn lemma_reconciled_children_cover_slots(
    slot_count: usize,
    present: Seq<usize>,
    despawn: Seq<usize>,
    spawn: Seq<usize>,
    index: usize,
)
    requires
        present.len() <= usize::MAX,
        lists_exactly(despawn, present.len(), out_of_range(present, slot_count)),
        lists_exactly(spawn, slot_count as nat, missing_slot(present)),
    ensures
        index < slot_count <==> (spawn.contains(index) || exists|k: usize|
            k < present.len() && !despawn.contains(k) && #[trigger] present[k as int] == index),
        spawn.contains(index) ==> !present.contains(index),
        spawn.no_duplicates(),
{
    if spawn.contains(index) {
        let a = choose|a: int| 0 <= a < spawn.len() && spawn[a] == index;
        assert(missing_slot(present)(spawn[a] as nat));
        assert(index < slot_count);
    }
    if index < slot_count && !spawn.contains(index) {
        if !present.contains(index) {
            assert(missing_slot(present)(index as nat));
            assert(false);
        }
        let m = choose|m: int| 0 <= m < present.len() && present[m] == index;
        let k = m as usize;
        if despawn.contains(k) {
            let a = choose|a: int| 0 <= a < despawn.len() && despawn[a] == k;
            assert(out_of_range(present, slot_count)(despawn[a] as nat));
            assert(false);
        }
        assert(k < present.len() && !despawn.contains(k) && present[k as int] == index);
    }
    if index >= slot_count {
        assert forall|k: usize| k < present.len() && #[trigger] present[k as int] == index implies despawn.contains(
            k,
        ) by {
            assert(out_of_range(present, slot_count)(k as nat));
        }
    }
    assert forall|a: int, b: int|
        0 <= a < spawn.len() && 0 <= b < spawn.len() && a != b implies spawn[a] != spawn[b] by {
        if a < b {
        } else {
        }
    }
}

/// Once every slot has a child and every child is a slot, reconciliation
/// has nothing left to do: nothing to take away and nothing to spawn.
pub proof fn lemma_reconciled_bar_needs_nothing(
    slot_count: usize,
    present: Seq<usize>,
    despawn: Seq<usize>,
    spawn: Seq<usize>,
)
    requires
        forall|k: int| 0 <= k < present.len() ==> present[k] < slot_count,
        forall|j: usize| j < slot_count ==> present.contains(j),
        lists_exactly(despawn, present.len(), out_of_range(present, slot_count)),
        lists_exactly(spawn, slot_count as nat, missing_slot(present)),
    ensures
        despawn.len() == 0,
        spawn.len() == 0,
{
    if despawn.len() > 0 {
        assert(out_of_range(present, slot_count)(despawn[0] as nat));
    }
    if spawn.len() > 0 {
        assert(missing_slot(present)(spawn[0] as nat));
        assert(present.contains(spawn[0]));
    }
}

/// An inverse layout reverses the slots: slot `i` goes to `slot_count - 1 - i`,
/// so a later slot always sits before an earlier one; a normal layout keeps
/// every slot where it is.
pub proof fn lemma_inverse_layout_reverses_slots(bar: SegmentedBar, i: int, j: int)
    requires
        0 <= i < j < bar.slot_count,
    ensures
        bar.fill_direction == SegmentFillDirection::Inverse ==> bar.display_position(i)
            == bar.slot_count - 1 - i && bar.display_position(j) == bar.slot_count - 1 - j
            && bar.display_position(i) > bar.display_position(j),
        bar.fill_direction == SegmentFillDirection::Normal ==> bar.display_position(i) == i
            && bar.display_position(i) < bar.display_position(j),
{
}

/// The split of a value: a bar without slots has none; a value that snaps up
/// fills the next slot and has no partial slot; otherwise the whole slots are
/// full and the next slot is partial exactly when its share is visible and
/// it exists, the last slot included.
pub proof fn lemma_split_reports_every_partial_slot(
    bar: SegmentedBar,
    whole_slots: usize,
    snaps_up: bool,
    partial_visible: bool,
)
    requires
        snaps_up ==> whole_slots < usize::MAX,
    ensures
        bar.slot_count == 0 ==> bar.split_of_units(whole_slots, snaps_up, partial_visible) == (
        0usize,
        false,
        ),
        bar.slot_count > 0 && snaps_up ==> bar.split_of_units(whole_slots, snaps_up, partial_visible).0
            == whole_slots + 1 && !bar.split_of_units(whole_slots, snaps_up, partial_visible).1,
        bar.slot_count > 0 && !snaps_up ==> bar.split_of_units(
            whole_slots,
            snaps_up,
            partial_visible,
        ).0 == whole_slots && (bar.split_of_units(whole_slots, snaps_up, partial_visible).1 <==> (
        partial_visible && whole_slots < bar.slot_count)),
{
}

/// Where a split has a partial slot, the slot at the split blinks, whatever
/// the split is (the first slot included), and no other slot does; without a
/// partial slot nothing blinks.
pub proof fn lemma_partial_slot_is_the_one_that_blinks(full: usize, index: usize, has_partial: bool)
    ensures
        has_partial ==> slot_blinks(full, has_partial, full),
        index != full ==> !slot_blinks(full, has_partial, index),
        !has_partial ==> !slot_blinks(full, has_partial, index),
{
}

/// Slots settle in fill order: every slot below the split is `Fill` and every
/// slot from the split on is `Empty`, so the filled slots are exactly the
/// first `full` ones.
pub proof fn lemma_settled_slots_fill_in_order(full: usize, i: usize, j: usize)
    requires
        i < j,
    ensures
        i < full ==> settled_state(full, i) == SegmentState::Fill,
        full <= j ==> settled_state(full, j) == SegmentState::Empty,
        settled_state(full, j) == SegmentState::Fill ==> settled_state(full, i)
            == SegmentState::Fill,
        settled_state(full, i) != SegmentState::Follow && settled_state(full, i)
            != SegmentState::Indeterminate,
{
}

} // verus!
