use msg_value_bars::{
    BlinkChange, Segment, SegmentBlink, SegmentFillDirection, SegmentPlan, SegmentState,
    SegmentedBar, TimeSpan,
};

fn ms(millis: u64) -> TimeSpan {
    TimeSpan::from_millis(millis)
}

/// A bar's slot children as the state pass sees them: each slot with its
/// blink, if it has one.
struct Slots {
    segments: Vec<Segment>,
    blinks: Vec<Option<SegmentBlink>>,
}

impl Slots {
    fn new(count: usize) -> Self {
        Slots {
            segments: (0..count)
                .map(|index| Segment { index, state: SegmentState::Empty })
                .collect(),
            blinks: (0..count).map(|_| None).collect(),
        }
    }

    /// One state pass for the split `(full, has_partial)`, then one blink
    /// tick of `delta`.
    fn update(&mut self, bar: &SegmentedBar, full: usize, has_partial: bool, delta: TimeSpan) {
        for k in 0..self.segments.len() {
            let plan: SegmentPlan =
                bar.plan_segment(full, has_partial, &self.segments[k], self.blinks[k].as_ref());
            match plan.blink {
                BlinkChange::Keep => {}
                BlinkChange::Retime => {
                    self.blinks[k].as_mut().unwrap().retime(bar.blink_empty, bar.blink_follow)
                }
                BlinkChange::Start => {
                    self.blinks[k] = Some(SegmentBlink::new(bar.blink_empty, bar.blink_follow))
                }
                BlinkChange::Stop => self.blinks[k] = None,
            }
            if let Some(state) = plan.state {
                self.segments[k].state = state;
            }
        }
        for k in 0..self.segments.len() {
            if let Some(blink) = self.blinks[k].as_mut() {
                blink.advance(delta);
                self.segments[k].state = blink.current_state();
            }
        }
    }

    /// Take away and spawn slot children as the bar asks.
    fn reconcile(&mut self, bar: &SegmentedBar) {
        let present: Vec<usize> = self.segments.iter().map(|s| s.index).collect();
        let plan = bar.reconcile_slots(&present);
        for position in plan.despawn.iter().rev() {
            self.segments.remove(*position);
            self.blinks.remove(*position);
        }
        for index in plan.spawn {
            self.segments.push(Segment { index, state: SegmentState::Empty });
            self.blinks.push(None);
        }
        let mut order: Vec<usize> = (0..self.segments.len()).collect();
        order.sort_by_key(|k| self.segments[*k].index);
        self.segments = order.iter().map(|k| self.segments[*k]).collect();
        self.blinks = order.iter().map(|k| self.blinks[*k]).collect();
    }

    fn states(&self) -> Vec<(usize, SegmentState, bool)> {
        self.segments
            .iter()
            .zip(self.blinks.iter())
            .map(|(s, b)| (s.index, s.state, b.is_some()))
            .collect()
    }
}

#[test]
fn display_index_follows_fill_direction() {
    let normal = SegmentedBar::new(4);
    assert_eq!(normal.display_index(0), 0);
    assert_eq!(normal.display_index(3), 3);

    let inverse = SegmentedBar::new(4).with_fill_direction(SegmentFillDirection::Inverse);
    assert_eq!(inverse.display_index(0), 3);
    assert_eq!(inverse.display_index(3), 0);
}

#[test]
fn display_index_past_the_last_slot_saturates() {
    let inverse = SegmentedBar::new(4).with_fill_direction(SegmentFillDirection::Inverse);
    assert_eq!(inverse.display_index(4), 0);
    assert_eq!(inverse.display_index(100), 0);
    let empty = SegmentedBar::new(0).with_fill_direction(SegmentFillDirection::Inverse);
    assert_eq!(empty.display_index(0), 0);
}

#[test]
fn mirrored_layout_twice_gives_the_slot_back() {
    let inverse = SegmentedBar::new(7).with_fill_direction(SegmentFillDirection::Inverse);
    for index in 0..7 {
        let placed = inverse.display_index(index);
        assert!(placed < 7);
        assert_eq!(inverse.display_index(placed), index);
    }
}

#[test]
fn default_bar_and_builders() {
    let bar = SegmentedBar::default();
    assert_eq!(bar.slot_count, 5);
    assert_eq!(bar.fill_direction, SegmentFillDirection::Normal);
    assert_eq!(bar.blink_empty, ms(50));
    assert_eq!(bar.blink_follow, ms(50));

    let bar = SegmentedBar::new(5)
        .with_fill_direction(SegmentFillDirection::Inverse)
        .with_blink_timing(ms(100), ms(200));
    assert_eq!(bar.slot_count, 5);
    assert_eq!(bar.fill_direction, SegmentFillDirection::Inverse);
    assert_eq!(bar.blink_empty, ms(100));
    assert_eq!(bar.blink_follow, ms(200));
}

#[test]
fn slot_split_of_units_threshold_semantics() {
    let bar = SegmentedBar::new(4);
    // Empty and full: no partial slot.
    assert_eq!(bar.slot_split_of_units(0, false, false), (0, false));
    assert_eq!(bar.slot_split_of_units(4, false, false), (4, false));
    // Exactly on a boundary: no partial slot.
    assert_eq!(bar.slot_split_of_units(2, false, false), (2, false));
    // Between boundaries: the next slot is partial.
    assert_eq!(bar.slot_split_of_units(2, false, true), (2, true));
    assert_eq!(bar.slot_split_of_units(0, false, true), (0, true));
    // A hair below a boundary snaps up to it.
    assert_eq!(bar.slot_split_of_units(1, true, true), (2, false));
    // A partial share past the last slot is not a partial slot.
    assert_eq!(bar.slot_split_of_units(4, false, true), (4, false));
    // A bar without slots.
    assert_eq!(SegmentedBar::new(0).slot_split_of_units(3, true, true), (0, false));
}

#[test]
fn blinking_state_toggle() {
    let mut blink = SegmentBlink::new(ms(50), ms(50));

    assert!(blink.showing_empty);
    assert_eq!(blink.current_state(), SegmentState::Empty);

    blink.showing_empty = false;
    assert_eq!(blink.current_state(), SegmentState::Follow);
}

#[test]
fn segments_fill_up_to_the_value_and_partial_blinks() {
    let bar = SegmentedBar::new(4);
    let mut slots = Slots::new(4);

    // 0.5 of 4 slots = exactly 2 full, no partial.
    let (full, partial) = bar.slot_split_of_units(2, false, false);
    slots.update(&bar, full, partial, ms(0));
    assert_eq!(
        slots.states(),
        vec![
            (0, SegmentState::Fill, false),
            (1, SegmentState::Fill, false),
            (2, SegmentState::Empty, false),
            (3, SegmentState::Empty, false),
        ]
    );

    // 0.625 of 4 slots = 2.5: slot 2 is partial and blinks.
    let (full, partial) = bar.slot_split_of_units(2, false, true);
    slots.update(&bar, full, partial, ms(0));
    let states = slots.states();
    assert_eq!(states[0], (0, SegmentState::Fill, false));
    assert_eq!(states[1], (1, SegmentState::Fill, false));
    assert!(states[2].2, "the partial slot carries a blink");
    assert!(
        matches!(states[2].1, SegmentState::Empty | SegmentState::Follow),
        "a blinking slot shows one of its two phases, got {:?}",
        states[2].1
    );
    assert_eq!(states[3], (3, SegmentState::Empty, false));
}

#[test]
fn dropping_the_value_retracts_fill_and_stops_blinking() {
    let bar = SegmentedBar::new(4);
    let mut slots = Slots::new(4);
    let (full, partial) = bar.slot_split_of_units(2, false, true);
    slots.update(&bar, full, partial, ms(0));
    assert!(slots.states()[2].2, "slot 2 blinks at value 0.625");

    // Down to exactly one slot: blink removed, states settle.
    let (full, partial) = bar.slot_split_of_units(1, false, false);
    slots.update(&bar, full, partial, ms(0));
    assert_eq!(
        slots.states(),
        vec![
            (0, SegmentState::Fill, false),
            (1, SegmentState::Empty, false),
            (2, SegmentState::Empty, false),
            (3, SegmentState::Empty, false),
        ]
    );
}

#[test]
fn host_set_states_are_overwritten() {
    let bar = SegmentedBar::new(3);
    let segment = Segment { index: 0, state: SegmentState::Indeterminate };
    let plan = bar.plan_segment(1, false, &segment, None);
    assert_eq!(plan, SegmentPlan { blink: BlinkChange::Keep, state: Some(SegmentState::Fill) });
    let segment = Segment { index: 2, state: SegmentState::Follow };
    let plan = bar.plan_segment(1, false, &segment, None);
    assert_eq!(plan, SegmentPlan { blink: BlinkChange::Keep, state: Some(SegmentState::Empty) });
    let segment = Segment { index: 2, state: SegmentState::Empty };
    let plan = bar.plan_segment(1, false, &segment, None);
    assert_eq!(plan, SegmentPlan { blink: BlinkChange::Keep, state: None });
}

#[test]
fn blinking_slot_keeps_its_state_for_the_blink() {
    let bar = SegmentedBar::new(3);
    let segment = Segment { index: 1, state: SegmentState::Follow };
    let blink = SegmentBlink::new(ms(50), ms(50));
    let plan = bar.plan_segment(1, true, &segment, Some(&blink));
    assert_eq!(plan, SegmentPlan { blink: BlinkChange::Keep, state: None });
    let plan = bar.plan_segment(1, true, &segment, None);
    assert_eq!(plan, SegmentPlan { blink: BlinkChange::Start, state: None });
    let plan = bar.plan_segment(2, false, &segment, Some(&blink));
    assert_eq!(plan, SegmentPlan { blink: BlinkChange::Stop, state: Some(SegmentState::Fill) });
}

#[test]
fn blink_carries_overshoot_across_phases() {
    let mut blink = SegmentBlink::new(ms(50), ms(50));
    blink.advance(ms(0));
    assert_eq!(blink.current_state(), SegmentState::Empty, "a fresh blink starts in its empty phase");

    // One 120 ms frame crosses both 50 ms phases and lands 20 ms into
    // the next empty phase: two flips, with the overshoot carried.
    blink.advance(ms(120));
    assert_eq!(blink.current_state(), SegmentState::Empty);
    assert!(blink.showing_empty);
    assert_eq!(blink.timer.elapsed(), ms(20));

    // A 60 ms frame finishes that phase (30 ms left) and carries the
    // remaining 30 ms into the follow phase.
    blink.advance(ms(60));
    assert_eq!(blink.current_state(), SegmentState::Follow);
    assert_eq!(blink.timer.elapsed(), ms(30));
}

#[test]
fn changing_blink_timing_applies_to_a_live_blink() {
    let bar = SegmentedBar::new(4);
    let mut slots = Slots::new(4);
    let (full, partial) = bar.slot_split_of_units(2, false, true);
    slots.update(&bar, full, partial, ms(0));

    let mut bar = bar;
    bar.blink_follow = ms(200);
    slots.update(&bar, full, partial, ms(0));
    let blink = slots.blinks[2].as_ref().unwrap();
    assert_eq!(blink.follow_duration, ms(200));

    // Finish the 50 ms empty phase; the follow phase now runs at the new
    // duration, so a second 60 ms frame stays mid-phase.
    slots.update(&bar, full, partial, ms(60));
    assert_eq!(slots.segments[2].state, SegmentState::Follow);
    slots.update(&bar, full, partial, ms(60));
    assert_eq!(slots.segments[2].state, SegmentState::Follow);
}

#[test]
fn retiming_waits_for_the_next_flip() {
    let mut blink = SegmentBlink::new(ms(50), ms(50));
    blink.advance(ms(10));
    blink.retime(ms(500), ms(20));
    // The running empty phase keeps its 50 ms.
    assert_eq!(blink.timer.duration(), ms(50));
    blink.advance(ms(45));
    // 40 ms finish the empty phase; the new 20 ms follow phase runs 5 ms.
    assert_eq!(blink.current_state(), SegmentState::Follow);
    assert_eq!(blink.timer.duration(), ms(20));
    assert_eq!(blink.timer.elapsed(), ms(5));
}

#[test]
fn blink_is_frame_rate_independent() {
    let mut split = SegmentBlink::new(ms(30), ms(70));
    let mut whole = split;
    for step in [7u64, 13, 0, 55, 25, 100, 1] {
        split.advance(ms(step));
    }
    whole.advance(ms(201));
    assert_eq!(split.showing_empty, whole.showing_empty);
    assert_eq!(split.timer.elapsed(), whole.timer.elapsed());
    assert_eq!(split.timer.duration(), whole.timer.duration());
    // 201 ms = 30 + 70 + 30 + 70 + 1: one ms into the empty phase.
    assert!(whole.showing_empty);
    assert_eq!(whole.timer.elapsed(), ms(1));
}

#[test]
fn zero_length_phases() {
    // An empty phase of zero length is passed straight through.
    let mut blink = SegmentBlink::new(ms(0), ms(40));
    blink.advance(ms(10));
    assert_eq!(blink.current_state(), SegmentState::Follow);
    assert_eq!(blink.timer.elapsed(), ms(10));
    // With both phases empty, each advance flips once and stops.
    let mut idle = SegmentBlink::new(ms(0), ms(0));
    idle.advance(ms(500));
    assert_eq!(idle.current_state(), SegmentState::Follow);
    idle.advance(ms(500));
    assert_eq!(idle.current_state(), SegmentState::Empty);
    idle.advance(ms(0));
    assert_eq!(idle.current_state(), SegmentState::Empty);
}

#[test]
fn changing_slot_count_reconciles_children() {
    let mut bar = SegmentedBar::new(4);
    let mut slots = Slots::new(0);
    slots.reconcile(&bar);
    // Value 1.0 covers every slot.
    let (full, partial) = bar.slot_split_of_units(4, false, false);
    slots.update(&bar, full, partial, ms(0));
    assert_eq!(
        slots.states(),
        vec![
            (0, SegmentState::Fill, false),
            (1, SegmentState::Fill, false),
            (2, SegmentState::Fill, false),
            (3, SegmentState::Fill, false),
        ]
    );

    // Growing spawns the missing slots; value 1.0 now spans all six.
    bar.slot_count = 6;
    slots.reconcile(&bar);
    let (full, partial) = bar.slot_split_of_units(6, false, false);
    slots.update(&bar, full, partial, ms(0));
    assert_eq!(
        slots.states(),
        vec![
            (0, SegmentState::Fill, false),
            (1, SegmentState::Fill, false),
            (2, SegmentState::Fill, false),
            (3, SegmentState::Fill, false),
            (4, SegmentState::Fill, false),
            (5, SegmentState::Fill, false),
        ]
    );

    // Shrinking despawns the extras.
    bar.slot_count = 2;
    slots.reconcile(&bar);
    let (full, partial) = bar.slot_split_of_units(2, false, false);
    slots.update(&bar, full, partial, ms(0));
    assert_eq!(
        slots.states(),
        vec![(0, SegmentState::Fill, false), (1, SegmentState::Fill, false)]
    );
}

#[test]
fn reconciliation_lists_what_to_despawn_and_spawn() {
    let r = SegmentedBar::new(6).reconcile_slots(&vec![0, 1, 2, 3]);
    assert_eq!(r.despawn, Vec::<usize>::new());
    assert_eq!(r.spawn, vec![4, 5]);
    let r = SegmentedBar::new(2).reconcile_slots(&vec![0, 1, 2, 3, 4, 5]);
    assert_eq!(r.despawn, vec![2, 3, 4, 5]);
    assert_eq!(r.spawn, Vec::<usize>::new());
    let r = SegmentedBar::new(3).reconcile_slots(&vec![]);
    assert_eq!(r.despawn, Vec::<usize>::new());
    assert_eq!(r.spawn, vec![0, 1, 2]);
}

#[test]
fn reconciliation_fills_gaps_and_keeps_duplicates() {
    let r = SegmentedBar::new(4).reconcile_slots(&vec![3, 9, 1, 3, 7]);
    assert_eq!(r.despawn, vec![1, 4]);
    assert_eq!(r.spawn, vec![0, 2]);
}

#[test]
fn bar_at_zero_value_shows_every_slot_empty() {
    let bar = SegmentedBar::new(3);
    let mut slots = Slots::new(0);
    slots.reconcile(&bar);
    let (full, partial) = bar.slot_split_of_units(0, false, false);
    slots.update(&bar, full, partial, ms(0));
    assert_eq!(
        slots.states(),
        vec![
            (0, SegmentState::Empty, false),
            (1, SegmentState::Empty, false),
            (2, SegmentState::Empty, false),
        ]
    );
}

#[test]
fn reconciling_twice_has_nothing_left_to_do() {
    let bar = SegmentedBar::new(4);
    let present = vec![3, 9, 1, 3, 7];
    let first = bar.reconcile_slots(&present);
    let mut after: Vec<usize> = present
        .iter()
        .enumerate()
        .filter(|(k, _)| !first.despawn.contains(k))
        .map(|(_, index)| *index)
        .collect();
    after.extend(first.spawn.iter().copied());
    let second = bar.reconcile_slots(&after);
    assert!(second.despawn.is_empty());
    assert!(second.spawn.is_empty());
}
