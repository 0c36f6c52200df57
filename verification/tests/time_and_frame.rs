use std::time::Duration;

use msg_value_bars::{effective_pixel_size, FrameAnchor, OnceTimer, TimeSpan};

fn same_as_std(span: TimeSpan, duration: Duration) {
    assert_eq!(span.as_secs(), duration.as_secs());
    assert_eq!(span.subsec_nanos(), duration.subsec_nanos());
}

#[test]
fn time_span_matches_std_duration() {
    same_as_std(TimeSpan::from_millis(50), Duration::from_millis(50));
    same_as_std(TimeSpan::from_millis(123_456), Duration::from_millis(123_456));
    same_as_std(TimeSpan::new(3, 2_500_000_000), Duration::new(3, 2_500_000_000));
    same_as_std(TimeSpan::zero(), Duration::ZERO);
    same_as_std(TimeSpan::from_millis(u64::MAX), Duration::from_millis(u64::MAX));
}

#[test]
fn time_span_arithmetic() {
    let a = TimeSpan::new(2, 100);
    let b = TimeSpan::new(1, 200);
    assert!(b.lt(&a));
    assert!(!a.lt(&b));
    assert!(!a.lt(&a));
    same_as_std(a.saturating_sub(b), Duration::new(0, 999_999_900));
    assert!(b.saturating_sub(a).is_zero());
    assert!(!a.is_zero());
    assert!(TimeSpan::new(0, 0).is_zero());
    assert_eq!(TimeSpan::new(1, 1_000_000_000), TimeSpan::new(2, 0));
}

#[test]
fn once_timer_ticks_and_stops_at_its_duration() {
    let mut timer = OnceTimer::new(TimeSpan::from_millis(50));
    assert_eq!(timer.elapsed(), TimeSpan::zero());
    assert_eq!(timer.remaining(), TimeSpan::from_millis(50));
    timer.tick(TimeSpan::from_millis(20));
    assert_eq!(timer.elapsed(), TimeSpan::from_millis(20));
    assert_eq!(timer.remaining(), TimeSpan::from_millis(30));
    timer.tick(TimeSpan::from_millis(45));
    assert_eq!(timer.elapsed(), TimeSpan::from_millis(50));
    assert_eq!(timer.remaining(), TimeSpan::zero());
    assert_eq!(timer.duration(), TimeSpan::from_millis(50));
}

#[test]
fn frame_anchor_picks_the_tracked_extent() {
    assert_eq!(FrameAnchor::Lead.pick(1, 2, 3), 1);
    assert_eq!(FrameAnchor::Fill.pick(1, 2, 3), 2);
    assert_eq!(FrameAnchor::Full.pick(1, 2, 3), 3);
}

#[test]
fn pixel_size_is_at_least_one() {
    assert_eq!(effective_pixel_size(0), 1);
    assert_eq!(effective_pixel_size(1), 1);
    assert_eq!(effective_pixel_size(4), 4);
}
