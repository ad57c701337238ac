use netevents::tick::{LastRepliconTick, MinRepliconTick, RepliconTick};
use std::cmp::Ordering;

#[test]
fn increment_wraps_at_the_end_of_the_range() {
    let mut t = RepliconTick::new(u32::MAX);
    t.increment();
    assert_eq!(t.get(), 0);
    let mut u = RepliconTick::new(10);
    u.increment_by(5);
    assert_eq!(u.get(), 15);
    let mut w = RepliconTick::new(u32::MAX - 1);
    w.increment_by(3);
    assert_eq!(w.get(), 1);
}

#[test]
fn largest_tick_is_one_step_before_zero() {
    let max = RepliconTick::new(u32::MAX);
    let zero = RepliconTick::new(0);
    assert_eq!(max.compare(&zero), Ordering::Less);
    assert_eq!(zero.compare(&max), Ordering::Greater);
    assert_eq!(max.partial_cmp(&zero), Some(Ordering::Less));
    assert!(max < zero);
    let mut next = max;
    next.increment();
    assert_eq!(next, zero);
}

#[test]
fn comparison_within_half_range() {
    let a = RepliconTick::new(5);
    let b = RepliconTick::new(7);
    assert_eq!(a.compare(&b), Ordering::Less);
    assert_eq!(b.compare(&a), Ordering::Greater);
    assert_eq!(a.compare(&a), Ordering::Equal);
    let far = RepliconTick::new(5u32.wrapping_add(u32::MAX / 2));
    assert_eq!(far.compare(&a), Ordering::Greater);
    let beyond = RepliconTick::new(5u32.wrapping_add(u32::MAX / 2 + 1));
    assert_eq!(beyond.compare(&a), Ordering::Less);
}

#[test]
fn stale_acknowledgement_is_discarded() {
    let mut last = LastRepliconTick::new(RepliconTick::new(10));
    assert!(!last.acknowledge(RepliconTick::new(9)));
    assert_eq!(last.get().get(), 10);
    assert!(!last.acknowledge(RepliconTick::new(10)));
    assert!(last.acknowledge(RepliconTick::new(11)));
    assert_eq!(last.get().get(), 11);
}

#[test]
fn acknowledgement_across_wraparound() {
    let mut last = LastRepliconTick::new(RepliconTick::new(u32::MAX));
    assert!(last.acknowledge(RepliconTick::new(2)));
    assert_eq!(last.get().get(), 2);
    assert!(last.is_ready(RepliconTick::new(u32::MAX)));
    assert!(!last.is_ready(RepliconTick::new(3)));
}

#[test]
fn event_gated_by_acknowledged_tick() {
    let event = RepliconTick::new(20);
    assert!(!LastRepliconTick::new(RepliconTick::new(10)).is_ready(event));
    assert!(LastRepliconTick::new(RepliconTick::new(20)).is_ready(event));
    assert!(LastRepliconTick::new(RepliconTick::new(30)).is_ready(event));
}

#[test]
fn minimum_tick_forces_updates_until_acknowledged() {
    let mut min = MinRepliconTick::default();
    min.note_sent_events(0, RepliconTick::new(7));
    assert_eq!(min.0.get(), 0);
    min.note_sent_events(2, RepliconTick::new(7));
    assert_eq!(min.0.get(), 7);
    assert!(min.must_force_send(RepliconTick::new(6)));
    assert!(!min.must_force_send(RepliconTick::new(7)));
    assert!(!min.must_force_send(RepliconTick::new(8)));
}
