use sched_core::clock::MonotonicClock;
use sched_core::clock::WakeSet;

#[test]
fn monotonic_exact_values() {
    let mut c = MonotonicClock::new();
    assert_eq!(c.now(0), 0);
    assert_eq!(c.now(1000), 1000);
    assert_eq!(c.now(50_000), 50_000);
}

#[test]
fn monotonic_across_wrap() {
    let mut c = MonotonicClock::new();
    let reads: [u32; 6] = [0, 1000, 50_000, 0xFFFF_FF00, 3, 700];
    let mut prev: u64 = 0;
    for r in reads {
        let t = c.now(r);
        assert!(t >= prev);
        prev = t;
    }
    // the backwards raw step was read as one full wrap of the counter
    assert_eq!(c.wrap_count(), 1);
    assert_eq!(prev, 0x1_0000_0000u64 + 700);
}

#[test]
fn monotonic_across_two_wraps() {
    let mut c = MonotonicClock::new();
    let mut prev: u64 = 0;
    for r in [10u32, 5, 2, 9] {
        let t = c.now(r);
        assert!(t >= prev);
        prev = t;
    }
    assert_eq!(c.wrap_count(), 2);
    assert_eq!(prev, 2 * 0x1_0000_0000u64 + 9);
}

#[test]
fn wake_fires_exactly_once_at_or_after_deadline() {
    let mut w = WakeSet::new();
    w.register(1, 100);
    let early = w.service(99);
    assert!(early.is_empty());
    let fired = w.service(100);
    assert_eq!(fired, vec![1usize]);
    // the wake is one-shot: later passes see nothing
    let again = w.service(1000);
    assert!(again.is_empty());
    assert_eq!(w.pending_count(), 0);
}

#[test]
fn wake_in_the_past_fires_immediately() {
    let mut w = WakeSet::new();
    // tick 5 has long passed when the next scheduler pass services at 50
    w.register(4, 5);
    let fired = w.service(50);
    assert_eq!(fired, vec![4usize]);
    assert_eq!(w.pending_count(), 0);
}

#[test]
fn service_keeps_registration_order() {
    let mut w = WakeSet::new();
    w.register(3, 30);
    w.register(1, 10);
    w.register(2, 20);
    assert_eq!(w.nearest(), Some(10));
    let fired = w.service(25);
    // both due wakes fire, in registration order
    assert_eq!(fired, vec![1usize, 2]);
    assert_eq!(w.pending_count(), 1);
    assert_eq!(w.nearest(), Some(30));
}

#[test]
fn nearest_of_empty_set_is_none() {
    let w = WakeSet::new();
    assert_eq!(w.nearest(), None);
}
