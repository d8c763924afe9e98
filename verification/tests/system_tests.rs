use sched_core::system::System;

#[test]
fn heartbeat_toggles_once_every_25_steps_of_10() {
    let mut sys = System::init(true).expect("bring-up succeeds");
    // configured initial level: low
    assert_eq!(sys.level, false);
    assert_eq!(sys.toggles, 0);
    let mut toggles_seen: u64 = 0;
    let mut last_level = false;
    for i in 1u32..=101 {
        let ran = sys.step(i * 10);
        // activations land on steps 1, 26, 51, 76, 101: once every 25 steps
        let expected = (u64::from(i) + 24) / 25;
        assert_eq!(sys.toggles, expected);
        if ran {
            toggles_seen += 1;
            // strictly alternating level
            assert_eq!(sys.level, !last_level);
            last_level = sys.level;
        } else {
            assert_eq!(sys.level, last_level);
        }
    }
    assert_eq!(toggles_seen, 5);
    assert_eq!(sys.now, 1010);
    assert_eq!(sys.level, true);
}

#[test]
fn heartbeat_period_is_exactly_one_interval() {
    let mut sys = System::init(true).expect("bring-up succeeds");
    // the spawned task runs at once, at tick 0: low -> high
    assert!(sys.step(0));
    assert_eq!(sys.toggles, 1);
    assert_eq!(sys.level, true);
    // not due again before a full interval has passed
    assert!(!sys.step(249));
    assert_eq!(sys.toggles, 1);
    assert!(sys.step(250));
    assert_eq!(sys.toggles, 2);
    assert_eq!(sys.level, false);
}

#[test]
fn alarm_is_rearmed_one_interval_after_each_activation() {
    let mut sys = System::init(true).expect("bring-up succeeds");
    // before the first activation nothing is pending
    assert_eq!(sys.next_alarm(), None);
    sys.step(0);
    assert_eq!(sys.next_alarm(), Some(250));
    sys.step(250);
    assert_eq!(sys.next_alarm(), Some(500));
}

#[test]
fn late_scheduler_pass_still_fires_the_wake() {
    let mut sys = System::init(true).expect("bring-up succeeds");
    assert!(sys.step(0));
    // the pass at tick 400 is well past the wake at 250: it fires then
    assert!(sys.step(400));
    assert_eq!(sys.toggles, 2);
    assert_eq!(sys.now, 400);
}
