use sched_core::bringup::BringUp;
use sched_core::system::System;

#[test]
fn ordered_bringup_reaches_the_task_spawn() {
    let mut b = BringUp::power_on();
    assert!(!b.monotonic_started && !b.watchdog_disabled && !b.halted);
    b.start_monotonic();
    b.disable_watchdog();
    b.configure_clocks(true);
    assert!(!b.halted);
    b.configure_pins();
    b.spawn_tasks();
    assert!(b.monotonic_started);
    assert!(b.watchdog_disabled);
    assert!(b.clocks_configured);
    assert!(b.pins_configured);
    assert!(b.tasks_spawned);
}

#[test]
fn watchdog_is_disabled_before_the_clock_tree() {
    let mut b = BringUp::power_on();
    b.start_monotonic();
    b.disable_watchdog();
    // the slow, reset-prone step only starts with the watchdog already off
    assert!(b.watchdog_disabled && !b.clocks_configured);
    b.configure_clocks(true);
    assert!(b.clocks_configured);
}

#[test]
fn clock_failure_halts_before_any_spawn() {
    let mut b = BringUp::power_on();
    b.start_monotonic();
    b.disable_watchdog();
    b.configure_clocks(false);
    assert!(b.halted);
    assert!(!b.clocks_configured);
    assert!(!b.tasks_spawned);
}

#[test]
fn failed_clock_config_runs_zero_tasks() {
    assert!(System::init(false).is_none());
}

#[test]
fn successful_bringup_spawns_the_heartbeat() {
    let sys = System::init(true).expect("bring-up succeeds");
    assert!(sys.bringup.tasks_spawned);
    assert_eq!(sys.toggles, 0);
    assert_eq!(sys.level, false);
    assert_eq!(sys.now, 0);
}
