use sched_core::executor::Executor;
use sched_core::executor::TaskState;
use sched_core::resource::IrqMask;
use sched_core::resource::ceiling_of;
use sched_core::starvation::TaskOp;
use sched_core::starvation::heartbeat_body;
use sched_core::starvation::loop_body_yields;

#[test]
fn highest_priority_ready_dispatches_first() {
    let mut e = Executor::new();
    let low = e.add_task(1);
    let high = e.add_task(3);
    let mid = e.add_task(2);
    e.spawn(low);
    e.spawn(high);
    e.spawn(mid);
    assert_eq!(e.dispatch(), Some(high));
    e.suspend(high, 500);
    assert_eq!(e.dispatch(), Some(mid));
    e.complete(mid);
    assert_eq!(e.dispatch(), Some(low));
    e.complete(low);
    assert_eq!(e.dispatch(), None);
}

#[test]
fn equal_priority_goes_by_registration_order() {
    let mut e = Executor::new();
    let first = e.add_task(2);
    let second = e.add_task(2);
    e.spawn(first);
    e.spawn(second);
    assert_eq!(e.dispatch(), Some(first));
}

#[test]
fn suspended_task_requeues_on_wake() {
    let mut e = Executor::new();
    let t = e.add_task(1);
    e.spawn(t);
    assert_eq!(e.dispatch(), Some(t));
    e.suspend(t, 42);
    assert_eq!(e.tasks[t].state, TaskState::Suspended { wake_at: 42 });
    // nothing is ready while the only task is parked
    assert_eq!(e.dispatch(), None);
    e.wake_task(t);
    assert_eq!(e.tasks[t].state, TaskState::Ready);
    assert_eq!(e.dispatch(), Some(t));
}

#[test]
fn one_shot_task_goes_back_to_idle() {
    let mut e = Executor::new();
    let t = e.add_task(5);
    assert_eq!(e.tasks[t].state, TaskState::Idle);
    e.spawn(t);
    assert_eq!(e.dispatch(), Some(t));
    e.complete(t);
    assert_eq!(e.tasks[t].state, TaskState::Idle);
    assert_eq!(e.dispatch(), None);
}

#[test]
fn loop_without_suspension_point_is_flagged() {
    let starving = vec![TaskOp::Work, TaskOp::Work];
    assert!(!loop_body_yields(&starving));
    let empty: Vec<TaskOp> = Vec::new();
    assert!(!loop_body_yields(&empty));
}

#[test]
fn heartbeat_body_yields_each_iteration() {
    let body = heartbeat_body();
    assert!(loop_body_yields(&body));
    assert_eq!(body, vec![TaskOp::Work, TaskOp::Suspend]);
}

#[test]
fn ceiling_is_the_highest_contending_priority() {
    assert_eq!(ceiling_of(&vec![1u8, 3, 2]), 3);
    assert_eq!(ceiling_of(&vec![7u8]), 7);
}

#[test]
fn critical_section_raises_and_restores_the_mask() {
    let mut m = IrqMask::new();
    assert_eq!(m.current(), 0);
    let saved = m.raise(3);
    assert_eq!(saved, 0);
    assert_eq!(m.current(), 3);
    // a nested claim with a lower ceiling leaves the mask where it is
    let nested = m.raise(2);
    assert_eq!(nested, 3);
    assert_eq!(m.current(), 3);
    m.restore(nested);
    assert_eq!(m.current(), 3);
    m.restore(saved);
    assert_eq!(m.current(), 0);
}
