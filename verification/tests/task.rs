use trale::task::Executor;

#[test]
fn spawned_tasks_run_last_first() {
    let mut exec = Executor::new();
    assert!(exec.is_done());
    exec.spawn(1);
    exec.spawn(2);
    assert!(!exec.needs_react());
    assert_eq!(exec.next_task(), Some(2));
    assert_eq!(exec.next_task(), Some(1));
    assert_eq!(exec.next_task(), None);
    assert!(exec.needs_react());
    assert!(exec.is_done());
}

#[test]
fn parked_task_is_woken_once() {
    let mut exec = Executor::new();
    exec.spawn(4);
    let t = exec.next_task().unwrap();
    let key = exec.park(t);
    assert!(exec.needs_react());
    assert!(!exec.is_done());
    exec.wake(key);
    assert!(!exec.needs_react());
    exec.wake(key);
    assert_eq!(exec.next_task(), Some(4));
    assert_eq!(exec.next_task(), None);
    assert!(exec.is_done());
}

#[test]
fn wake_of_unknown_key_is_ignored() {
    let mut exec = Executor::new();
    exec.wake(3);
    assert!(exec.is_done());
    exec.spawn(1);
    let t = exec.next_task().unwrap();
    let k = exec.park(t);
    exec.wake(k + 1);
    assert!(exec.needs_react());
    assert!(!exec.is_done());
}

#[test]
fn parked_tasks_get_distinct_keys() {
    let mut exec = Executor::new();
    let a = exec.park(10);
    let b = exec.park(11);
    assert_ne!(a, b);
    exec.wake(b);
    assert_eq!(exec.next_task(), Some(11));
    exec.wake(a);
    assert_eq!(exec.next_task(), Some(10));
    assert!(exec.is_done());
}

use trale::task::LoopAction;

#[test]
fn loop_runs_until_no_task_is_left() {
    let mut exec = Executor::new();
    exec.spawn(1);
    exec.spawn(2);
    assert_eq!(exec.loop_top(), LoopAction::Poll(2));
    // Task 2 is pending: it is parked and task 1 runs next.
    let (key, next) = exec.after_poll(2, true);
    let key = key.unwrap();
    assert_eq!(next, LoopAction::Poll(1));
    // Task 1 finishes; task 2 still waits, so the loop waits for the reactor.
    assert_eq!(exec.after_poll(1, false), (None, LoopAction::React));
    exec.wake(key);
    assert_eq!(exec.loop_top(), LoopAction::Poll(2));
    assert_eq!(exec.after_poll(2, false), (None, LoopAction::Finish));
}

#[test]
fn empty_executor_finishes_at_once() {
    let mut exec = Executor::new();
    assert_eq!(exec.loop_top(), LoopAction::Finish);
    assert!(exec.is_done());
}

#[test]
fn react_without_runnable_task_waits_again() {
    let mut exec = Executor::new();
    let _ = exec.park(3);
    assert_eq!(exec.loop_top(), LoopAction::React);
    assert_eq!(exec.loop_top(), LoopAction::React);
    assert!(!exec.is_done());
}
