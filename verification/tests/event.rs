use trale::event::{event_notify_outcome, event_wait_outcome, EventWait, NotifyError};
use trale::io::reactor_value_to_result;

#[test]
fn event_wait_outcomes() {
    assert_eq!(event_wait_outcome(8, 0), EventWait::Ready(Ok(())));
    // EAGAIN is 11 on Linux.
    assert_eq!(event_wait_outcome(-1, 11), EventWait::RegisterReadable);
    assert_eq!(event_wait_outcome(-1, 9), EventWait::Ready(Err(9)));
}

#[test]
fn event_notify_outcomes() {
    assert_eq!(event_notify_outcome(8, 0), Ok(()));
    assert_eq!(event_notify_outcome(-1, 11), Err(NotifyError::Os(11)));
    assert_eq!(event_notify_outcome(4, 0), Err(NotifyError::UnexpectedEof));
}

#[test]
fn reactor_values() {
    assert_eq!(reactor_value_to_result(0), Ok(0));
    assert_eq!(reactor_value_to_result(12), Ok(12));
    assert_eq!(reactor_value_to_result(-4), Err(4));
    assert_eq!(reactor_value_to_result(i32::MAX), Ok(i32::MAX));
    assert_eq!(reactor_value_to_result(-i32::MAX), Err(i32::MAX));
}
