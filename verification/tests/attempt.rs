use trale::attempt::{AddrAttempts, AttemptError, AttemptStep};

#[test]
fn no_address_fails_at_once() {
    let a = AddrAttempts::new(0);
    assert_eq!(a.start(), AttemptStep::Failed(AttemptError::NoAddress));
}

#[test]
fn first_working_address_is_used() {
    let mut a = AddrAttempts::new(3);
    assert_eq!(a.start(), AttemptStep::Try(0));
    assert_eq!(a.failed(111), AttemptStep::Try(1));
    assert_eq!(a.succeeded(), AttemptStep::Succeeded(1));
}

#[test]
fn last_error_is_reported_when_all_fail() {
    let mut a = AddrAttempts::new(2);
    assert_eq!(a.start(), AttemptStep::Try(0));
    assert_eq!(a.failed(98), AttemptStep::Try(1));
    assert_eq!(a.failed(99), AttemptStep::Failed(AttemptError::Os(99)));
}
