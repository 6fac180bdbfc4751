//! The decisions of an eventfd-backed event.
//!
//! An event is an eventfd in semaphore mode. Notifying writes the 8-byte
//! counter increment 1; waiting reads it back. The reads and writes are made
//! by the caller; what their outcomes mean is decided here.
use vstd::prelude::*;

verus! {

/// `libc::EAGAIN`, which is 11 on Linux (`EWOULDBLOCK` is the same value).
#[verifier::external_body]
fn eagain() -> (r: i32)
    ensures
        r == 11,
{
    libc::EAGAIN
}

/// The number of bytes a notification writes: one `u64`.
pub const EVENT_WORD_LEN: usize = 8;

/// What a poll of an event waiter comes to.
#[derive(Clone, Copy, PartialEq, Eq, Debug)]
pub enum EventWait {
    /// The wait is over: an event was taken, or the read failed with this
    /// errno.
    Ready(Result<(), i32>),
    /// No event yet: register the waker for readability of the eventfd and
    /// stay pending.
    RegisterReadable,
}

/// The meaning of a waiter's read: any successful read takes an event; a
/// read that would block means no event is there yet; any other failure
/// ends the wait with its errno.
pub open spec fn wait_outcome_spec(ret: isize, errno: i32) -> EventWait {
    if ret != -1 {
        EventWait::Ready(Ok(()))
    } else if errno == 11 {
        EventWait::RegisterReadable
    } else {
        EventWait::Ready(Err(errno))
    }
}

/// Decide a poll of an event waiter from the outcome of its `read(2)` on
/// the eventfd: its return value and, when that is -1, the errno.
pub fn event_wait_outcome(ret: isize, errno: i32) -> (r: EventWait)
    ensures
        r == wait_outcome_spec(ret, errno),
{
    if ret == -1 {
        if errno == eagain() {
            EventWait::RegisterReadable
        } else {
            EventWait::Ready(Err(errno))
        }
    } else {
        EventWait::Ready(Ok(()))
    }
}

/// Why a notification failed.
#[derive(Clone, Copy, PartialEq, Eq, Structural, Debug)]
pub enum NotifyError {
    /// The write failed with this errno.
    Os(i32),
    /// The write took fewer bytes than the whole counter word.
    UnexpectedEof,
}

/// The meaning of a notifier's write: -1 is a failure with its errno; a
/// write of anything but the whole word is an unexpected end; otherwise the
/// event is sent.
pub open spec fn notify_outcome_spec(ret: isize, errno: i32) -> Result<(), NotifyError> {
    if ret == -1 {
        Err(NotifyError::Os(errno))
    } else if ret as usize != EVENT_WORD_LEN {
        Err(NotifyError::UnexpectedEof)
    } else {
        Ok(())
    }
}

/// Decide a notification from the outcome of its `write(2)` of the counter
/// word: its return value and, when that is -1, the errno.
pub fn event_notify_outcome(ret: isize, errno: i32) -> (r: Result<(), NotifyError>)
    ensures
        r == notify_outcome_spec(ret, errno),
{
    if ret == -1 {
        return Err(NotifyError::Os(errno));
    }
    if ret as usize != EVENT_WORD_LEN {
        return Err(NotifyError::UnexpectedEof);
    }
    Ok(())
}

} // verus!
