//! The decisions of a timerfd-backed timer.
//!
//! A timer completes once the clock has passed its expiration time;
//! until then each poll arms the timerfd for the time that is left. Times
//! are given as seconds and nanoseconds since a fixed origin; reading the
//! clock and arming the timerfd are done by the caller.
use vstd::prelude::*;

verus! {

/// Nanoseconds in a second.
pub const NANOS_PER_SEC: u32 = 1_000_000_000;

/// A point in time: seconds and nanoseconds since a fixed origin.
#[derive(Clone, Copy, PartialEq, Eq, Structural, Debug)]
pub struct TimePoint {
    /// Whole seconds.
    pub secs: u64,
    /// Nanoseconds past the whole seconds, below one second.
    pub nanos: u32,
}

/// The time relative to a timerfd's clock that it is armed for, as a
/// `timespec`.
#[derive(Clone, Copy, PartialEq, Eq, Structural, Debug)]
pub struct TimeSpec {
    /// Seconds.
    pub tv_sec: i64,
    /// Nanoseconds.
    pub tv_nsec: i64,
}

/// A point in time in nanoseconds.
pub open spec fn time_ns(t: TimePoint) -> int {
    t.secs * 1_000_000_000 + t.nanos
}

/// Whether a time point is in normal form.
pub open spec fn time_wf(t: TimePoint) -> bool {
    t.nanos < NANOS_PER_SEC
}

/// What a poll of a timer does.
#[derive(Clone, Copy, PartialEq, Eq, Structural, Debug)]
pub enum TimerStep {
    /// The expiration time has passed: the timer is done.
    Ready,
    /// Arm the timerfd for this time and wait for it to become readable.
    Arm(TimeSpec),
}

/// The `timespec` for the time left from `now` until `expiration`: the
/// whole seconds (converted to `i64` as a C `time_t` cast does) and the
/// nanoseconds below one second.
pub open spec fn tspec_spec(now: TimePoint, expiration: TimePoint) -> TimeSpec {
    let left = time_ns(expiration) - time_ns(now);
    TimeSpec {
        tv_sec: (left / 1_000_000_000) as u64 as i64,
        tv_nsec: (left % 1_000_000_000) as i64,
    }
}

/// The `timespec` for the time left from `now` until `expiration`.
pub fn compute_tspec(now: TimePoint, expiration: TimePoint) -> (ts: TimeSpec)
    requires
        time_wf(now),
        time_wf(expiration),
        time_ns(now) <= time_ns(expiration),
    ensures
        ts == tspec_spec(now, expiration),
        0 <= ts.tv_nsec < 1_000_000_000,
{
    let (secs, nanos) = if expiration.nanos >= now.nanos {
        (expiration.secs - now.secs, expiration.nanos - now.nanos)
    } else {
        (expiration.secs - now.secs - 1, expiration.nanos + NANOS_PER_SEC - now.nanos)
    };
    assert(secs * 1_000_000_000 + nanos == time_ns(expiration) - time_ns(now));
    assert(nanos < 1_000_000_000);
    proof {
        let left = time_ns(expiration) - time_ns(now);
        vstd::arithmetic::div_mod::lemma_fundamental_div_mod_converse(
            left,
            1_000_000_000,
            secs as int,
            nanos as int,
        );
    }
    TimeSpec { tv_sec: #[verifier::truncate] (secs as i64), tv_nsec: nanos as i64 }
}

/// Decide a poll of a timer that expires at `expiration`, at time `now`:
/// done once `now` is past the expiration, otherwise arm the timerfd for
/// the time left.
pub fn timer_poll_step(now: TimePoint, expiration: TimePoint) -> (r: TimerStep)
    requires
        time_wf(now),
        time_wf(expiration),
    ensures
        time_ns(now) > time_ns(expiration) ==> r == TimerStep::Ready,
        time_ns(now) <= time_ns(expiration) ==> r == TimerStep::Arm(tspec_spec(now, expiration)),
{
    if now.secs > expiration.secs || (now.secs == expiration.secs && now.nanos > expiration.nanos) {
        TimerStep::Ready
    } else {
        TimerStep::Arm(compute_tspec(now, expiration))
    }
}

} // verus!
