use trale::timer::{compute_tspec, timer_poll_step, TimePoint, TimeSpec, TimerStep};

fn at(secs: u64, nanos: u32) -> TimePoint {
    TimePoint { secs, nanos }
}

#[test]
fn expired_timer_is_ready() {
    assert_eq!(timer_poll_step(at(10, 1), at(10, 0)), TimerStep::Ready);
    assert_eq!(timer_poll_step(at(11, 0), at(10, 999_999_999)), TimerStep::Ready);
}

#[test]
fn pending_timer_is_armed_for_time_left() {
    assert_eq!(
        timer_poll_step(at(10, 0), at(12, 500)),
        TimerStep::Arm(TimeSpec { tv_sec: 2, tv_nsec: 500 })
    );
    assert_eq!(
        timer_poll_step(at(10, 900_000_000), at(12, 100_000_000)),
        TimerStep::Arm(TimeSpec { tv_sec: 1, tv_nsec: 200_000_000 })
    );
    assert_eq!(
        timer_poll_step(at(5, 5), at(5, 5)),
        TimerStep::Arm(TimeSpec { tv_sec: 0, tv_nsec: 0 })
    );
}

#[test]
fn tspec_borrows_a_second() {
    assert_eq!(
        compute_tspec(at(1, 999_999_999), at(3, 0)),
        TimeSpec { tv_sec: 1, tv_nsec: 1 }
    );
}
