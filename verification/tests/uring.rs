use io_uring::opcode;
use trale::io::{IoPoll, MultishotUringIo, OneshotUringIo, UringIo};
use trale::reactor::Reactor;
use trale::uring::{Completion, IoKind, ReactorUring};

fn completion(user_data: u64, result: i32) -> Completion {
    Completion { user_data, result }
}

fn submit_oneshot(ring: &mut ReactorUring, io: &mut OneshotUringIo, obj: u64) -> u64 {
    let before = ring.take_submissions().len();
    assert_eq!(before, 0);
    let r = io.submit_or_get_result(ring, || (opcode::Nop::new().build(), obj));
    assert!(matches!(r, IoPoll::Pending));
    let subs = ring.take_submissions();
    assert_eq!(subs.len(), 1);
    subs[0].get_user_data()
}

#[test]
fn uring_single_wakeup_read() {
    let mut ring = ReactorUring::new();
    let mut io = ring_new_io();
    let ud = submit_oneshot(&mut ring, &mut io, 10);

    let objs = ring.react(&vec![completion(ud, 1)]).unwrap();
    assert_eq!(objs, vec![10]);

    let result = io.submit_or_get_result(&mut ring, || {
        panic!("Should not be called, as result will be ready")
    });
    assert_eq!(result, IoPoll::Ready(Ok(1)));
    io.release(&mut ring);
    assert!(ring.results_empty());
}

fn ring_new_io() -> OneshotUringIo {
    Reactor::new_io()
}

#[test]
fn io_dropped_before_react_cleanup() {
    let mut ring = ReactorUring::new();
    let mut io = ring_new_io();
    let ud = submit_oneshot(&mut ring, &mut io, 10);
    io.release(&mut ring);
    assert!(!ring.results_empty());

    let objs = ring.react(&vec![completion(ud, 1)]).unwrap();
    assert_eq!(objs, vec![10]);
    assert!(ring.results_empty());
}

#[test]
fn uring_single_wakeup_write() {
    let mut ring = ReactorUring::new();
    let mut io = ring_new_io();
    let ud = submit_oneshot(&mut ring, &mut io, 20);

    let objs = ring.react(&vec![completion(ud, 1)]).unwrap();
    assert_eq!(objs, vec![20]);

    let result = io.submit_or_get_result(&mut ring, || {
        panic!("Should not be called, as result will be ready")
    });
    assert_eq!(result, IoPoll::Ready(Ok(1)));
    io.release(&mut ring);
    assert!(ring.results_empty());
}

#[test]
fn multi_events_same_fd_read() {
    let mut ring = ReactorUring::new();
    let mut io1 = ring_new_io();
    let ud1 = submit_oneshot(&mut ring, &mut io1, 10);
    let mut io2 = ring_new_io();
    let ud2 = submit_oneshot(&mut ring, &mut io2, 20);
    assert_ne!(ud1, ud2);

    let objs = ring
        .react(&vec![completion(ud1, 1), completion(ud2, 1)])
        .unwrap();
    assert_eq!(objs.len(), 2);
    assert!(objs.contains(&10));
    assert!(objs.contains(&20));

    assert_eq!(
        io1.submit_or_get_result(&mut ring, || panic!("Should not be called")),
        IoPoll::Ready(Ok(1))
    );
    assert_eq!(
        io2.submit_or_get_result(&mut ring, || panic!("Should not be called")),
        IoPoll::Ready(Ok(1))
    );
    io1.release(&mut ring);
    io2.release(&mut ring);
    assert!(ring.results_empty());
}

#[test]
fn multi_events_same_fd_write() {
    let mut ring = ReactorUring::new();
    let mut io1 = ring_new_io();
    let ud1 = submit_oneshot(&mut ring, &mut io1, 10);
    let mut io2 = ring_new_io();
    let ud2 = submit_oneshot(&mut ring, &mut io2, 20);

    let objs = ring
        .react(&vec![completion(ud2, 2), completion(ud1, 2)])
        .unwrap();
    assert_eq!(objs, vec![20, 10]);

    assert_eq!(
        io1.submit_or_get_result(&mut ring, || panic!("Should not be called")),
        IoPoll::Ready(Ok(2))
    );
    assert_eq!(
        io2.submit_or_get_result(&mut ring, || panic!("Should not be called")),
        IoPoll::Ready(Ok(2))
    );
    io1.release(&mut ring);
    io2.release(&mut ring);
    assert!(ring.results_empty());
}

#[test]
fn oneshot_error_result_is_errno() {
    let mut ring = ReactorUring::new();
    let mut io = ring_new_io();
    let ud = submit_oneshot(&mut ring, &mut io, 3);
    assert_eq!(
        io.submit_or_get_result(&mut ring, || panic!("Should not be called")),
        IoPoll::Pending
    );
    ring.react(&vec![completion(ud, -2)]).unwrap();
    assert_eq!(
        io.submit_or_get_result(&mut ring, || panic!("Should not be called")),
        IoPoll::Ready(Err(2))
    );
    assert_eq!(
        io.submit_or_get_result(&mut ring, || panic!("Should not be called")),
        IoPoll::Ready(Err(2))
    );
    io.release(&mut ring);
    assert!(ring.results_empty());
}

#[test]
fn react_unknown_completion_is_reported() {
    let mut ring = ReactorUring::new();
    let mut io = ring_new_io();
    let ud = submit_oneshot(&mut ring, &mut io, 3);
    assert!(ring.is_pending(ud));
    assert!(!ring.is_pending(ud + 1));
    assert_eq!(
        ring.react(&vec![completion(ud, 0), completion(ud, 0)]),
        Err(1)
    );
    assert!(!ring.is_pending(ud));
}

#[test]
fn multishot_stream_stays_in_flight() {
    let mut ring = ReactorUring::new();
    let mut io = Reactor::new_multishot_io();
    let r = io.submit_or_get_result(&mut ring, || (opcode::Nop::new().build(), 7));
    assert_eq!(r, IoPoll::Pending);
    let subs = ring.take_submissions();
    assert_eq!(subs.len(), 1);
    let ud = subs[0].get_user_data();

    assert_eq!(
        io.submit_or_get_result(&mut ring, || panic!("Should not be called")),
        IoPoll::Pending
    );
    let objs = ring
        .react(&vec![completion(ud, 4), completion(ud, 5), completion(ud, -125)])
        .unwrap();
    assert_eq!(objs, vec![7, 7, 7]);
    assert!(ring.is_pending(ud));

    let mut got = Vec::new();
    loop {
        match io.submit_or_get_result(&mut ring, || panic!("Should not be called")) {
            IoPoll::Ready(Some(v)) => got.push(v),
            IoPoll::Ready(None) => panic!("the reactor never ends a multishot stream"),
            IoPoll::Pending => break,
        }
    }
    assert_eq!(got, vec![Ok(4), Ok(5), Err(125)]);
    assert_eq!(io.release(&mut ring), Some(ud));
    assert!(!ring.results_empty());
    assert!(ring.is_pending(ud));
}

#[test]
fn multishot_released_keeps_record() {
    let mut ring = ReactorUring::new();
    let mut io = MultishotUringIo::new();
    io.submit_or_get_result(&mut ring, || (opcode::Nop::new().build(), 9));
    let ud = ring.take_submissions()[0].get_user_data();
    ring.react(&vec![completion(ud, 1)]).unwrap();
    assert_eq!(io.release(&mut ring), Some(ud));
    assert!(!ring.results_empty());
    assert_eq!(ring.react(&vec![completion(ud, -125)]).unwrap(), vec![9]);
    assert!(!ring.results_empty());
    assert!(ring.is_pending(ud));
}

#[test]
fn unsubmitted_handles_release_nothing() {
    let mut ring = ReactorUring::new();
    OneshotUringIo::new().release(&mut ring);
    assert_eq!(MultishotUringIo::new().release(&mut ring), None);
    assert!(ring.results_empty());
    assert_eq!(ring.take_submissions().len(), 0);
}

#[test]
fn uring_io_multishot_hands_out_values() {
    let mut ring = ReactorUring::new();
    let mut io = ring.new_multishot_io();
    io.submit_or_get_result(&mut ring, || (opcode::Nop::new().build(), 1));
    let ud = ring.take_submissions()[0].get_user_data();
    ring.react(&vec![completion(ud, 8)]).unwrap();
    assert_eq!(
        io.submit_or_get_result(&mut ring, || panic!("Should not be called")),
        IoPoll::Ready(Ok(8))
    );
    assert_eq!(
        io.submit_or_get_result(&mut ring, || panic!("Should not be called")),
        IoPoll::Pending
    );
    io.release(&mut ring);
    assert_eq!(ring.react(&vec![completion(ud, -125)]).unwrap(), vec![1]);
    assert!(!ring.results_empty());
}

#[test]
fn uring_io_oneshot_finishes() {
    let mut ring = ReactorUring::new();
    let mut io = UringIo::new(IoKind::Oneshot);
    io.submit_or_get_result(&mut ring, || (opcode::Nop::new().build(), 1));
    let ud = ring.take_submissions()[0].get_user_data();
    let _ = ring.new_io();
    ring.react(&vec![completion(ud, 0)]).unwrap();
    assert_eq!(
        io.submit_or_get_result(&mut ring, || panic!("Should not be called")),
        IoPoll::Ready(Ok(0))
    );
    io.release(&mut ring);
    assert!(ring.results_empty());
}

#[test]
fn reactor_react_wakes_completed() {
    let mut ring = ReactorUring::new();
    let mut io = Reactor::new_io();
    let ud = submit_oneshot(&mut ring, &mut io, 33);
    assert_eq!(Reactor::react(&mut ring, &vec![completion(ud, 5)]), Ok(vec![33]));
    assert_eq!(Reactor::react(&mut ring, &vec![]), Ok(vec![]));
}
