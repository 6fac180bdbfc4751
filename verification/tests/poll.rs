use trale::poll::{EpollCtl, EpollEvent, Poll, RwQueue, WakeupKind};

const EPOLLIN: u32 = 1;
const EPOLLOUT: u32 = 4;

fn readable(fd: i32) -> EpollEvent {
    EpollEvent { events: EPOLLIN, data: fd as u64 }
}

fn writable(fd: i32) -> EpollEvent {
    EpollEvent { events: EPOLLOUT, data: fd as u64 }
}

#[test]
fn poll_single_wakeup_read() {
    let mut poll: Poll<u32> = Poll::new();
    let ctl = poll.insert(5, 1, WakeupKind::Readable);
    assert_eq!(ctl, EpollCtl { op: 1, fd: 5, event: Some(EpollEvent { events: EPOLLIN, data: 5 }) });

    let (woken, ctls) = poll.wait(&vec![readable(5)]);
    assert_eq!(woken[0], 1);
    assert_eq!(ctls, vec![EpollCtl { op: 2, fd: 5, event: None }]);
    assert!(poll.subscription_count() == 0);
}

#[test]
fn poll_single_wakeup_write() {
    let mut poll: Poll<u32> = Poll::new();
    poll.insert(6, 1, WakeupKind::Writable);
    let (woken, _) = poll.wait(&vec![writable(6)]);
    assert_eq!(woken[0], 1);
}

#[test]
fn multi_wakeup_same_fd_read() {
    let mut poll: Poll<u32> = Poll::new();
    assert_eq!(poll.insert(5, 1, WakeupKind::Readable).op, 1);
    assert_eq!(poll.insert(5, 2, WakeupKind::Readable).op, 3);
    assert_eq!(poll.insert(5, 3, WakeupKind::Readable).op, 3);

    let (woken, _) = poll.wait(&vec![readable(5)]);
    assert_eq!(woken, [1, 2, 3]);
    assert!(poll.subscription_count() == 0);
}

#[test]
fn multi_wakeup_dual_fds_read() {
    let mut poll: Poll<u32> = Poll::new();
    poll.insert(5, 1, WakeupKind::Readable);
    poll.insert(5, 2, WakeupKind::Readable);
    poll.insert(5, 3, WakeupKind::Readable);
    poll.insert(7, 4, WakeupKind::Readable);
    poll.insert(7, 5, WakeupKind::Readable);
    poll.insert(7, 6, WakeupKind::Readable);

    let (woken, _) = poll.wait(&vec![readable(7)]);
    assert_eq!(woken, [4, 5, 6]);
    assert!(poll.subscription_count() == 1);
    let (woken, _) = poll.wait(&vec![readable(5)]);
    assert_eq!(woken, [1, 2, 3]);
    assert!(poll.subscription_count() == 0);
}

#[test]
fn sub_read_and_write() {
    let mut poll: Poll<u32> = Poll::new();
    poll.insert(5, 1, WakeupKind::Readable);
    let ctl = poll.insert(5, 2, WakeupKind::Writable);
    assert_eq!(ctl.event, Some(EpollEvent { events: EPOLLIN | EPOLLOUT, data: 5 }));
    poll.insert(6, 3, WakeupKind::Writable);

    let (woken, ctls) = poll.wait(&vec![
        EpollEvent { events: EPOLLIN | EPOLLOUT, data: 5 },
        writable(6),
    ]);
    assert_eq!(woken, [1, 2, 3]);
    assert_eq!(ctls.len(), 2);
    assert!(poll.subscription_count() == 0);
}

#[test]
fn readable_event_keeps_writers_subscribed() {
    let mut poll: Poll<u32> = Poll::new();
    poll.insert(5, 1, WakeupKind::Readable);
    poll.insert(5, 2, WakeupKind::Writable);
    let (woken, ctls) = poll.wait(&vec![readable(5)]);
    assert_eq!(woken, [1]);
    assert_eq!(
        ctls,
        vec![EpollCtl { op: 3, fd: 5, event: Some(EpollEvent { events: EPOLLOUT, data: 5 }) }]
    );
    assert_eq!(poll.subscription_count(), 1);
}

#[test]
fn event_for_unknown_fd_is_ignored() {
    let mut poll: Poll<u32> = Poll::new();
    poll.insert(5, 1, WakeupKind::Readable);
    let (woken, ctls) = poll.wait(&vec![readable(9)]);
    assert!(woken.is_empty());
    assert!(ctls.is_empty());
    assert_eq!(poll.subscription_count(), 1);
}

#[test]
fn rw_queue_flags_and_release() {
    let mut q: RwQueue<u32> = RwQueue::new();
    assert!(q.is_empty());
    assert_eq!(q.get_flags(), None);
    q.insert(WakeupKind::Writable, 1);
    assert_eq!(q.get_flags(), Some(EPOLLOUT));
    q.insert(WakeupKind::Readable, 2);
    assert_eq!(q.get_flags(), Some(EPOLLIN | EPOLLOUT));
    assert_eq!(q.get_objs_for_flags(EPOLLOUT), vec![1]);
    assert_eq!(q.get_flags(), Some(EPOLLIN));
    assert_eq!(q.get_objs_for_flags(0), Vec::<u32>::new());
    assert_eq!(q.get_objs_for_flags(EPOLLIN), vec![2]);
    assert!(q.is_empty());
}

#[test]
fn rw_queue_release_both_gives_readers_then_writers() {
    let mut q: RwQueue<u32> = RwQueue::new();
    q.insert(WakeupKind::Writable, 1);
    q.insert(WakeupKind::Readable, 2);
    q.insert(WakeupKind::Writable, 3);
    q.insert(WakeupKind::Readable, 4);
    assert_eq!(q.get_objs_for_flags(EPOLLIN | EPOLLOUT), vec![2, 4, 1, 3]);
    assert!(q.is_empty());
    assert_eq!(q.get_flags(), None);
}

#[test]
fn insert_counts_new_descriptors_once() {
    let mut poll: Poll<u32> = Poll::new();
    poll.insert(3, 1, WakeupKind::Readable);
    assert_eq!(poll.subscription_count(), 1);
    poll.insert(3, 2, WakeupKind::Writable);
    assert_eq!(poll.subscription_count(), 1);
    poll.insert(4, 3, WakeupKind::Readable);
    assert_eq!(poll.subscription_count(), 2);
}

#[test]
fn wait_releases_each_object_once_and_rearms() {
    let mut poll: Poll<u32> = Poll::new();
    poll.insert(3, 1, WakeupKind::Readable);
    poll.insert(3, 2, WakeupKind::Writable);
    poll.insert(4, 3, WakeupKind::Readable);
    let (mut woken, ctls) = poll.wait(&vec![readable(3), readable(4), readable(3)]);
    assert_eq!(
        ctls,
        vec![
            EpollCtl { op: 3, fd: 3, event: Some(EpollEvent { events: EPOLLOUT, data: 3 }) },
            EpollCtl { op: 2, fd: 4, event: None },
            EpollCtl { op: 3, fd: 3, event: Some(EpollEvent { events: EPOLLOUT, data: 3 }) },
        ]
    );
    let (rest, _) = poll.wait(&vec![writable(3)]);
    woken.extend(rest);
    woken.sort();
    assert_eq!(woken, vec![1, 2, 3]);
    assert_eq!(poll.subscription_count(), 0);
}
