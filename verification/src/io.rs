//! Handles of individual I/O operations on a [ReactorUring].
//!
//! A handle starts out unsubmitted. The first time it is polled it builds
//! its submission entry (by calling the closure it is given) and submits it;
//! afterwards each poll looks into the operation's result slot. Releasing a
//! handle (what dropping it does) gives up its result slot.
use crate::result::{
    multishot_after_pop_spec, multishot_drop_spec, multishot_pop_spec, oneshot_after_get_spec,
    oneshot_drop_spec, oneshot_get_spec, MultishotResult, ResultState,
};
use crate::uring::{
    complete_spec, ring_wf, sqe_with_user_data, submit_spec, with_multishot, with_oneshot, Completion,
    IoKind, ReactorUring, RingState,
};
use io_uring::squeue;
use vstd::prelude::*;

verus! {

/// Whether a value is ready.
#[derive(Clone, Copy, PartialEq, Eq, Structural, Debug)]
pub enum IoPoll<T> {
    /// The value.
    Ready(T),
    /// Not yet.
    Pending,
}

/// The meaning of a reactor value: a non-negative value is a success, a
/// negative one is a negated errno.
pub open spec fn value_to_result_spec(v: i32) -> Result<i32, i32> {
    if v < 0 {
        Err((-v) as i32)
    } else {
        Ok(v)
    }
}

/// Turn a reactor value into a success value or an errno.
pub fn reactor_value_to_result(v: i32) -> (r: Result<i32, i32>)
    requires
        v != i32::MIN,
    ensures
        r == value_to_result_spec(v),
{
    if v < 0 {
        Err(-v)
    } else {
        Ok(v)
    }
}

/// The state of a oneshot operation handle.
#[derive(Clone, Copy, PartialEq, Eq, Structural, Debug)]
pub enum OneshotIoState {
    /// Not submitted yet.
    New,
    /// Submitted; its result goes to this oneshot slot.
    Submitted(usize),
    /// Completed with this value.
    Finished(i32),
}

/// Whether a oneshot handle state fits the reactor state.
pub open spec fn oneshot_valid_in(st: OneshotIoState, s: RingState) -> bool {
    match st {
        OneshotIoState::New => true,
        OneshotIoState::Submitted(slot) => s.oneshot.contains_key(slot) && s.oneshot[slot]
            != ResultState::Dropped,
        OneshotIoState::Finished(v) => v != i32::MIN,
    }
}

/// The handle of an operation that completes once.
pub struct OneshotUringIo {
    state: OneshotIoState,
}

impl View for OneshotUringIo {
    type V = OneshotIoState;

    closed spec fn view(&self) -> OneshotIoState {
        self.state
    }
}

impl OneshotUringIo {
    /// A handle that has not submitted anything.
    pub fn new() -> (io: Self)
        ensures
            io@ == OneshotIoState::New,
    {
        OneshotUringIo { state: OneshotIoState::New }
    }

    /// Submit the operation on the first call (`f` builds its entry and the
    /// object to hand back on completion); afterwards return its result once
    /// it is there, as a value or an errno.
    pub fn submit_or_get_result<F: FnOnce() -> (squeue::Entry, u64)>(
        &mut self,
        ring: &mut ReactorUring,
        f: F,
    ) -> (r: IoPoll<Result<i32, i32>>)
        requires
            old(ring).wf(),
            oneshot_valid_in(old(self)@, old(ring).state()),
            old(self)@ == OneshotIoState::New ==> f.requires(()),
        ensures
            final(ring).wf(),
            oneshot_valid_in(final(self)@, final(ring).state()),
            match old(self)@ {
                OneshotIoState::New => {
                    &&& r == IoPoll::<Result<i32, i32>>::Pending
                    &&& exists|e: squeue::Entry, obj: u64, key: usize, slot: usize| {
                        &&& f.ensures((), (e, obj))
                        &&& !old(ring).state().pending.contains_key(key)
                        &&& !old(ring).state().oneshot.contains_key(slot)
                        &&& final(self)@ == OneshotIoState::Submitted(slot)
                        &&& final(ring).state() == submit_spec(
                            old(ring).state(),
                            obj,
                            IoKind::Oneshot,
                            key,
                            slot,
                        )
                        &&& final(ring).queued() == old(ring).queued().push(
                            sqe_with_user_data(e, key as u64),
                        )
                    }
                },
                OneshotIoState::Submitted(slot) => {
                    &&& final(ring).queued() == old(ring).queued()
                    &&& final(ring).state() == with_oneshot(old(ring).state(), oneshot_after_get_spec(old(ring).state().oneshot, slot))
                    &&& match oneshot_get_spec(old(ring).state().oneshot, slot) {
                        Some(v) => r == IoPoll::Ready(value_to_result_spec(v)) && final(self)@
                            == OneshotIoState::Finished(v),
                        None => r == IoPoll::<Result<i32, i32>>::Pending && final(self)@ == old(
                            self,
                        )@,
                    }
                },
                OneshotIoState::Finished(v) => {
                    &&& r == IoPoll::Ready(value_to_result_spec(v))
                    &&& final(self)@ == old(self)@
                    &&& final(ring).state() == old(ring).state()
                    &&& final(ring).queued() == old(ring).queued()
                },
            },
    {
        match self.state {
            OneshotIoState::New => {
                let (entry, obj) = f();
                let (_, result_slot) = ring.submit_io(entry, obj, IoKind::Oneshot);
                self.state = OneshotIoState::Submitted(result_slot);
            },
            OneshotIoState::Submitted(slot) => {
                if let Some(res) = ring.get_oneshot_result(slot) {
                    self.state = OneshotIoState::Finished(res);
                }
            },
            OneshotIoState::Finished(_) => {},
        }
        match self.state {
            OneshotIoState::Finished(v) => IoPoll::Ready(reactor_value_to_result(v)),
            _ => IoPoll::Pending,
        }
    }

    /// Give up the handle: a submitted operation's result slot is dropped.
    pub fn release(self, ring: &mut ReactorUring)
        requires
            old(ring).wf(),
            oneshot_valid_in(self@, old(ring).state()),
        ensures
            final(ring).wf(),
            final(ring).queued() == old(ring).queued(),
            match self@ {
                OneshotIoState::Submitted(slot) => final(ring).state() == with_oneshot(old(ring).state(), oneshot_drop_spec(old(ring).state().oneshot, slot)),
                _ => final(ring).state() == old(ring).state(),
            },
    {
        if let OneshotIoState::Submitted(slot) = self.state {
            ring.drop_oneshot_result(slot);
        }
    }
}

/// The state of a multishot operation handle.
#[derive(Clone, Copy, PartialEq, Eq, Structural, Debug)]
pub enum MultishotIoState {
    /// Not submitted yet.
    New,
    /// Submitted; its results go to this multishot slot, and its
    /// submission carries this user data.
    Submitted(usize, u64),
}

/// Whether a multishot handle state fits the reactor state.
pub open spec fn multishot_valid_in(st: MultishotIoState, s: RingState) -> bool {
    match st {
        MultishotIoState::New => true,
        MultishotIoState::Submitted(slot, _) => s.multishot.contains_key(slot)
            && !s.multishot[slot].dropped,
    }
}

/// The handle of an operation that completes many times.
pub struct MultishotUringIo {
    state: MultishotIoState,
}

impl View for MultishotUringIo {
    type V = MultishotIoState;

    closed spec fn view(&self) -> MultishotIoState {
        self.state
    }
}

/// The answer of a multishot handle for a slot's next result.
pub open spec fn multishot_answer_spec(r: MultishotResult) -> IoPoll<Option<Result<i32, i32>>> {
    match r {
        MultishotResult::Value(v) => IoPoll::Ready(Some(value_to_result_spec(v))),
        MultishotResult::Pending => IoPoll::Pending,
        MultishotResult::Finished => IoPoll::Ready(None),
    }
}

impl MultishotUringIo {
    /// A handle that has not submitted anything.
    pub fn new() -> (io: Self)
        ensures
            io@ == MultishotIoState::New,
    {
        MultishotUringIo { state: MultishotIoState::New }
    }

    /// Submit the operation on the first call (`f` builds its entry and the
    /// object to hand back on each completion); afterwards return its oldest
    /// result not yet taken, or `None` once the operation is over.
    pub fn submit_or_get_result<F: FnOnce() -> (squeue::Entry, u64)>(
        &mut self,
        ring: &mut ReactorUring,
        f: F,
    ) -> (r: IoPoll<Option<Result<i32, i32>>>)
        requires
            old(ring).wf(),
            multishot_valid_in(old(self)@, old(ring).state()),
            old(self)@ == MultishotIoState::New ==> f.requires(()),
        ensures
            final(ring).wf(),
            multishot_valid_in(final(self)@, final(ring).state()),
            match old(self)@ {
                MultishotIoState::New => {
                    &&& r == IoPoll::<Option<Result<i32, i32>>>::Pending
                    &&& exists|e: squeue::Entry, obj: u64, key: usize, slot: usize| {
                        &&& f.ensures((), (e, obj))
                        &&& !old(ring).state().pending.contains_key(key)
                        &&& !old(ring).state().multishot.contains_key(slot)
                        &&& final(self)@ == MultishotIoState::Submitted(slot, key as u64)
                        &&& final(ring).state() == submit_spec(
                            old(ring).state(),
                            obj,
                            IoKind::Multi,
                            key,
                            slot,
                        )
                        &&& final(ring).queued() == old(ring).queued().push(
                            sqe_with_user_data(e, key as u64),
                        )
                    }
                },
                MultishotIoState::Submitted(slot, _) => {
                    &&& final(self)@ == old(self)@
                    &&& final(ring).queued() == old(ring).queued()
                    &&& r == multishot_answer_spec(
                        multishot_pop_spec(old(ring).state().multishot[slot]),
                    )
                    &&& final(ring).state() == with_multishot(old(ring).state(), old(ring).state().multishot.insert(
                            slot,
                            multishot_after_pop_spec(old(ring).state().multishot[slot]),
                        ))
                },
            },
    {
        match self.state {
            MultishotIoState::New => {
                let (entry, obj) = f();
                let (user_data, result_slot) = ring.submit_io(entry, obj, IoKind::Multi);
                self.state = MultishotIoState::Submitted(result_slot, user_data);
                IoPoll::Pending
            },
            MultishotIoState::Submitted(slot, _) => {
                match ring.pop_multishot_result(slot) {
                    MultishotResult::Value(v) => IoPoll::Ready(Some(reactor_value_to_result(v))),
                    MultishotResult::Pending => IoPoll::Pending,
                    MultishotResult::Finished => IoPoll::Ready(None),
                }
            },
        }
    }

    /// Give up the handle: a submitted operation's result slot is dropped.
    /// Returns the user data of a submitted operation, which is then to be
    /// cancelled in the ring.
    pub fn release(self, ring: &mut ReactorUring) -> (cancel: Option<u64>)
        requires
            old(ring).wf(),
            multishot_valid_in(self@, old(ring).state()),
        ensures
            final(ring).wf(),
            final(ring).queued() == old(ring).queued(),
            match self@ {
                MultishotIoState::Submitted(slot, user_data) => {
                    &&& cancel == Some(user_data)
                    &&& final(ring).state() == with_multishot(old(ring).state(), multishot_drop_spec(old(ring).state().multishot, slot))
                },
                MultishotIoState::New => cancel is None && final(ring).state() == old(ring).state(),
            },
    {
        match self.state {
            MultishotIoState::Submitted(slot, user_data) => {
                ring.drop_multishot_result(slot);
                Some(user_data)
            },
            MultishotIoState::New => None,
        }
    }
}


/// The state of a handle of either kind.
#[derive(Clone, Copy, PartialEq, Eq, Structural, Debug)]
pub enum IoState {
    /// Not submitted yet.
    New,
    /// Submitted; its results go to this slot.
    Submitted(usize),
    /// Completed with this value (oneshot handles only).
    Finished(i32),
}

/// Whether a handle state of the given kind fits the reactor state.
pub open spec fn uring_valid_in(st: IoState, kind: IoKind, s: RingState) -> bool {
    match st {
        IoState::New => true,
        IoState::Submitted(slot) => match kind {
            IoKind::Oneshot => s.oneshot.contains_key(slot) && s.oneshot[slot]
                != ResultState::Dropped,
            IoKind::Multi => s.multishot.contains_key(slot) && !s.multishot[slot].dropped,
        },
        IoState::Finished(v) => kind == IoKind::Oneshot && v != i32::MIN,
    }
}

/// What polling a handle in state `st` answers.
pub open spec fn io_state_answer(st: IoState) -> IoPoll<Result<i32, i32>> {
    match st {
        IoState::Finished(v) => IoPoll::Ready(value_to_result_spec(v)),
        _ => IoPoll::Pending,
    }
}

/// The handle of an operation of either kind. A multishot operation hands
/// out one value per poll while values are waiting, and is pending
/// otherwise.
pub struct UringIo {
    state: IoState,
    kind: IoKind,
}

impl UringIo {
    /// The handle's state.
    pub closed spec fn state_view(&self) -> IoState {
        self.state
    }

    /// The handle's kind.
    pub closed spec fn kind_view(&self) -> IoKind {
        self.kind
    }

    /// A handle of the given kind that has not submitted anything.
    pub fn new(kind: IoKind) -> (io: Self)
        ensures
            io.state_view() == IoState::New,
            io.kind_view() == kind,
    {
        UringIo { state: IoState::New, kind }
    }

    /// Submit the operation on the first call (`f` builds its entry and the
    /// object to hand back on completion); afterwards return a result once
    /// there is one.
    pub fn submit_or_get_result<F: FnOnce() -> (squeue::Entry, u64)>(
        &mut self,
        ring: &mut ReactorUring,
        f: F,
    ) -> (r: IoPoll<Result<i32, i32>>)
        requires
            old(ring).wf(),
            uring_valid_in(old(self).state_view(), old(self).kind_view(), old(ring).state()),
            old(self).state_view() == IoState::New ==> f.requires(()),
        ensures
            final(ring).wf(),
            final(self).kind_view() == old(self).kind_view(),
            uring_valid_in(final(self).state_view(), final(self).kind_view(), final(ring).state()),
            match old(self).state_view() {
                IoState::New => {
                    &&& r == IoPoll::<Result<i32, i32>>::Pending
                    &&& exists|e: squeue::Entry, obj: u64, key: usize, slot: usize| {
                        &&& f.ensures((), (e, obj))
                        &&& !old(ring).state().pending.contains_key(key)
                        &&& (old(self).kind_view() == IoKind::Oneshot
                            ==> !old(ring).state().oneshot.contains_key(slot))
                        &&& (old(self).kind_view() == IoKind::Multi
                            ==> !old(ring).state().multishot.contains_key(slot))
                        &&& final(self).state_view() == IoState::Submitted(slot)
                        &&& final(ring).state() == submit_spec(
                            old(ring).state(),
                            obj,
                            old(self).kind_view(),
                            key,
                            slot,
                        )
                        &&& final(ring).queued() == old(ring).queued().push(
                            sqe_with_user_data(e, key as u64),
                        )
                    }
                },
                IoState::Submitted(slot) => {
                    &&& final(ring).queued() == old(ring).queued()
                    &&& match old(self).kind_view() {
                        IoKind::Oneshot => {
                            &&& final(ring).state() == with_oneshot(
                                old(ring).state(),
                                oneshot_after_get_spec(old(ring).state().oneshot, slot),
                            )
                            &&& match oneshot_get_spec(old(ring).state().oneshot, slot) {
                                Some(v) => final(self).state_view() == IoState::Finished(v),
                                None => final(self).state_view() == old(self).state_view(),
                            }
                            &&& r == io_state_answer(final(self).state_view())
                        },
                        IoKind::Multi => {
                            &&& final(self).state_view() == old(self).state_view()
                            &&& final(ring).state() == with_multishot(
                                old(ring).state(),
                                old(ring).state().multishot.insert(
                                    slot,
                                    multishot_after_pop_spec(old(ring).state().multishot[slot]),
                                ),
                            )
                            &&& r == match multishot_pop_spec(old(ring).state().multishot[slot]) {
                                MultishotResult::Value(v) => IoPoll::Ready(value_to_result_spec(v)),
                                _ => IoPoll::Pending,
                            }
                        },
                    }
                },
                IoState::Finished(v) => {
                    &&& r == IoPoll::Ready(value_to_result_spec(v))
                    &&& final(self).state_view() == old(self).state_view()
                    &&& final(ring).state() == old(ring).state()
                    &&& final(ring).queued() == old(ring).queued()
                },
            },
    {
        match self.state {
            IoState::New => {
                let (entry, obj) = f();
                let (_, result_slot) = ring.submit_io(entry, obj, self.kind);
                self.state = IoState::Submitted(result_slot);
            },
            IoState::Submitted(slot) => {
                match self.kind {
                    IoKind::Oneshot => {
                        if let Some(res) = ring.get_oneshot_result(slot) {
                            self.state = IoState::Finished(res);
                        }
                    },
                    IoKind::Multi => {
                        if let MultishotResult::Value(res) = ring.pop_multishot_result(slot) {
                            return IoPoll::Ready(reactor_value_to_result(res));
                        }
                    },
                }
            },
            IoState::Finished(_) => {},
        }
        match self.state {
            IoState::Finished(v) => IoPoll::Ready(reactor_value_to_result(v)),
            _ => IoPoll::Pending,
        }
    }

    /// Give up the handle: a submitted operation's result slot is dropped.
    pub fn release(self, ring: &mut ReactorUring)
        requires
            old(ring).wf(),
            uring_valid_in(self.state_view(), self.kind_view(), old(ring).state()),
        ensures
            final(ring).wf(),
            final(ring).queued() == old(ring).queued(),
            match self.state_view() {
                IoState::Submitted(slot) => match self.kind_view() {
                    IoKind::Oneshot => final(ring).state() == with_oneshot(
                        old(ring).state(),
                        oneshot_drop_spec(old(ring).state().oneshot, slot),
                    ),
                    IoKind::Multi => final(ring).state() == with_multishot(
                        old(ring).state(),
                        multishot_drop_spec(old(ring).state().multishot, slot),
                    ),
                },
                _ => final(ring).state() == old(ring).state(),
            },
    {
        if let IoState::Submitted(slot) = self.state {
            match self.kind {
                IoKind::Oneshot => ring.drop_oneshot_result(slot),
                IoKind::Multi => ring.drop_multishot_result(slot),
            }
        }
    }
}

} // verus!

verus! {

// ---------------------------------------------------------------------------
// Laws of the handles.
// ---------------------------------------------------------------------------

/// Processing a completion never invalidates a handle: whichever operation
/// completes, every oneshot and multishot handle that fitted the reactor
/// before still fits it afterwards (a handle's own completion just fills its
/// slot).
pub proof fn law_completion_keeps_handles_valid(
    s: RingState,
    c: Completion,
    a: OneshotIoState,
    m: MultishotIoState,
)
    requires
        ring_wf(s),
        s.pending.contains_key(c.user_data as usize),
        oneshot_valid_in(a, s),
        multishot_valid_in(m, s),
    ensures
        oneshot_valid_in(a, complete_spec(s, c)),
        multishot_valid_in(m, complete_spec(s, c)),
{
}

/// Submitting a new operation never invalidates a handle.
pub proof fn law_submit_keeps_handles_valid(
    s: RingState,
    obj: u64,
    kind: IoKind,
    key: usize,
    slot: usize,
    a: OneshotIoState,
    m: MultishotIoState,
)
    requires
        oneshot_valid_in(a, s),
        multishot_valid_in(m, s),
        kind == IoKind::Oneshot ==> !s.oneshot.contains_key(slot),
        kind == IoKind::Multi ==> !s.multishot.contains_key(slot),
    ensures
        oneshot_valid_in(a, submit_spec(s, obj, kind, key, slot)),
        multishot_valid_in(m, submit_spec(s, obj, kind, key, slot)),
{
}

/// Handles on different slots do not disturb each other: polling or
/// releasing one handle leaves every handle of another slot as valid as it
/// was.
pub proof fn law_handles_independent(
    s: RingState,
    a_slot: usize,
    m_slot: usize,
    b: OneshotIoState,
    n: MultishotIoState,
)
    requires
        oneshot_valid_in(b, s),
        multishot_valid_in(n, s),
        b matches OneshotIoState::Submitted(sb) ==> sb != a_slot,
        n matches MultishotIoState::Submitted(sn, _) ==> sn != m_slot,
        s.multishot.contains_key(m_slot),
    ensures
        oneshot_valid_in(b, with_oneshot(s, oneshot_after_get_spec(s.oneshot, a_slot))),
        oneshot_valid_in(b, with_oneshot(s, oneshot_drop_spec(s.oneshot, a_slot))),
        multishot_valid_in(
            n,
            with_multishot(
                s,
                s.multishot.insert(m_slot, multishot_after_pop_spec(s.multishot[m_slot])),
            ),
        ),
        multishot_valid_in(n, with_multishot(s, multishot_drop_spec(s.multishot, m_slot))),
{
}

/// A reactor value means a success when it is not negative, carrying the
/// value itself, and a failure when it is negative, carrying the errno that
/// the value negates.
pub proof fn law_value_meaning(v: i32)
    requires
        v != i32::MIN,
    ensures
        v >= 0 ==> value_to_result_spec(v) == Ok::<i32, i32>(v),
        v < 0 ==> value_to_result_spec(v) == Err::<i32, i32>((0 - v) as i32),
        value_to_result_spec(v) matches Err(e) ==> e > 0 && e + v == 0,
{
}

/// The answer of a handle: a handle that holds a completion value `v` is
/// ready with `Ok(v)` for a non-negative value and with `Err(errno)` for a
/// negated errno, on the poll that collects it as on every later one; a
/// handle that holds no value yet is pending. A multishot handle answers
/// each taken value in the same way, pending when no value waits, and
/// `None` once its slot is finished.
pub proof fn law_handle_answers(v: i32, slot: usize)
    requires
        v != i32::MIN,
    ensures
        v >= 0 ==> io_state_answer(IoState::Finished(v)) == IoPoll::Ready(Ok::<i32, i32>(v)),
        v < 0 ==> io_state_answer(IoState::Finished(v)) == IoPoll::Ready(
            Err::<i32, i32>((0 - v) as i32),
        ),
        io_state_answer(IoState::New) == IoPoll::<Result<i32, i32>>::Pending,
        io_state_answer(IoState::Submitted(slot)) == IoPoll::<Result<i32, i32>>::Pending,
        v >= 0 ==> multishot_answer_spec(MultishotResult::Value(v)) == IoPoll::Ready(
            Some(Ok::<i32, i32>(v)),
        ),
        v < 0 ==> multishot_answer_spec(MultishotResult::Value(v)) == IoPoll::Ready(
            Some(Err::<i32, i32>((0 - v) as i32)),
        ),
        multishot_answer_spec(MultishotResult::Pending) == IoPoll::<
            Option<Result<i32, i32>>,
        >::Pending,
        multishot_answer_spec(MultishotResult::Finished) == IoPoll::<
            Option<Result<i32, i32>>,
        >::Ready(None),
{
}

/// A oneshot operation that completes with value `v` hands `v` to the poll
/// of its handle: once submitted and completed, its slot gives up exactly
/// `v`, which the handle answers as a success or as the errno `-v`.
pub proof fn law_oneshot_completion_answered(
    s: RingState,
    obj: u64,
    key: usize,
    slot: usize,
    v: i32,
)
    requires
        !s.pending.contains_key(key),
        !s.oneshot.contains_key(slot),
        key as u64 as usize == key,
        v != i32::MIN,
    ensures
        ({
            let s1 = submit_spec(s, obj, IoKind::Oneshot, key, slot);
            let s2 = complete_spec(s1, Completion { user_data: key as u64, result: v });
            &&& oneshot_get_spec(s2.oneshot, slot) == Some(v)
            &&& v >= 0 ==> io_state_answer(IoState::Finished(v)) == IoPoll::Ready(
                Ok::<i32, i32>(v),
            )
            &&& v < 0 ==> io_state_answer(IoState::Finished(v)) == IoPoll::Ready(
                Err::<i32, i32>((0 - v) as i32),
            )
        }),
{
}

} // verus!
