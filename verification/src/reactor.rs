//! The reactor as the executor sees it.
//!
//! Futures obtain operation handles from here, and the executor, once it has
//! gathered the completions from the ring, learns from [Reactor::react]
//! which wakers to fire.
use crate::io::{IoState, MultishotIoState, MultishotUringIo, OneshotIoState, OneshotUringIo, UringIo};
use crate::uring::{react_spec, Completion, IoKind, ReactorUring};
use vstd::prelude::*;

verus! {

impl ReactorUring {
    /// A oneshot handle for an operation on this reactor.
    pub fn new_io(&self) -> (io: UringIo)
        ensures
            io.state_view() == IoState::New,
            io.kind_view() == IoKind::Oneshot,
    {
        UringIo::new(IoKind::Oneshot)
    }

    /// A multishot handle for an operation on this reactor.
    pub fn new_multishot_io(&self) -> (io: UringIo)
        ensures
            io.state_view() == IoState::New,
            io.kind_view() == IoKind::Multi,
    {
        UringIo::new(IoKind::Multi)
    }
}

/// The reactor of the executor's thread.
pub struct Reactor {}

impl Reactor {
    /// A handle for an operation that completes once.
    pub fn new_io() -> (io: OneshotUringIo)
        ensures
            io@ == OneshotIoState::New,
    {
        OneshotUringIo::new()
    }

    /// A handle for an operation that completes many times.
    pub fn new_multishot_io() -> (io: MultishotUringIo)
        ensures
            io@ == MultishotIoState::New,
    {
        MultishotUringIo::new()
    }

    /// React to the completions gathered from the ring: returns, in order,
    /// the objects (waker handles) of the operations they complete, all of
    /// which are to be woken. A completion that belongs to no operation in
    /// flight stops the processing with its index.
    pub fn react(ring: &mut ReactorUring, completions: &Vec<Completion>) -> (r: Result<Vec<u64>, usize>)
        requires
            old(ring).wf(),
            forall|i: int| 0 <= i < completions@.len() ==> #[trigger] completions@[i].result != i32::MIN,
        ensures
            final(ring).wf(),
            final(ring).state() == react_spec(old(ring).state(), completions@).0,
            final(ring).queued() == old(ring).queued(),
            match r {
                Ok(objs) => react_spec(old(ring).state(), completions@).2 is None && objs@
                    == react_spec(old(ring).state(), completions@).1,
                Err(i) => react_spec(old(ring).state(), completions@).2 == Some(i as int),
            },
    {
        ring.react(completions)
    }
}

} // verus!
