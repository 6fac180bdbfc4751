//! The bookkeeping of an epoll reactor.
//!
//! Objects wait on file descriptors, each either for readability or for
//! writability. For every descriptor with waiting objects there is one
//! subscription, registered with epoll for the union of the readiness kinds
//! its objects wait for. An event on a descriptor releases the objects that
//! wait for the readiness it reports; the subscription is then narrowed to
//! what is still awaited, or removed when nothing is. The epoll calls
//! themselves (`epoll_ctl`, `epoll_wait`) are made by the caller, as
//! described by the [EpollCtl] values handed back here.
use std::collections::BTreeMap;
use vstd::prelude::*;
use vstd::multiset::Multiset;
use vstd::set::fold::{is_fun_commutative, lemma_fold_empty, lemma_fold_insert};

verus! {

broadcast use vstd::std_specs::btree::group_btree_axioms;

/// `libc::EPOLLIN`, which is 0x1 on Linux.
#[verifier::external_body]
fn epollin() -> (r: i32)
    ensures
        r == 1,
{
    libc::EPOLLIN
}

/// `libc::EPOLLOUT`, which is 0x4 on Linux.
#[verifier::external_body]
fn epollout() -> (r: i32)
    ensures
        r == 4,
{
    libc::EPOLLOUT
}

/// `libc::EPOLL_CTL_ADD`, which is 1 on Linux.
#[verifier::external_body]
fn epoll_ctl_add() -> (r: i32)
    ensures
        r == 1,
{
    libc::EPOLL_CTL_ADD
}

/// `libc::EPOLL_CTL_DEL`, which is 2 on Linux.
#[verifier::external_body]
fn epoll_ctl_del() -> (r: i32)
    ensures
        r == 2,
{
    libc::EPOLL_CTL_DEL
}

/// `libc::EPOLL_CTL_MOD`, which is 3 on Linux.
#[verifier::external_body]
fn epoll_ctl_mod() -> (r: i32)
    ensures
        r == 3,
{
    libc::EPOLL_CTL_MOD
}

/// The readiness an object waits for.
#[derive(Clone, Copy, PartialEq, Eq, Structural, Debug)]
pub enum WakeupKind {
    /// The descriptor can be read.
    Readable,
    /// The descriptor can be written.
    Writable,
}

/// An epoll event: the readiness flags and the data word, which holds the
/// descriptor.
#[derive(Clone, Copy, PartialEq, Eq, Structural, Debug)]
pub struct EpollEvent {
    /// The readiness flags (`EPOLLIN` is 0x1, `EPOLLOUT` is 0x4).
    pub events: u32,
    /// The data word.
    pub data: u64,
}

/// An `epoll_ctl` call to make.
#[derive(Clone, Copy, PartialEq, Eq, Structural, Debug)]
pub struct EpollCtl {
    /// `EPOLL_CTL_ADD` (1), `EPOLL_CTL_DEL` (2) or `EPOLL_CTL_MOD` (3).
    pub op: i32,
    /// The descriptor.
    pub fd: i32,
    /// The event to register, if any.
    pub event: Option<EpollEvent>,
}

/// The objects waiting on one descriptor, oldest first.
pub struct QueueView<T> {
    /// Those waiting for readability.
    pub readers: Seq<T>,
    /// Those waiting for writability.
    pub writers: Seq<T>,
}

/// No object waits.
pub open spec fn queue_empty<T>() -> QueueView<T> {
    QueueView { readers: Seq::empty(), writers: Seq::empty() }
}

/// The queue `q` with `obj` added behind the others of its kind.
pub open spec fn queue_inserted<T>(q: QueueView<T>, kind: WakeupKind, obj: T) -> QueueView<T> {
    match kind {
        WakeupKind::Readable => QueueView { readers: q.readers.push(obj), writers: q.writers },
        WakeupKind::Writable => QueueView { readers: q.readers, writers: q.writers.push(obj) },
    }
}

/// Whether no object waits in `q`.
pub open spec fn queue_is_empty<T>(q: QueueView<T>) -> bool {
    q.readers.len() == 0 && q.writers.len() == 0
}

/// Whether the flags report readability (`EPOLLIN`).
pub open spec fn flags_readable(flags: u32) -> bool {
    flags & 1u32 != 0u32
}

/// Whether the flags report writability (`EPOLLOUT`).
pub open spec fn flags_writable(flags: u32) -> bool {
    flags & 4u32 != 0u32
}

/// The epoll flags that cover what the objects of `q` wait for: `EPOLLIN`
/// if some wait for readability, `EPOLLOUT` if some wait for writability;
/// none when nothing waits.
pub open spec fn queue_flags<T>(q: QueueView<T>) -> Option<u32> {
    if queue_is_empty(q) {
        None
    } else {
        Some(
            if q.readers.len() > 0 && q.writers.len() > 0 {
                5u32
            } else if q.readers.len() > 0 {
                1u32
            } else {
                4u32
            },
        )
    }
}

/// The objects released by an event with `flags`: the readers if it reports
/// readability, then the writers if it reports writability.
pub open spec fn queue_taken<T>(q: QueueView<T>, flags: u32) -> Seq<T> {
    (if flags_readable(flags) {
        q.readers
    } else {
        Seq::empty()
    }) + (if flags_writable(flags) {
        q.writers
    } else {
        Seq::empty()
    })
}

/// The objects still waiting after an event with `flags`.
pub open spec fn queue_after_take<T>(q: QueueView<T>, flags: u32) -> QueueView<T> {
    QueueView {
        readers: if flags_readable(flags) {
            Seq::empty()
        } else {
            q.readers
        },
        writers: if flags_writable(flags) {
            Seq::empty()
        } else {
            q.writers
        },
    }
}

/// Objects waiting on one descriptor.
pub struct RwQueue<T> {
    readers: Vec<T>,
    writers: Vec<T>,
}

impl<T> View for RwQueue<T> {
    type V = QueueView<T>;

    closed spec fn view(&self) -> QueueView<T> {
        QueueView { readers: self.readers@, writers: self.writers@ }
    }
}

impl<T> RwQueue<T> {
    /// Add `obj` behind the others waiting for the same readiness.
    pub fn insert(&mut self, rw: WakeupKind, obj: T)
        ensures
            final(self)@ == queue_inserted(old(self)@, rw, obj),
    {
        match rw {
            WakeupKind::Readable => self.readers.push(obj),
            WakeupKind::Writable => self.writers.push(obj),
        }
    }

    /// Whether no object waits.
    pub fn is_empty(&self) -> (b: bool)
        ensures
            b == queue_is_empty(self@),
    {
        self.readers.is_empty() && self.writers.is_empty()
    }

    /// Release the objects waiting for what `flag` reports.
    pub fn get_objs_for_flags(&mut self, flag: u32) -> (ret: Vec<T>)
        ensures
            ret@ == queue_taken(old(self)@, flag),
            final(self)@ == queue_after_take(old(self)@, flag),
    {
        let mut ret = Vec::new();
        if flag & (epollin() as u32) != 0 {
            ret.append(&mut self.readers);
        }
        if flag & (epollout() as u32) != 0 {
            ret.append(&mut self.writers);
        }
        proof {
            assert(ret@ =~= queue_taken(old(self)@, flag));
            assert(self@ =~= queue_after_take(old(self)@, flag));
        }
        ret
    }

    /// The epoll flags covering what the waiting objects wait for, or
    /// `None` when nothing waits.
    pub fn get_flags(&self) -> (r: Option<u32>)
        ensures
            r == queue_flags(self@),
    {
        let mut ret: i32 = 0;

        if self.is_empty() {
            return None;
        }
        assert((0i32 | 1i32) == 1i32) by (bit_vector);
        assert((0i32 | 4i32) == 4i32) by (bit_vector);
        assert((1i32 | 4i32) == 5i32) by (bit_vector);
        if !self.readers.is_empty() {
            ret |= epollin();
        }
        if !self.writers.is_empty() {
            ret |= epollout();
        }
        Some(ret as u32)
    }

    /// No object waits.
    pub fn new() -> (q: Self)
        ensures
            q@ == queue_empty::<T>(),
    {
        RwQueue { readers: Vec::new(), writers: Vec::new() }
    }
}

/// The registration of one descriptor.
pub struct Subscription<T> {
    fd: i32,
    queue: RwQueue<T>,
}

impl<T> Subscription<T> {
    /// The descriptor.
    pub closed spec fn fd_view(&self) -> i32 {
        self.fd
    }

    /// The objects waiting on it.
    pub closed spec fn queue_view(&self) -> QueueView<T> {
        self.queue@
    }

    /// The epoll event to register for this descriptor, or `Err` when no
    /// object waits on it.
    pub fn epoll_event(&self) -> (r: Result<EpollEvent, ()>)
        ensures
            r == match queue_flags(self.queue_view()) {
                Some(f) => Ok(EpollEvent { events: f, data: self.fd_view() as u64 }),
                None => Err(()),
            },
    {
        match self.queue.get_flags() {
            Some(flags) => Ok(EpollEvent { events: flags, data: self.fd as u64 }),
            None => Err(()),
        }
    }
}

/// The call registering a descriptor's waiting objects anew, with `op`.
pub open spec fn ctl_for<T>(op: i32, fd: i32, q: QueueView<T>) -> EpollCtl {
    EpollCtl {
        op: op,
        fd: fd,
        event: Some(EpollEvent { events: queue_flags(q).unwrap(), data: fd as u64 }),
    }
}


/// The queue of descriptor `fd` in `m`, or an empty one.
pub open spec fn queue_of<T>(m: Map<i32, QueueView<T>>, fd: i32) -> QueueView<T> {
    if m.contains_key(fd) {
        m[fd]
    } else {
        queue_empty()
    }
}

/// What one epoll event does to the subscriptions `m`: the new
/// subscriptions, the released objects, and the `epoll_ctl` call to make,
/// if any. An event for a descriptor without subscription does nothing.
pub open spec fn wait_step<T>(m: Map<i32, QueueView<T>>, e: EpollEvent) -> (
    Map<i32, QueueView<T>>,
    Seq<T>,
    Option<EpollCtl>,
) {
    let fd = e.data as i32;
    if !m.contains_key(fd) {
        (m, Seq::empty(), None)
    } else {
        let q = queue_after_take(m[fd], e.events);
        let taken = queue_taken(m[fd], e.events);
        if queue_is_empty(q) {
            (m.remove(fd), taken, Some(EpollCtl { op: 2, fd: fd, event: None }))
        } else {
            (m.insert(fd, q), taken, Some(ctl_for(3, fd, q)))
        }
    }
}

/// What a batch of epoll events does, processed in order: the final
/// subscriptions, the released objects in order, and the `epoll_ctl` calls
/// to make, in order.
pub open spec fn wait_spec<T>(m: Map<i32, QueueView<T>>, es: Seq<EpollEvent>) -> (
    Map<i32, QueueView<T>>,
    Seq<T>,
    Seq<EpollCtl>,
)
    decreases es.len(),
{
    if es.len() == 0 {
        (m, Seq::empty(), Seq::empty())
    } else {
        let step = wait_step(m, es[0]);
        let rest = wait_spec(step.0, es.drop_first());
        (
            rest.0,
            step.1 + rest.1,
            match step.2 {
                Some(c) => seq![c] + rest.2,
                None => rest.2,
            },
        )
    }
}

/// The subscriptions of an epoll reactor, by descriptor.
pub struct Poll<T> {
    subscriptions: BTreeMap<i32, Subscription<T>>,
}

impl<T> View for Poll<T> {
    type V = Map<i32, QueueView<T>>;

    closed spec fn view(&self) -> Map<i32, QueueView<T>> {
        self.subscriptions@.map_values(|s: Subscription<T>| s.queue_view())
    }
}

impl<T> Poll<T> {
    /// Every subscription is stored under its own descriptor and has an
    /// object waiting.
    pub closed spec fn wf(&self) -> bool {
        forall|k: i32| #[trigger]
            self.subscriptions@.contains_key(k) ==> self.subscriptions@[k].fd_view() == k
                && !queue_is_empty(self.subscriptions@[k].queue_view())
    }

    /// The subscriptions are finitely many.
    proof fn lemma_view_finite(&self)
        ensures
            self@.dom().finite(),
    {
        assert(self@.dom() =~= self.subscriptions@.dom());
    }

    /// No subscription.
    pub fn new() -> (p: Self)
        ensures
            p.wf(),
            p@ == Map::<i32, QueueView<T>>::empty(),
            p@.dom().finite(),
    {
        let p = Poll { subscriptions: BTreeMap::new() };
        assert(p@ =~= Map::<i32, QueueView<T>>::empty());
        p
    }

    /// The number of descriptors with a subscription.
    pub fn subscription_count(&self) -> (n: usize)
        ensures
            self@.dom().finite(),
            n == self@.dom().len(),
    {
        assert(self@.dom() =~= self.subscriptions@.dom());
        self.subscriptions.len()
    }

    /// Let `data` wait on `fd` for readiness `kind`. Returns the
    /// `epoll_ctl` call that registers the descriptor's widened interest:
    /// `EPOLL_CTL_MOD` for a descriptor that already had a subscription,
    /// `EPOLL_CTL_ADD` otherwise.
    pub fn insert(&mut self, fd: i32, data: T, kind: WakeupKind) -> (ctl: EpollCtl)
        requires
            old(self).wf(),
        ensures
            final(self).wf(),
            final(self)@.dom().finite(),
            final(self)@ == old(self)@.insert(fd, queue_inserted(queue_of(old(self)@, fd), kind, data)),
            ctl == ctl_for(
                if old(self)@.contains_key(fd) {
                    3i32
                } else {
                    1i32
                },
                fd,
                queue_inserted(queue_of(old(self)@, fd), kind, data),
            ),
    {
        let ghost m0 = self@;
        let (sub, op) = match self.subscriptions.remove(&fd) {
            Some(mut sub) => {
                sub.queue.insert(kind, data);
                (sub, epoll_ctl_mod())
            },
            None => {
                let mut sub = Subscription { fd, queue: RwQueue::new() };
                sub.queue.insert(kind, data);
                (sub, epoll_ctl_add())
            },
        };
        let event = match sub.epoll_event() {
            Ok(e) => e,
            Err(()) => {
                assert(false);
                EpollEvent { events: 0, data: 0 }
            },
        };
        self.subscriptions.insert(fd, sub);
        proof {
            assert(self@ =~= m0.insert(fd, queue_inserted(queue_of(m0, fd), kind, data)));
            self.lemma_view_finite();
        }
        EpollCtl { op, fd, event: Some(event) }
    }

    /// Process a batch of epoll events, in order: release the objects each
    /// event's readiness satisfies, and narrow or remove the descriptor's
    /// subscription. Returns the released objects and the `epoll_ctl` calls
    /// that keep epoll in step.
    pub fn wait(&mut self, events: &Vec<EpollEvent>) -> (r: (Vec<T>, Vec<EpollCtl>))
        requires
            old(self).wf(),
        ensures
            final(self).wf(),
            final(self)@.dom().finite(),
            final(self)@ == wait_spec(old(self)@, events@).0,
            r.0@ == wait_spec(old(self)@, events@).1,
            r.1@ == wait_spec(old(self)@, events@).2,
    {
        let ghost m0 = self@;
        let ghost whole = wait_spec(m0, events@);
        let mut ret: Vec<T> = Vec::new();
        let mut ctls: Vec<EpollCtl> = Vec::new();
        let mut i: usize = 0;
        assert(events@.skip(0) =~= events@);
        while i < events.len()
            invariant
                i <= events@.len(),
                self.wf(),
                m0 == old(self)@,
                whole == wait_spec(m0, events@),
                whole.0 == wait_spec(self@, events@.skip(i as int)).0,
                whole.1 == ret@ + wait_spec(self@, events@.skip(i as int)).1,
                whole.2 == ctls@ + wait_spec(self@, events@.skip(i as int)).2,
            decreases events@.len() - i,
        {
            let e = events[i];
            let ghost cur = self@;
            let ghost rest = events@.skip(i as int);
            assert(rest.len() > 0);
            assert(rest[0] == e);
            assert(rest.drop_first() =~= events@.skip(i + 1));
            let ghost step = wait_step(cur, e);
            let ghost ret0 = ret@;
            let ghost ctls0 = ctls@;
            let idx = #[verifier::truncate] (e.data as i32);
            match self.subscriptions.remove(&idx) {
                Some(mut sub) => {
                    assert(cur.contains_key(idx));
                    let mut objs = sub.queue.get_objs_for_flags(e.events);
                    ret.append(&mut objs);
                    match sub.epoll_event() {
                        Ok(ev) => {
                            ctls.push(EpollCtl { op: epoll_ctl_mod(), fd: sub.fd, event: Some(ev) });
                            self.subscriptions.insert(idx, sub);
                        },
                        Err(()) => {
                            ctls.push(EpollCtl { op: epoll_ctl_del(), fd: sub.fd, event: None });
                        },
                    }
                    proof {
                        assert(self@ =~= step.0);
                        assert(ret@ =~= ret0 + step.1);
                        assert(ctls@ =~= ctls0 + seq![step.2.unwrap()]);
                    }
                },
                None => {
                    assert(!cur.contains_key(idx));
                    assert(self@ =~= cur);
                    assert(ret@ =~= ret0 + step.1);
                },
            }
            proof {
                let after = wait_spec(self@, events@.skip(i + 1));
                assert(ret@ + after.1 =~= ret0 + (step.1 + after.1));
                match step.2 {
                    Some(c) => {
                        assert(ctls@ + after.2 =~= ctls0 + (seq![c] + after.2));
                    },
                    None => {
                        assert(ctls@ =~= ctls0);
                    },
                }
            }
            i = i + 1;
        }
        assert(events@.skip(i as int) =~= Seq::<EpollEvent>::empty());
        assert(ret@ + Seq::<T>::empty() =~= ret@);
        assert(ctls@ + Seq::<EpollCtl>::empty() =~= ctls@);
        proof {
            self.lemma_view_finite();
        }
        (ret, ctls)
    }
}

} // verus!

verus! {

// ---------------------------------------------------------------------------
// Laws of the epoll bookkeeping.
// ---------------------------------------------------------------------------

/// The subscriptions after `objs` have been inserted, in order, to wait on
/// `fd` for readiness `kind`.
pub open spec fn insert_all<T>(
    m: Map<i32, QueueView<T>>,
    fd: i32,
    kind: WakeupKind,
    objs: Seq<T>,
) -> Map<i32, QueueView<T>>
    decreases objs.len(),
{
    if objs.len() == 0 {
        m
    } else {
        insert_all(m.insert(fd, queue_inserted(queue_of(m, fd), kind, objs[0])), fd, kind, objs.drop_first())
    }
}

/// Objects inserted to wait on a descriptor line up behind those already
/// waiting for the same readiness, in the order of insertion; no other
/// descriptor's subscription changes.
pub proof fn law_poll_insert_in_order<T>(
    m: Map<i32, QueueView<T>>,
    fd: i32,
    kind: WakeupKind,
    objs: Seq<T>,
)
    ensures
        insert_all(m, fd, kind, objs).contains_key(fd) <==> (m.contains_key(fd) || objs.len() > 0),
        objs.len() > 0 ==> kind == WakeupKind::Readable ==> insert_all(m, fd, kind, objs)[fd].readers
            == queue_of(m, fd).readers + objs && insert_all(m, fd, kind, objs)[fd].writers
            == queue_of(m, fd).writers,
        objs.len() > 0 ==> kind == WakeupKind::Writable ==> insert_all(m, fd, kind, objs)[fd].writers
            == queue_of(m, fd).writers + objs && insert_all(m, fd, kind, objs)[fd].readers
            == queue_of(m, fd).readers,
        forall|k: i32|
            k != fd ==> (#[trigger] insert_all(m, fd, kind, objs).contains_key(k) <==> m.contains_key(k)),
        forall|k: i32|
            k != fd && m.contains_key(k) ==> #[trigger] insert_all(m, fd, kind, objs)[k] == m[k],
    decreases objs.len(),
{
    if objs.len() > 0 {
        let m1 = m.insert(fd, queue_inserted(queue_of(m, fd), kind, objs[0]));
        let rest = objs.drop_first();
        law_poll_insert_in_order(m1, fd, kind, rest);
        assert forall|k: i32| k != fd implies (#[trigger] insert_all(m, fd, kind, objs).contains_key(k)
            <==> m.contains_key(k)) by {
            assert(m1.contains_key(k) == m.contains_key(k));
        }
        assert forall|k: i32| k != fd && m.contains_key(k) implies #[trigger] insert_all(m, fd, kind, objs)[k]
            == m[k] by {
            assert(m1.contains_key(k) && m1[k] == m[k]);
        }
        if rest.len() == 0 {
            assert(insert_all(m1, fd, kind, rest) == m1);
            assert(queue_of(m, fd).readers.push(objs[0]) =~= queue_of(m, fd).readers + objs);
            assert(queue_of(m, fd).writers.push(objs[0]) =~= queue_of(m, fd).writers + objs);
        } else {
            assert(queue_of(m, fd).readers.push(objs[0]) + rest =~= queue_of(m, fd).readers + objs);
            assert(queue_of(m, fd).writers.push(objs[0]) + rest =~= queue_of(m, fd).writers + objs);
        }
    } else {
        assert(insert_all(m, fd, kind, objs) == m);
    }
}

/// Objects waiting for readability on a descriptor that had no subscription
/// are all released, in the order they were inserted, by a readability
/// event on that descriptor; the descriptor is then unsubscribed
/// (`EPOLL_CTL_DEL`) and every other subscription is as before.
pub proof fn law_poll_readers_released_in_order<T>(m: Map<i32, QueueView<T>>, fd: i32, objs: Seq<T>)
    requires
        !m.contains_key(fd),
        objs.len() > 0,
    ensures
        wait_step(
            insert_all(m, fd, WakeupKind::Readable, objs),
            EpollEvent { events: 1u32, data: fd as u64 },
        ) == (m, objs, Some(EpollCtl { op: 2i32, fd: fd, event: None })),
{
    law_poll_insert_in_order(m, fd, WakeupKind::Readable, objs);
    let m1 = insert_all(m, fd, WakeupKind::Readable, objs);
    assert((fd as u64) as i32 == fd) by (bit_vector);
    assert(1u32 & 1u32 != 0u32) by (bit_vector);
    assert(1u32 & 4u32 == 0u32) by (bit_vector);
    assert(queue_of(m, fd).readers + objs =~= objs);
    assert(queue_of(m, fd).writers =~= Seq::<T>::empty());
    assert(queue_taken(m1[fd], 1u32) =~= objs);
    assert(m1.remove(fd) =~= m);
}

/// An event on a descriptor without subscription releases nothing, changes
/// nothing and asks for no `epoll_ctl` call.
pub proof fn law_poll_event_unknown_fd<T>(m: Map<i32, QueueView<T>>, e: EpollEvent)
    requires
        !m.contains_key(e.data as i32),
    ensures
        wait_step(m, e) == (m, Seq::<T>::empty(), None::<EpollCtl>),
{
}

/// An event that reports only readability on a descriptor where objects
/// wait for both readiness kinds releases the readers only; the writers
/// stay subscribed, re-registered for writability alone (`EPOLL_CTL_MOD`
/// with `EPOLLOUT`).
pub proof fn law_poll_readable_keeps_writers<T>(m: Map<i32, QueueView<T>>, fd: i32)
    requires
        m.contains_key(fd),
        m[fd].writers.len() > 0,
        (fd as u64) as i32 == fd,
    ensures
        ({
            let r = wait_step(m, EpollEvent { events: 1u32, data: fd as u64 });
            &&& r.1 == m[fd].readers
            &&& r.0[fd].readers.len() == 0
            &&& r.0[fd].writers == m[fd].writers
            &&& r.2 == Some(
                EpollCtl {
                    op: 3i32,
                    fd: fd,
                    event: Some(EpollEvent { events: 4u32, data: fd as u64 }),
                },
            )
        }),
{
    assert(1u32 & 1u32 != 0u32) by (bit_vector);
    assert(1u32 & 4u32 == 0u32) by (bit_vector);
    assert(queue_taken(m[fd], 1u32) =~= m[fd].readers);
}

/// Inserting an object to wait on a descriptor adds one subscription when
/// the descriptor had none, and none when it had one.
pub proof fn law_poll_insert_count<T>(m: Map<i32, QueueView<T>>, fd: i32, kind: WakeupKind, data: T)
    requires
        m.dom().finite(),
    ensures
        m.insert(fd, queue_inserted(queue_of(m, fd), kind, data)).dom().len() == m.dom().len() + (
        if m.contains_key(fd) {
            0int
        } else {
            1int
        }),
{
    if m.contains_key(fd) {
        assert(m.insert(fd, queue_inserted(queue_of(m, fd), kind, data)).dom() =~= m.dom());
    }
}

/// The objects of `items` that wait for readiness `kind`, in order.
pub open spec fn objs_of_kind<T>(items: Seq<(WakeupKind, T)>, kind: WakeupKind) -> Seq<T>
    decreases items.len(),
{
    if items.len() == 0 {
        Seq::empty()
    } else if items.last().0 == kind {
        objs_of_kind(items.drop_last(), kind).push(items.last().1)
    } else {
        objs_of_kind(items.drop_last(), kind)
    }
}

/// The queue `q` after the objects of `items` have been inserted in order,
/// each waiting for the readiness it is paired with.
pub open spec fn queue_inserted_all<T>(q: QueueView<T>, items: Seq<(WakeupKind, T)>) -> QueueView<
    T,
>
    decreases items.len(),
{
    if items.len() == 0 {
        q
    } else {
        queue_inserted(queue_inserted_all(q, items.drop_last()), items.last().0, items.last().1)
    }
}

/// A queue filled from empty holds the readers and the writers each in the
/// order of insertion.
proof fn lemma_queue_inserted_all<T>(items: Seq<(WakeupKind, T)>)
    ensures
        queue_inserted_all(queue_empty(), items) == (QueueView {
            readers: objs_of_kind(items, WakeupKind::Readable),
            writers: objs_of_kind(items, WakeupKind::Writable),
        }),
    decreases items.len(),
{
    if items.len() > 0 {
        lemma_queue_inserted_all(items.drop_last());
    }
}

/// Objects inserted one after the other into an empty queue, each waiting
/// for readability or writability, are released by an event reporting both
/// (`EPOLLIN | EPOLLOUT`) as the readers in insertion order followed by the
/// writers in insertion order; nothing waits afterwards and the queue asks
/// for no epoll interest.
pub proof fn law_queue_release_both_in_order<T>(items: Seq<(WakeupKind, T)>)
    ensures
        ({
            let q = queue_inserted_all(queue_empty(), items);
            &&& queue_taken(q, 5u32) == objs_of_kind(items, WakeupKind::Readable) + objs_of_kind(
                items,
                WakeupKind::Writable,
            )
            &&& queue_is_empty(queue_after_take(q, 5u32))
            &&& queue_flags(queue_after_take(q, 5u32)) is None
        }),
{
    lemma_queue_inserted_all(items);
    assert(5u32 & 1u32 != 0u32) by (bit_vector);
    assert(5u32 & 4u32 != 0u32) by (bit_vector);
}

/// The objects waiting in a queue, of either kind.
pub open spec fn queue_objs<T>(q: QueueView<T>) -> Multiset<T> {
    q.readers.to_multiset().add(q.writers.to_multiset())
}

/// Adding the objects waiting on descriptor `k` of `m` to `acc`.
pub open spec fn add_queue_objs<T>(m: Map<i32, QueueView<T>>) -> spec_fn(Multiset<T>, i32) -> Multiset<T> {
    |acc: Multiset<T>, k: i32| acc.add(queue_objs(m[k]))
}

/// The objects waiting on every descriptor of `m`.
pub open spec fn all_waiting<T>(m: Map<i32, QueueView<T>>) -> Multiset<T> {
    m.dom().fold(Multiset::empty(), add_queue_objs(m))
}

/// Adding the objects of the descriptors one by one gives the same whatever
/// the order.
proof fn lemma_add_queue_objs_commutative<T>(m: Map<i32, QueueView<T>>)
    ensures
        is_fun_commutative(add_queue_objs(m)),
{
    let f = add_queue_objs(m);
    assert forall|a1: i32, a2: i32, b: Multiset<T>| #[trigger] f(f(b, a2), a1) == f(f(b, a1), a2) by {
        assert(f(f(b, a2), a1) =~= f(f(b, a1), a2));
    }
}

/// Two subscription maps that agree on the objects of the descriptors of
/// `s` count the same objects over `s`.
proof fn lemma_fold_agree<T>(s: Set<i32>, m1: Map<i32, QueueView<T>>, m2: Map<i32, QueueView<T>>)
    requires
        s.finite(),
        forall|k: i32| s.contains(k) ==> queue_objs(m1[k]) == queue_objs(m2[k]),
    ensures
        s.fold(Multiset::empty(), add_queue_objs(m1)) == s.fold(Multiset::empty(), add_queue_objs(m2)),
    decreases s.len(),
{
    lemma_add_queue_objs_commutative(m1);
    lemma_add_queue_objs_commutative(m2);
    if s.len() == 0 {
        assert(s =~= Set::<i32>::empty());
        lemma_fold_empty(Multiset::<T>::empty(), add_queue_objs(m1));
        lemma_fold_empty(Multiset::<T>::empty(), add_queue_objs(m2));
    } else {
        let a = s.choose();
        let r = s.remove(a);
        lemma_fold_agree(r, m1, m2);
        assert(r.insert(a) =~= s);
        lemma_fold_insert(r, Multiset::<T>::empty(), add_queue_objs(m1), a);
        lemma_fold_insert(r, Multiset::<T>::empty(), add_queue_objs(m2), a);
    }
}

/// The objects waiting in `m` are those of descriptor `k` and those of the
/// other descriptors.
proof fn lemma_all_waiting_split<T>(m: Map<i32, QueueView<T>>, k: i32)
    requires
        m.dom().finite(),
        m.contains_key(k),
    ensures
        all_waiting(m) == all_waiting(m.remove(k)).add(queue_objs(m[k])),
{
    let r = m.remove(k).dom();
    assert(r.insert(k) =~= m.dom());
    lemma_add_queue_objs_commutative(m);
    lemma_fold_insert(r, Multiset::<T>::empty(), add_queue_objs(m), k);
    lemma_fold_agree(r, m, m.remove(k));
}

/// The objects waiting before one event are those waiting after it and
/// those it released.
proof fn lemma_wait_step_conserves<T>(m: Map<i32, QueueView<T>>, e: EpollEvent)
    requires
        m.dom().finite(),
    ensures
        wait_step(m, e).0.dom().finite(),
        all_waiting(wait_step(m, e).0).add(wait_step(m, e).1.to_multiset()) == all_waiting(m),
{
    broadcast use vstd::seq_lib::group_to_multiset_ensures, vstd::seq_lib::lemma_multiset_commutative;

    let fd = e.data as i32;
    let step = wait_step(m, e);
    if !m.contains_key(fd) {
        assert(Seq::<T>::empty().to_multiset() =~= Multiset::<T>::empty());
        assert(all_waiting(m).add(Multiset::<T>::empty()) =~= all_waiting(m));
    } else {
        let q = m[fd];
        let q2 = queue_after_take(q, e.events);
        let taken = queue_taken(q, e.events);
        assert(Seq::<T>::empty().to_multiset() =~= Multiset::<T>::empty());
        assert(queue_objs(q2).add(taken.to_multiset()) =~= queue_objs(q));
        lemma_all_waiting_split(m, fd);
        if queue_is_empty(q2) {
            assert(q2.readers =~= Seq::<T>::empty());
            assert(q2.writers =~= Seq::<T>::empty());
            assert(queue_objs(q2) =~= Multiset::<T>::empty());
            assert(all_waiting(m.remove(fd)).add(taken.to_multiset()) =~= all_waiting(m.remove(fd)).add(
                queue_objs(q),
            ));
        } else {
            let m2 = m.insert(fd, q2);
            lemma_all_waiting_split(m2, fd);
            assert(m2.remove(fd) =~= m.remove(fd));
            assert(all_waiting(m.remove(fd)).add(queue_objs(q2)).add(taken.to_multiset())
                =~= all_waiting(m.remove(fd)).add(queue_objs(q)));
        }
    }
}

/// Processing epoll events neither loses nor invents an object: the
/// objects released by a batch of events together with those still waiting
/// afterwards are exactly those that waited before.
pub proof fn law_poll_wait_conserves<T>(m: Map<i32, QueueView<T>>, es: Seq<EpollEvent>)
    requires
        m.dom().finite(),
    ensures
        all_waiting(wait_spec(m, es).0).add(wait_spec(m, es).1.to_multiset()) == all_waiting(m),
    decreases es.len(),
{
    broadcast use vstd::seq_lib::lemma_multiset_commutative;

    if es.len() == 0 {
        assert(Seq::<T>::empty().to_multiset() =~= Multiset::<T>::empty()) by {
            broadcast use vstd::seq_lib::group_to_multiset_ensures;
        }
        assert(all_waiting(m).add(Multiset::<T>::empty()) =~= all_waiting(m));
    } else {
        let step = wait_step(m, es[0]);
        lemma_wait_step_conserves(m, es[0]);
        let rest = wait_spec(step.0, es.drop_first());
        law_poll_wait_conserves(step.0, es.drop_first());
        assert(all_waiting(rest.0).add((step.1 + rest.1).to_multiset()) =~= all_waiting(rest.0).add(
            rest.1.to_multiset(),
        ).add(step.1.to_multiset()));
    }
}

/// The epoll interest that keeps the subscriptions `m` in step: for each
/// descriptor, the flags covering what its objects wait for.
pub open spec fn interest_of<T>(m: Map<i32, QueueView<T>>) -> Map<i32, u32> {
    m.map_values(|q: QueueView<T>| queue_flags(q).unwrap())
}

/// The epoll interest after an `epoll_ctl` call: `EPOLL_CTL_ADD` and
/// `EPOLL_CTL_MOD` register the call's event flags for its descriptor,
/// `EPOLL_CTL_DEL` removes the descriptor.
pub open spec fn apply_ctl(reg: Map<i32, u32>, c: EpollCtl) -> Map<i32, u32> {
    if c.op == 2 {
        reg.remove(c.fd)
    } else {
        reg.insert(c.fd, c.event.unwrap().events)
    }
}

/// The epoll interest after the calls `cs`, in order.
pub open spec fn apply_ctls(reg: Map<i32, u32>, cs: Seq<EpollCtl>) -> Map<i32, u32>
    decreases cs.len(),
{
    if cs.len() == 0 {
        reg
    } else {
        apply_ctls(apply_ctl(reg, cs[0]), cs.drop_first())
    }
}

/// Every descriptor of `m` has an object waiting.
pub open spec fn all_nonempty<T>(m: Map<i32, QueueView<T>>) -> bool {
    forall|k: i32| #[trigger] m.contains_key(k) ==> !queue_is_empty(m[k])
}

/// The `epoll_ctl` call that [Poll::insert] asks for keeps epoll in step:
/// registered with the interest of the subscriptions before, it leaves the
/// interest of the subscriptions after.
pub proof fn law_poll_insert_rearms<T>(m: Map<i32, QueueView<T>>, fd: i32, kind: WakeupKind, data: T)
    ensures
        ({
            let q = queue_inserted(queue_of(m, fd), kind, data);
            let op = if m.contains_key(fd) {
                3i32
            } else {
                1i32
            };
            apply_ctl(interest_of(m), ctl_for(op, fd, q)) == interest_of(m.insert(fd, q))
        }),
{
    let q = queue_inserted(queue_of(m, fd), kind, data);
    assert(interest_of(m).insert(fd, queue_flags(q).unwrap()) =~= interest_of(m.insert(fd, q)));
}

/// The `epoll_ctl` calls that [Poll::wait] asks for keep epoll in step,
/// for a batch of any length: registered with the interest of the
/// subscriptions before, they leave the interest of the subscriptions
/// after. Every descriptor still subscribed afterwards has an object
/// waiting; a descriptor whose objects were all released is unsubscribed.
pub proof fn law_poll_wait_rearms<T>(m: Map<i32, QueueView<T>>, es: Seq<EpollEvent>)
    requires
        all_nonempty(m),
    ensures
        all_nonempty(wait_spec(m, es).0),
        apply_ctls(interest_of(m), wait_spec(m, es).2) == interest_of(wait_spec(m, es).0),
    decreases es.len(),
{
    if es.len() > 0 {
        let e = es[0];
        let fd = e.data as i32;
        let step = wait_step(m, e);
        if m.contains_key(fd) {
            let q2 = queue_after_take(m[fd], e.events);
            assert(apply_ctl(interest_of(m), step.2.unwrap()) =~= interest_of(step.0));
            let rest = wait_spec(step.0, es.drop_first()).2;
            let c = step.2.unwrap();
            assert((seq![c] + rest)[0] == c);
            assert((seq![c] + rest).drop_first() =~= rest);
        }
        law_poll_wait_rearms(step.0, es.drop_first());
    }
}

/// The epoll flags of a queue cover exactly the readiness kinds waited
/// for: `EPOLLIN` (bit 0x1) exactly when a reader waits, `EPOLLOUT` (bit
/// 0x4) exactly when a writer waits, and no other bit; a queue with nothing
/// waiting asks for no interest at all.
pub proof fn law_queue_flags_exact<T>(q: QueueView<T>)
    ensures
        (queue_flags(q) is None) <==> (q.readers.len() == 0 && q.writers.len() == 0),
        queue_flags(q) matches Some(f) ==> {
            &&& (f & 1u32 != 0u32) == (q.readers.len() > 0)
            &&& (f & 4u32 != 0u32) == (q.writers.len() > 0)
            &&& f & !5u32 == 0u32
        },
{
    assert(5u32 & 1u32 != 0u32 && 5u32 & 4u32 != 0u32 && 5u32 & !5u32 == 0u32) by (bit_vector);
    assert(1u32 & 1u32 != 0u32 && 1u32 & 4u32 == 0u32 && 1u32 & !5u32 == 0u32) by (bit_vector);
    assert(4u32 & 1u32 == 0u32 && 4u32 & 4u32 != 0u32 && 4u32 & !5u32 == 0u32) by (bit_vector);
}

/// An event releases every reader when its flags carry the `EPOLLIN` bit
/// (0x1), whatever other bits they carry, and no reader otherwise; likewise
/// every writer with the `EPOLLOUT` bit (0x4). The readers come out first,
/// each kind in the order it waited, and what is not released stays as it
/// was.
pub proof fn law_event_bits_release<T>(q: QueueView<T>, flags: u32)
    ensures
        queue_taken(q, flags) == (if flags & 1u32 != 0u32 {
            q.readers
        } else {
            Seq::<T>::empty()
        }) + (if flags & 4u32 != 0u32 {
            q.writers
        } else {
            Seq::<T>::empty()
        }),
        queue_after_take(q, flags).readers == (if flags & 1u32 != 0u32 {
            Seq::<T>::empty()
        } else {
            q.readers
        }),
        queue_after_take(q, flags).writers == (if flags & 4u32 != 0u32 {
            Seq::<T>::empty()
        } else {
            q.writers
        }),
{
}

/// One epoll event on a subscribed descriptor: the descriptor is the event's
/// data word; if nothing waits on it afterwards it is removed and
/// unsubscribed (`EPOLL_CTL_DEL`, 2), otherwise it is re-armed
/// (`EPOLL_CTL_MOD`, 3) with the flags of what still waits and the
/// descriptor as data; no other descriptor changes.
pub proof fn law_wait_step_ctl<T>(m: Map<i32, QueueView<T>>, e: EpollEvent)
    requires
        m.contains_key(e.data as i32),
    ensures
        ({
            let fd = e.data as i32;
            let r = wait_step(m, e);
            let rest = queue_after_take(m[fd], e.events);
            &&& r.2 is Some
            &&& r.2->0.fd == fd
            &&& (rest.readers.len() == 0 && rest.writers.len() == 0) ==> {
                &&& r.2->0.op == 2
                &&& r.2->0.event is None
                &&& !r.0.contains_key(fd)
            }
            &&& (rest.readers.len() > 0 || rest.writers.len() > 0) ==> {
                &&& r.2->0.op == 3
                &&& r.2->0.event == Some(EpollEvent { events: queue_flags(rest)->0, data: fd as u64 })
                &&& r.0.contains_key(fd)
                &&& r.0[fd] == rest
            }
            &&& forall|k: i32|
                k != fd ==> (#[trigger] r.0.contains_key(k) <==> m.contains_key(k))
            &&& forall|k: i32| k != fd && m.contains_key(k) ==> #[trigger] r.0[k] == m[k]
        }),
{
}

/// The `epoll_ctl` call that [Poll::insert] asks for registers the
/// descriptor (`EPOLL_CTL_MOD`, 3, when it was subscribed, `EPOLL_CTL_ADD`,
/// 1, otherwise) with the descriptor as data and with `EPOLLIN` exactly when
/// a reader waits on it afterwards and `EPOLLOUT` exactly when a writer does.
pub proof fn law_insert_ctl_flags<T>(m: Map<i32, QueueView<T>>, fd: i32, kind: WakeupKind, data: T)
    ensures
        ({
            let q = queue_inserted(queue_of(m, fd), kind, data);
            let op = if m.contains_key(fd) {
                3i32
            } else {
                1i32
            };
            let c = ctl_for(op, fd, q);
            &&& c.op == (if m.contains_key(fd) {
                3i32
            } else {
                1i32
            })
            &&& c.fd == fd
            &&& c.event is Some
            &&& c.event->0.data == fd as u64
            &&& (c.event->0.events & 1u32 != 0u32) == (kind == WakeupKind::Readable
                || queue_of(m, fd).readers.len() > 0)
            &&& (c.event->0.events & 4u32 != 0u32) == (kind == WakeupKind::Writable
                || queue_of(m, fd).writers.len() > 0)
            &&& c.event->0.events & !5u32 == 0u32
        }),
{
    let q = queue_inserted(queue_of(m, fd), kind, data);
    law_queue_flags_exact(q);
}

/// The queue of a subscribed descriptor is its subscription's queue; a
/// descriptor without subscription has nothing waiting.
pub proof fn law_queue_of<T>(m: Map<i32, QueueView<T>>, fd: i32)
    ensures
        m.contains_key(fd) ==> queue_of(m, fd) == m[fd],
        !m.contains_key(fd) ==> queue_of(m, fd).readers.len() == 0 && queue_of(m, fd).writers.len()
            == 0,
{
}

/// A batch of no event changes nothing; a batch of one event does what that
/// event does.
pub proof fn law_wait_single<T>(m: Map<i32, QueueView<T>>, e: EpollEvent)
    ensures
        wait_spec(m, Seq::<EpollEvent>::empty()) == (m, Seq::<T>::empty(), Seq::<EpollCtl>::empty()),
        wait_spec(m, seq![e]).0 == wait_step(m, e).0,
        wait_spec(m, seq![e]).1 == wait_step(m, e).1,
        wait_spec(m, seq![e]).2 == (match wait_step(m, e).2 {
            Some(c) => seq![c],
            None => Seq::<EpollCtl>::empty(),
        }),
{
    reveal_with_fuel(wait_spec, 2);
    assert(seq![e][0] == e);
    assert(seq![e].drop_first() =~= Seq::<EpollEvent>::empty());
    let st = wait_step(m, e);
    assert(st.1 + Seq::<T>::empty() =~= st.1);
    if let Some(c) = st.2 {
        assert(seq![c] + Seq::<EpollCtl>::empty() =~= seq![c]);
    }
}

/// Processing a batch of events is processing its first part and then its
/// second: the subscriptions come out the same, and the released objects
/// and the `epoll_ctl` calls are those of the first part followed by those
/// of the second.
pub proof fn law_wait_batches_compose<T>(
    m: Map<i32, QueueView<T>>,
    a: Seq<EpollEvent>,
    b: Seq<EpollEvent>,
)
    ensures
        wait_spec(m, a + b).0 == wait_spec(wait_spec(m, a).0, b).0,
        wait_spec(m, a + b).1 == wait_spec(m, a).1 + wait_spec(wait_spec(m, a).0, b).1,
        wait_spec(m, a + b).2 == wait_spec(m, a).2 + wait_spec(wait_spec(m, a).0, b).2,
    decreases a.len(),
{
    if a.len() == 0 {
        assert(a + b =~= b);
        assert(Seq::<T>::empty() + wait_spec(m, b).1 =~= wait_spec(m, b).1);
        assert(Seq::<EpollCtl>::empty() + wait_spec(m, b).2 =~= wait_spec(m, b).2);
    } else {
        assert((a + b)[0] == a[0]);
        assert((a + b).drop_first() =~= a.drop_first() + b);
        let st = wait_step(m, a[0]);
        law_wait_batches_compose(st.0, a.drop_first(), b);
        let ra = wait_spec(st.0, a.drop_first());
        let rb = wait_spec(ra.0, b);
        assert(st.1 + (ra.1 + rb.1) =~= (st.1 + ra.1) + rb.1);
        match st.2 {
            Some(c) => {
                assert(seq![c] + (ra.2 + rb.2) =~= (seq![c] + ra.2) + rb.2);
            },
            None => {},
        }
    }
}

} // verus!
