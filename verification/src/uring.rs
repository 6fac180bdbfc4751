//! The bookkeeping of an io_uring reactor.
//!
//! Each submitted operation gets a pending record, keyed by the `user_data`
//! that travels with its submission entry through the kernel, and a result
//! slot in which its completion value waits for the future that submitted it.
//! Submission entries are queued here, tagged with their `user_data`; the
//! ring itself (pushing the entries, waiting for completions) is driven by the
//! caller, who hands the completions back to [ReactorUring::react].
use crate::result::{
    multishot_after_pop_spec, multishot_drop_spec, multishot_pop_spec,
    oneshot_after_get_spec, oneshot_drop_spec, oneshot_get_spec, oneshot_set_spec, ring_pushed,
    slot_pushed, MultishotResult, MultishotSlotView, ResultState, RingResults, RING_CAPACITY,
};
use io_uring::squeue;
use slab::Slab;
use vstd::prelude::*;

verus! {

#[verifier::external_type_specification]
#[verifier::external_body]
pub struct ExSqueueEntry(squeue::Entry);

/// The submission entry `e` with its `user_data` field set to `user_data`.
pub uninterp spec fn sqe_with_user_data(e: squeue::Entry, user_data: u64) -> squeue::Entry;

/// `squeue::Entry::user_data`: the same entry with its user data set.
#[verifier::external_body]
fn tag_entry(e: squeue::Entry, user_data: u64) -> (r: squeue::Entry)
    ensures
        r == sqe_with_user_data(e, user_data),
{
    e.user_data(user_data)
}

/// Whether an operation completes once or many times.
#[derive(Clone, Copy, PartialEq, Eq, Structural, Debug)]
pub enum IoKind {
    /// One completion.
    Oneshot,
    /// A stream of completions.
    Multi,
}

/// An operation in flight.
#[derive(Clone, Copy, PartialEq, Eq, Structural, Debug)]
pub struct PendingIo {
    /// What the reactor hands back when the operation completes.
    pub assoc_obj: u64,
    /// The key of the operation's result slot.
    pub result_slab_idx: usize,
    /// Which store holds the result slot.
    pub kind: IoKind,
}

/// A completion taken from the completion queue.
#[derive(Clone, Copy, PartialEq, Eq, Structural, Debug)]
pub struct Completion {
    /// The user data of the completed submission.
    pub user_data: u64,
    /// The operation's result: a value, or a negated errno.
    pub result: i32,
}

/// The occupied slots of the slab of operations in flight, by key.
pub uninterp spec fn pending_slots(s: Slab<PendingIo>) -> Map<usize, PendingIo>;

/// `Slab::new`: an empty slab.
#[verifier::external_body]
fn pending_slab_new() -> (slab: Slab<PendingIo>)
    ensures
        (pending_slots(slab) == Map::<usize, PendingIo>::empty()),
{
    Slab::new()
}

/// `Slab::insert`: stores the value under a key that was vacant and returns
/// that key.
#[verifier::external_body]
fn pending_slab_insert(s: &mut Slab<PendingIo>, v: PendingIo) -> (k: usize)
    ensures
        !pending_slots(*old(s)).contains_key(k),
        pending_slots(*final(s)) == pending_slots(*old(s)).insert(k, v),
{
    s.insert(v)
}

/// `Slab::get`, the found record copied out.
#[verifier::external_body]
fn pending_slab_get(s: &Slab<PendingIo>, k: usize) -> (r: Option<PendingIo>)
    ensures
        r == (if pending_slots(*s).contains_key(k) {
            Some(pending_slots(*s)[k])
        } else {
            None
        }),
{
    s.get(k).copied()
}

/// `Slab::remove`: frees an occupied key (it panics on a vacant one, which
/// `requires` leaves out).
#[verifier::external_body]
fn pending_slab_remove(s: &mut Slab<PendingIo>, k: usize) -> (v: PendingIo)
    requires
        pending_slots(*old(s)).contains_key(k),
    ensures
        v == pending_slots(*old(s))[k],
        pending_slots(*final(s)) == pending_slots(*old(s)).remove(k),
{
    s.remove(k)
}

/// The abstract state of a reactor: operations in flight and result slots.
pub struct RingState {
    /// Operations in flight, by user data.
    pub pending: Map<usize, PendingIo>,
    /// Oneshot result slots.
    pub oneshot: Map<usize, ResultState>,
    /// Multishot result slots.
    pub multishot: Map<usize, MultishotSlotView>,
}

/// The state `s` with its oneshot slots replaced by `m`.
pub open spec fn with_oneshot(s: RingState, m: Map<usize, ResultState>) -> RingState {
    RingState { oneshot: m, ..s }
}

/// The state `s` with its multishot slots replaced by `m`.
pub open spec fn with_multishot(s: RingState, m: Map<usize, MultishotSlotView>) -> RingState {
    RingState { multishot: m, ..s }
}

/// Every operation in flight owns a live result slot of its kind: a
/// oneshot slot that holds no value yet, or a multishot slot that is not
/// finished.
pub open spec fn pending_live(s: RingState) -> bool {
    forall|k: usize| #[trigger]
        s.pending.contains_key(k) ==> {
            let p = s.pending[k];
            match p.kind {
                IoKind::Oneshot => s.oneshot.contains_key(p.result_slab_idx) && !(
                s.oneshot[p.result_slab_idx] is Ready),
                IoKind::Multi => s.multishot.contains_key(p.result_slab_idx)
                    && !s.multishot[p.result_slab_idx].finished,
            }
        }
}

/// No two operations in flight own the same result slot.
pub open spec fn pending_distinct(s: RingState) -> bool {
    forall|k1: usize, k2: usize|
        #![trigger s.pending[k1], s.pending[k2]]
        s.pending.contains_key(k1) && s.pending.contains_key(k2) && k1 != k2
            && s.pending[k1].kind == s.pending[k2].kind ==> s.pending[k1].result_slab_idx
            != s.pending[k2].result_slab_idx
}

/// No value stored in a oneshot slot is `i32::MIN` (whose negation has no
/// `i32`).
pub open spec fn oneshot_values_ok(m: Map<usize, ResultState>) -> bool {
    forall|i: usize| #[trigger]
        m.contains_key(i) ==> match m[i] {
            ResultState::Ready(v) => v != i32::MIN,
            _ => true,
        }
}

/// No value waiting in a multishot slot is `i32::MIN`.
pub open spec fn multishot_values_ok(m: Map<usize, MultishotSlotView>) -> bool {
    forall|i: usize, j: int| #[trigger]
        m.contains_key(i) && 0 <= j < m[i].results.len() ==> #[trigger] m[i].results[j]
            != i32::MIN
}

/// The consistency of a reactor's state: the operations in flight own
/// live, distinct result slots, and no stored value is `i32::MIN`.
pub open spec fn ring_wf(s: RingState) -> bool {
    &&& pending_live(s)
    &&& pending_distinct(s)
    &&& oneshot_values_ok(s.oneshot)
    &&& multishot_values_ok(s.multishot)
}

/// A change of result slots that leaves the operations in flight alone keeps
/// a reactor consistent when every live slot stays live and no `i32::MIN`
/// value appears.
proof fn lemma_wf_same_pending(s0: RingState, s1: RingState)
    requires
        ring_wf(s0),
        s1.pending == s0.pending,
        forall|i: usize|
            #![trigger s1.oneshot.contains_key(i)]
            s0.oneshot.contains_key(i) && !(s0.oneshot[i] is Ready) ==> s1.oneshot.contains_key(i)
                && !(s1.oneshot[i] is Ready),
        forall|i: usize|
            #![trigger s1.multishot.contains_key(i)]
            s0.multishot.contains_key(i) && !s0.multishot[i].finished
                ==> s1.multishot.contains_key(i) && !s1.multishot[i].finished,
        oneshot_values_ok(s1.oneshot),
        multishot_values_ok(s1.multishot),
    ensures
        ring_wf(s1),
{
    assert forall|k: usize| #[trigger] s1.pending.contains_key(k) implies {
        let p = s1.pending[k];
        match p.kind {
            IoKind::Oneshot => s1.oneshot.contains_key(p.result_slab_idx) && !(
            s1.oneshot[p.result_slab_idx] is Ready),
            IoKind::Multi => s1.multishot.contains_key(p.result_slab_idx)
                && !s1.multishot[p.result_slab_idx].finished,
        }
    } by {
        assert(s0.pending.contains_key(k));
        let p = s0.pending[k];
        if p.kind == IoKind::Oneshot {
            assert(s1.oneshot.contains_key(p.result_slab_idx));
        } else {
            assert(s1.multishot.contains_key(p.result_slab_idx));
        }
    }
}

/// The state after one completion for an operation in flight.
pub open spec fn complete_spec(s: RingState, c: Completion) -> RingState {
    let k = c.user_data as usize;
    let p = s.pending[k];
    match p.kind {
        IoKind::Oneshot => RingState {
            pending: s.pending.remove(k),
            oneshot: oneshot_set_spec(s.oneshot, c.result, p.result_slab_idx),
            multishot: s.multishot,
        },
        IoKind::Multi => RingState {
            pending: s.pending,
            oneshot: s.oneshot,
            multishot: s.multishot.insert(
                p.result_slab_idx,
                slot_pushed(s.multishot[p.result_slab_idx], c.result),
            ),
        },
    }
}

/// What reacting to a batch of completions does, processing them in order:
/// the final state, the objects of the completed operations, and the index
/// of the first completion that belongs to no operation in flight, if any
/// (processing stops there).
pub open spec fn react_spec(s: RingState, cs: Seq<Completion>) -> (RingState, Seq<u64>, Option<
    int,
>)
    decreases cs.len(),
{
    if cs.len() == 0 {
        (s, Seq::empty(), None)
    } else if !s.pending.contains_key(cs[0].user_data as usize) {
        (s, Seq::empty(), Some(0))
    } else {
        let obj = s.pending[cs[0].user_data as usize].assoc_obj;
        let rest = react_spec(complete_spec(s, cs[0]), cs.drop_first());
        (
            rest.0,
            seq![obj] + rest.1,
            match rest.2 {
                Some(i) => Some(i + 1),
                None => None,
            },
        )
    }
}

/// The state after submitting an operation whose result slot is `slot` and
/// whose record gets the key `key`.
pub open spec fn submit_spec(
    s: RingState,
    obj: u64,
    kind: IoKind,
    key: usize,
    slot: usize,
) -> RingState {
    RingState {
        pending: s.pending.insert(
            key,
            PendingIo { assoc_obj: obj, result_slab_idx: slot, kind: kind },
        ),
        oneshot: match kind {
            IoKind::Oneshot => s.oneshot.insert(slot, ResultState::Pending),
            IoKind::Multi => s.oneshot,
        },
        multishot: match kind {
            IoKind::Oneshot => s.multishot,
            IoKind::Multi => s.multishot.insert(
                slot,
                MultishotSlotView { results: Seq::empty(), dropped: false, finished: false },
            ),
        },
    }
}

/// The bookkeeping of an io_uring reactor.
pub struct ReactorUring {
    pending: Slab<PendingIo>,
    results: RingResults,
    submissions: Vec<squeue::Entry>,
}

impl ReactorUring {
    /// The abstract state: operations in flight and result slots.
    pub closed spec fn state(&self) -> RingState {
        RingState {
            pending: pending_slots(self.pending),
            oneshot: self.results.oneshot_view(),
            multishot: self.results.multishot_view(),
        }
    }

    /// Entries submitted but not yet handed to the ring, oldest first.
    pub closed spec fn queued(&self) -> Seq<squeue::Entry> {
        self.submissions@
    }

    /// The reactor's consistency.
    pub open spec fn wf(&self) -> bool {
        ring_wf(self.state())
    }

    /// A reactor with nothing in flight.
    pub fn new() -> (r: Self)
        ensures
            r.state().pending == Map::<usize, PendingIo>::empty(),
            r.state().oneshot == Map::<usize, ResultState>::empty(),
            r.state().multishot == Map::<usize, MultishotSlotView>::empty(),
            r.queued() == Seq::<squeue::Entry>::empty(),
            r.wf(),
    {
        ReactorUring { pending: pending_slab_new(), results: RingResults::new(), submissions: Vec::new() }
    }

    /// Whether the completion with this user data belongs to an operation in
    /// flight.
    pub fn is_pending(&self, user_data: u64) -> (b: bool)
        ensures
            b == self.state().pending.contains_key(user_data as usize),
    {
        pending_slab_get(&self.pending, user_data as usize).is_some()
    }

    /// Whether no result slot is in use.
    pub fn results_empty(&self) -> (b: bool)
        ensures
            b == (self.state().oneshot.dom() == Set::<usize>::empty()
                && self.state().multishot.dom() == Set::<usize>::empty()),
    {
        self.results.is_empty()
    }

    /// Hand over the queued submission entries, oldest first.
    pub fn take_submissions(&mut self) -> (es: Vec<squeue::Entry>)
        ensures
            es@ == old(self).queued(),
            final(self).queued() == Seq::<squeue::Entry>::empty(),
            final(self).state() == old(self).state(),
    {
        let mut es: Vec<squeue::Entry> = Vec::new();
        std::mem::swap(&mut es, &mut self.submissions);
        es
    }

    /// Submit an operation: reserve its result slot, record it as in flight
    /// and queue its entry tagged with the record's key as user data. Returns
    /// that user data and the result slot.
    pub fn submit_io(&mut self, entry: squeue::Entry, obj: u64, kind: IoKind) -> (r: (u64, usize))
        requires
            old(self).wf(),
        ensures
            final(self).wf(),
            r.0 as usize as u64 == r.0,
            !old(self).state().pending.contains_key(r.0 as usize),
            kind == IoKind::Oneshot ==> !old(self).state().oneshot.contains_key(r.1),
            kind == IoKind::Multi ==> !old(self).state().multishot.contains_key(r.1),
            final(self).state() == submit_spec(old(self).state(), obj, kind, r.0 as usize, r.1),
            final(self).queued() == old(self).queued().push(sqe_with_user_data(entry, r.0)),
    {
        let result_slab_idx = match kind {
            IoKind::Oneshot => self.results.get_oneshot().create_slot(),
            IoKind::Multi => self.results.get_multishot().create_slot(),
        };
        let slot = pending_slab_insert(
            &mut self.pending,
            PendingIo { assoc_obj: obj, result_slab_idx, kind },
        );
        let user_data = slot as u64;
        self.submissions.push(tag_entry(entry, user_data));
        proof {
            lemma_submit_wf(old(self).state(), obj, kind, slot, result_slab_idx);
            assert(self.state() =~= submit_spec(old(self).state(), obj, kind, slot, result_slab_idx));
        }
        (user_data, result_slab_idx)
    }

    /// Take the value of oneshot slot `slot`, if it has arrived (see
    /// [crate::result::OneshotStore::get_result]).
    pub fn get_oneshot_result(&mut self, slot: usize) -> (r: Option<i32>)
        requires
            old(self).wf(),
            old(self).state().oneshot.contains_key(slot),
            old(self).state().oneshot[slot] != ResultState::Dropped,
        ensures
            final(self).wf(),
            r == oneshot_get_spec(old(self).state().oneshot, slot),
            r matches Some(v) ==> v != i32::MIN,
            final(self).state() == with_oneshot(old(self).state(), oneshot_after_get_spec(old(self).state().oneshot, slot)),
            final(self).queued() == old(self).queued(),
    {
        let ghost s0 = self.state();
        let r = self.results.get_oneshot().get_result(slot);
        proof {
            let s1 = self.state();
            assert(s1 =~= with_oneshot(s0, oneshot_after_get_spec(s0.oneshot, slot)));
            lemma_wf_same_pending(s0, s1);
        }
        r
    }

    /// The waiting side of oneshot slot `slot` goes away (see
    /// [crate::result::OneshotStore::drop_result]).
    pub fn drop_oneshot_result(&mut self, slot: usize)
        requires
            old(self).wf(),
            old(self).state().oneshot.contains_key(slot),
        ensures
            final(self).wf(),
            final(self).state() == with_oneshot(old(self).state(), oneshot_drop_spec(old(self).state().oneshot, slot)),
            final(self).queued() == old(self).queued(),
    {
        let ghost s0 = self.state();
        self.results.get_oneshot().drop_result(slot);
        proof {
            let s1 = self.state();
            assert(s1 =~= with_oneshot(s0, oneshot_drop_spec(s0.oneshot, slot)));
            lemma_wf_same_pending(s0, s1);
        }
    }

    /// Take the oldest value of multishot slot `slot` (see
    /// [crate::result::MultishotStore::pop_result]).
    pub fn pop_multishot_result(&mut self, slot: usize) -> (r: MultishotResult)
        requires
            old(self).wf(),
            old(self).state().multishot.contains_key(slot),
        ensures
            final(self).wf(),
            r == multishot_pop_spec(old(self).state().multishot[slot]),
            r matches MultishotResult::Value(v) ==> v != i32::MIN,
            final(self).state() == with_multishot(old(self).state(), old(self).state().multishot.insert(
                    slot,
                    multishot_after_pop_spec(old(self).state().multishot[slot]),
                )),
            final(self).queued() == old(self).queued(),
    {
        let ghost s0 = self.state();
        let r = self.results.get_multishot().pop_result(slot);
        proof {
            let s1 = self.state();
            assert(s1 =~= with_multishot(
                s0,
                s0.multishot.insert(slot, multishot_after_pop_spec(s0.multishot[slot])),
            ));
            assert forall|i: usize, j: int| #[trigger]
                s1.multishot.contains_key(i) && 0 <= j < s1.multishot[i].results.len()
                    implies #[trigger] s1.multishot[i].results[j] != i32::MIN by {
                if i == slot && s0.multishot[slot].results.len() > 0 {
                    assert(s1.multishot[i].results[j] == s0.multishot[slot].results[j + 1]);
                }
            }
            lemma_wf_same_pending(s0, s1);
            if s0.multishot[slot].results.len() > 0 {
                assert(s0.multishot[slot].results[0] != i32::MIN);
            }
        }
        r
    }

    /// The waiting side of multishot slot `slot` goes away (see
    /// [crate::result::MultishotStore::drop_result]).
    pub fn drop_multishot_result(&mut self, slot: usize)
        requires
            old(self).wf(),
            old(self).state().multishot.contains_key(slot),
        ensures
            final(self).wf(),
            final(self).state() == with_multishot(old(self).state(), multishot_drop_spec(old(self).state().multishot, slot)),
            final(self).queued() == old(self).queued(),
    {
        let ghost s0 = self.state();
        self.results.get_multishot().drop_result(slot);
        proof {
            let s1 = self.state();
            assert(s1 =~= with_multishot(s0, multishot_drop_spec(s0.multishot, slot)));
            lemma_wf_same_pending(s0, s1);
        }
    }

    /// Process one completion of an operation in flight: store its value in
    /// the operation's result slot and return the operation's object. A
    /// oneshot operation is no longer in flight afterwards; a multishot one
    /// stays in flight, its value queued in its slot.
    pub fn complete(&mut self, c: Completion) -> (obj: u64)
        requires
            old(self).wf(),
            old(self).state().pending.contains_key(c.user_data as usize),
            c.result != i32::MIN,
        ensures
            final(self).wf(),
            obj == old(self).state().pending[c.user_data as usize].assoc_obj,
            final(self).state() == complete_spec(old(self).state(), c),
            final(self).queued() == old(self).queued(),
    {
        let ghost s0 = self.state();
        let key = c.user_data as usize;
        let p = pending_slab_get(&self.pending, key).unwrap();
        let slot = p.result_slab_idx;
        match p.kind {
            IoKind::Oneshot => {
                self.results.get_oneshot().set_result(c.result, slot);
                pending_slab_remove(&mut self.pending, key);
            },
            IoKind::Multi => {
                self.results.get_multishot().push_result(c.result, slot);
            },
        }
        proof {
            let s1 = self.state();
            assert(s1 =~= complete_spec(s0, c));
            lemma_complete_wf(s0, c);
        }
        p.assoc_obj
    }

    /// React to a batch of completions taken from the completion queue, in
    /// order, returning the objects of the completed operations. Stops with
    /// `Err(i)` at the first completion `i` that belongs to no operation in
    /// flight.
    pub fn react(&mut self, cs: &Vec<Completion>) -> (r: Result<Vec<u64>, usize>)
        requires
            old(self).wf(),
            forall|i: int| 0 <= i < cs@.len() ==> #[trigger] cs@[i].result != i32::MIN,
        ensures
            final(self).wf(),
            final(self).state() == react_spec(old(self).state(), cs@).0,
            final(self).queued() == old(self).queued(),
            match r {
                Ok(objs) => react_spec(old(self).state(), cs@).2 is None && objs@ == react_spec(
                    old(self).state(),
                    cs@,
                ).1,
                Err(i) => react_spec(old(self).state(), cs@).2 == Some(i as int),
            },
    {
        let ghost s0 = self.state();
        let ghost whole = react_spec(s0, cs@);
        let mut objs: Vec<u64> = Vec::new();
        let mut i: usize = 0;
        assert(cs@.skip(0) =~= cs@);
        while i < cs.len()
            invariant
                i <= cs@.len(),
                self.wf(),
                self.queued() == old(self).queued(),
                forall|j: int| 0 <= j < cs@.len() ==> #[trigger] cs@[j].result != i32::MIN,
                whole == react_spec(s0, cs@),
                s0 == old(self).state(),
                whole.0 == react_spec(self.state(), cs@.skip(i as int)).0,
                whole.1 == objs@ + react_spec(self.state(), cs@.skip(i as int)).1,
                whole.2 == match react_spec(self.state(), cs@.skip(i as int)).2 {
                    Some(j) => Some(j + i),
                    None => None,
                },
            decreases cs@.len() - i,
        {
            let c = cs[i];
            let ghost cur = self.state();
            let ghost rest = cs@.skip(i as int);
            assert(rest[0] == c);
            assert(rest.drop_first() =~= cs@.skip(i + 1));
            assert(rest.len() > 0);
            if !self.is_pending(c.user_data) {
                assert(react_spec(cur, rest) == (cur, Seq::<u64>::empty(), Some(0int)));
                return Err(i);
            }
            let ghost objs0 = objs@;
            let obj = self.complete(c);
            objs.push(obj);
            proof {
                assert(objs@ + react_spec(self.state(), cs@.skip(i + 1)).1 =~= objs0 + (seq![obj]
                    + react_spec(self.state(), cs@.skip(i + 1)).1));
            }
            i = i + 1;
        }
        assert(cs@.skip(i as int) =~= Seq::<Completion>::empty());
        assert(objs@ + Seq::<u64>::empty() =~= objs@);
        Ok(objs)
    }
}

/// Submitting an operation with a fresh record key and a fresh result slot
/// keeps a reactor consistent.
proof fn lemma_submit_wf(s0: RingState, obj: u64, kind: IoKind, key: usize, slot: usize)
    requires
        ring_wf(s0),
        !s0.pending.contains_key(key),
        kind == IoKind::Oneshot ==> !s0.oneshot.contains_key(slot),
        kind == IoKind::Multi ==> !s0.multishot.contains_key(slot),
    ensures
        ring_wf(submit_spec(s0, obj, kind, key, slot)),
{
    let s1 = submit_spec(s0, obj, kind, key, slot);
    assert forall|k: usize| #[trigger] s1.pending.contains_key(k) implies {
        let p = s1.pending[k];
        match p.kind {
            IoKind::Oneshot => s1.oneshot.contains_key(p.result_slab_idx) && !(
            s1.oneshot[p.result_slab_idx] is Ready),
            IoKind::Multi => s1.multishot.contains_key(p.result_slab_idx)
                && !s1.multishot[p.result_slab_idx].finished,
        }
    } by {
        if k != key {
            assert(s0.pending.contains_key(k));
        }
    }
    assert forall|k1: usize, k2: usize|
        s1.pending.contains_key(k1) && s1.pending.contains_key(k2) && k1 != k2
            && s1.pending[k1].kind == s1.pending[k2].kind implies #[trigger] s1.pending[k1].result_slab_idx
        != #[trigger] s1.pending[k2].result_slab_idx by {
        if k1 != key {
            assert(s0.pending.contains_key(k1));
        }
        if k2 != key {
            assert(s0.pending.contains_key(k2));
        }
    }
    assert forall|i: usize| #[trigger] s1.oneshot.contains_key(i) implies match s1.oneshot[i] {
        ResultState::Ready(v) => v != i32::MIN,
        _ => true,
    } by {
        if !(kind == IoKind::Oneshot && i == slot) {
            assert(s0.oneshot.contains_key(i));
        }
    }
    assert forall|i: usize, j: int| #[trigger]
        s1.multishot.contains_key(i) && 0 <= j < s1.multishot[i].results.len()
            implies #[trigger] s1.multishot[i].results[j] != i32::MIN by {
        if !(kind == IoKind::Multi && i == slot) {
            assert(s0.multishot.contains_key(i));
        }
    }
}

/// One completion keeps a reactor consistent.
proof fn lemma_complete_wf(s: RingState, c: Completion)
    requires
        ring_wf(s),
        s.pending.contains_key(c.user_data as usize),
        c.result != i32::MIN,
    ensures
        ring_wf(complete_spec(s, c)),
{
    let k = c.user_data as usize;
    let p = s.pending[k];
    let slot = p.result_slab_idx;
    let t = complete_spec(s, c);
    assert forall|k2: usize| #[trigger] t.pending.contains_key(k2) implies {
        let q = t.pending[k2];
        match q.kind {
            IoKind::Oneshot => t.oneshot.contains_key(q.result_slab_idx) && !(
            t.oneshot[q.result_slab_idx] is Ready),
            IoKind::Multi => t.multishot.contains_key(q.result_slab_idx)
                && !t.multishot[q.result_slab_idx].finished,
        }
    } by {
        assert(s.pending.contains_key(k2));
        if k2 != k {
            assert(s.pending[k2] == t.pending[k2]);
            if s.pending[k2].kind == p.kind {
                assert(s.pending[k2].result_slab_idx != slot);
            }
        }
    }
    assert forall|i: usize| #[trigger] t.oneshot.contains_key(i) implies match t.oneshot[i] {
        ResultState::Ready(v) => v != i32::MIN,
        _ => true,
    } by {
        assert(s.oneshot.contains_key(i));
    }
    assert forall|i: usize, j: int| #[trigger]
        t.multishot.contains_key(i) && 0 <= j < t.multishot[i].results.len()
            implies #[trigger] t.multishot[i].results[j] != i32::MIN by {
        assert(s.multishot.contains_key(i));
        if p.kind == IoKind::Multi && i == slot {
            let old_r = s.multishot[slot].results;
            let new_r = ring_pushed(old_r, c.result);
            assert(t.multishot[i].results == new_r);
            if j < new_r.len() - 1 {
                if old_r.len() >= RING_CAPACITY {
                    assert(new_r[j] == old_r[j + 1]);
                } else {
                    assert(new_r[j] == old_r[j]);
                }
            }
        }
    }
}

} // verus!

verus! {

// ---------------------------------------------------------------------------
// Laws of the reactor.
// ---------------------------------------------------------------------------

/// An operation submitted as oneshot whose completion is then processed is
/// reported once with its object; asking its slot then gives the completion
/// value, and afterwards the reactor is exactly as it was before the
/// submission: nothing of the operation is left behind.
pub proof fn law_oneshot_roundtrip(
    s: RingState,
    obj: u64,
    key: usize,
    slot: usize,
    result: i32,
)
    requires
        !s.pending.contains_key(key),
        !s.oneshot.contains_key(slot),
        key as u64 as usize == key,
    ensures
        ({
            let s1 = submit_spec(s, obj, IoKind::Oneshot, key, slot);
            let c = Completion { user_data: key as u64, result: result };
            let r = react_spec(s1, seq![c]);
            &&& r.1 == seq![obj]
            &&& r.2 is None
            &&& oneshot_get_spec(r.0.oneshot, slot) == Some(result)
            &&& with_oneshot(r.0, oneshot_after_get_spec(r.0.oneshot, slot)) == s
        }),
{
    let s1 = submit_spec(s, obj, IoKind::Oneshot, key, slot);
    let c = Completion { user_data: key as u64, result: result };
    let s2 = complete_spec(s1, c);
    reveal_with_fuel(react_spec, 2);
    assert(seq![c].drop_first() =~= Seq::<Completion>::empty());
    assert(seq![obj] + Seq::<u64>::empty() =~= seq![obj]);
    assert(s2.pending =~= s.pending);
    assert(s2.oneshot.remove(slot) =~= s.oneshot);
}

/// An operation submitted as oneshot whose handle is released before the
/// completion arrives is still reported once with its object when the
/// completion is processed, and afterwards the reactor is exactly as it was
/// before the submission.
pub proof fn law_oneshot_dropped_roundtrip(
    s: RingState,
    obj: u64,
    key: usize,
    slot: usize,
    result: i32,
)
    requires
        !s.pending.contains_key(key),
        !s.oneshot.contains_key(slot),
        key as u64 as usize == key,
    ensures
        ({
            let s1 = submit_spec(s, obj, IoKind::Oneshot, key, slot);
            let s2 = with_oneshot(s1, oneshot_drop_spec(s1.oneshot, slot));
            let c = Completion { user_data: key as u64, result: result };
            react_spec(s2, seq![c]) == (s, seq![obj], None::<int>)
        }),
{
    let s1 = submit_spec(s, obj, IoKind::Oneshot, key, slot);
    let s2 = with_oneshot(s1, oneshot_drop_spec(s1.oneshot, slot));
    let c = Completion { user_data: key as u64, result: result };
    let s3 = complete_spec(s2, c);
    reveal_with_fuel(react_spec, 2);
    assert(seq![c].drop_first() =~= Seq::<Completion>::empty());
    assert(seq![obj] + Seq::<u64>::empty() =~= seq![obj]);
    assert(s3.pending =~= s.pending);
    assert(s3.oneshot =~= s.oneshot);
    assert(s3 == s);
}

/// The completion values of a batch of completions.
pub open spec fn completion_results(cs: Seq<Completion>) -> Seq<i32> {
    cs.map_values(|c: Completion| c.result)
}

/// The slot `sv` with its waiting values replaced by `rs`.
pub open spec fn slot_with_results(sv: MultishotSlotView, rs: Seq<i32>) -> MultishotSlotView {
    MultishotSlotView { results: rs, ..sv }
}

/// Completions of a multishot operation are each reported with the
/// operation's object, and their values queue up in the operation's slot in
/// the order in which they arrived (as long as the slot's ring does not
/// overflow); the operation stays in flight, and nothing else changes.
pub proof fn law_multishot_completions_in_order(s: RingState, key: usize, cs: Seq<Completion>)
    requires
        s.pending.contains_key(key),
        s.pending[key].kind == IoKind::Multi,
        s.multishot.contains_key(s.pending[key].result_slab_idx),
        s.multishot[s.pending[key].result_slab_idx].results.len() + cs.len() <= RING_CAPACITY,
        forall|i: int|
            #![trigger cs[i]]
            0 <= i < cs.len() ==> cs[i].user_data as usize == key,
    ensures
        ({
            let slot = s.pending[key].result_slab_idx;
            let sv = s.multishot[slot];
            let r = react_spec(s, cs);
            &&& r.2 is None
            &&& r.1 == Seq::new(cs.len(), |i: int| s.pending[key].assoc_obj)
            &&& r.0 == with_multishot(
                s,
                s.multishot.insert(slot, slot_with_results(sv, sv.results + completion_results(cs))),
            )
        }),
    decreases cs.len(),
{
    let p = s.pending[key];
    let slot = p.result_slab_idx;
    let sv = s.multishot[slot];
    if cs.len() == 0 {
        assert(sv.results + completion_results(cs) =~= sv.results);
        assert(s.multishot.insert(slot, slot_with_results(sv, sv.results)) =~= s.multishot);
        assert(with_multishot(s, s.multishot) == s);
        assert(Seq::new(0, |i: int| p.assoc_obj) =~= Seq::<u64>::empty());
    } else {
        let c = cs[0];
        assert(c.user_data as usize == key);
        let s1 = complete_spec(s, c);
        assert(s1 == with_multishot(s, s.multishot.insert(slot, slot_pushed(sv, c.result))));
        let rest = cs.drop_first();
        assert forall|i: int| #![trigger rest[i]] 0 <= i < rest.len() implies rest[i].user_data as usize
            == key by {
            assert(rest[i] == cs[i + 1]);
        }
        assert(s1.pending[key] == p);
        law_multishot_completions_in_order(s1, key, rest);
        let sv1 = s1.multishot[slot];
        assert(sv1.results == sv.results.push(c.result));
        assert(sv1.results + completion_results(rest) =~= sv.results + completion_results(cs));
        assert(seq![p.assoc_obj] + Seq::new(rest.len(), |i: int| p.assoc_obj) =~= Seq::new(
            cs.len(),
            |i: int| p.assoc_obj,
        ));
        assert(s1.multishot.insert(slot, slot_with_results(sv1, sv1.results + completion_results(rest)))
            =~= s.multishot.insert(slot, slot_with_results(sv, sv.results + completion_results(cs))));
    }
}

/// An operation just submitted is in flight under its key with its object,
/// slot and kind, and has no result yet: its oneshot slot answers nothing,
/// its multishot slot answers pending; every other record and slot is as it
/// was.
pub proof fn law_submit_fresh(s: RingState, obj: u64, kind: IoKind, key: usize, slot: usize)
    ensures
        ({
            let t = submit_spec(s, obj, kind, key, slot);
            &&& t.pending.contains_key(key)
            &&& t.pending[key] == (PendingIo { assoc_obj: obj, result_slab_idx: slot, kind: kind })
            &&& forall|k: usize|
                k != key ==> (#[trigger] t.pending.contains_key(k) <==> s.pending.contains_key(k))
            &&& forall|k: usize| k != key && s.pending.contains_key(k) ==> #[trigger] t.pending[k] == s.pending[k]
            &&& kind == IoKind::Oneshot ==> {
                &&& t.oneshot.contains_key(slot)
                &&& oneshot_get_spec(t.oneshot, slot) is None
                &&& t.oneshot[slot] != ResultState::Dropped
                &&& t.multishot == s.multishot
                &&& forall|i: usize| i != slot ==> (#[trigger] t.oneshot.contains_key(i) <==> s.oneshot.contains_key(i))
            }
            &&& kind == IoKind::Multi ==> {
                &&& t.multishot.contains_key(slot)
                &&& multishot_pop_spec(t.multishot[slot]) == MultishotResult::Pending
                &&& !t.multishot[slot].dropped
                &&& t.oneshot == s.oneshot
                &&& forall|i: usize| i != slot ==> (#[trigger] t.multishot.contains_key(i) <==> s.multishot.contains_key(i))
            }
        }),
{
}

} // verus!
