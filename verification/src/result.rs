//! Stores for the results of submitted I/O operations.
//!
//! Every submitted operation owns one slot in one of two stores. A oneshot
//! slot receives a single completion value; a multishot slot receives a stream
//! of values followed by a final "finished" mark. A slot lives until both of
//! its users are done with it: the completion side (the kernel) and the
//! waiting side (the future that submitted the operation). Whichever side
//! finishes second frees the slot.
use ringbuffer::{ConstGenericRingBuffer, RingBuffer};
use slab::Slab;
use vstd::prelude::*;

verus! {

#[verifier::external_type_specification]
#[verifier::external_body]
#[verifier::reject_recursive_types(T)]
pub struct ExSlab<T>(Slab<T>);

#[verifier::external_type_specification]
#[verifier::external_body]
#[verifier::reject_recursive_types(T)]
pub struct ExConstGenericRingBuffer<T, const CAP: usize>(ConstGenericRingBuffer<T, CAP>);

/// How many completion values a multishot slot keeps before the oldest one is
/// overwritten.
pub const RING_CAPACITY: usize = 1024;

// ---------------------------------------------------------------------------
// The ring buffer of multishot values.
// ---------------------------------------------------------------------------

/// The values held by a ring buffer, oldest first.
pub uninterp spec fn ring_items(r: ConstGenericRingBuffer<i32, 1024>) -> Seq<i32>;

/// What a push does to the values of a full-capacity ring: when the ring is
/// full, the oldest value is dropped to make room.
pub open spec fn ring_pushed(s: Seq<i32>, v: i32) -> Seq<i32> {
    if s.len() >= RING_CAPACITY {
        s.drop_first().push(v)
    } else {
        s.push(v)
    }
}

/// `ConstGenericRingBuffer::new`: a ring holding no value.
#[verifier::external_body]
fn ring_new() -> (r: ConstGenericRingBuffer<i32, 1024>)
    ensures
        ring_items(r) == Seq::<i32>::empty(),
{
    ConstGenericRingBuffer::<i32, 1024>::new()
}

/// `RingBuffer::push` on a ring of capacity 1024: appends the value; on a
/// full ring the oldest value is dequeued first (`enqueue` in the crate).
#[verifier::external_body]
#[allow(deprecated)]
fn ring_push(r: &mut ConstGenericRingBuffer<i32, 1024>, v: i32)
    ensures
        ring_items(*final(r)) == ring_pushed(ring_items(*old(r)), v),
        ring_items(*final(r)).len() <= RING_CAPACITY,
{
    r.push(v)
}

/// `RingBuffer::dequeue`: removes and returns the oldest value, or `None`
/// when the ring is empty.
#[verifier::external_body]
fn ring_dequeue(r: &mut ConstGenericRingBuffer<i32, 1024>) -> (v: Option<i32>)
    ensures
        ring_items(*old(r)).len() == 0 ==> v is None && ring_items(*final(r)) == ring_items(
            *old(r),
        ),
        ring_items(*old(r)).len() > 0 ==> v == Some(ring_items(*old(r))[0]) && ring_items(
            *final(r),
        ) == ring_items(*old(r)).drop_first(),
{
    r.dequeue()
}

// ---------------------------------------------------------------------------
// Oneshot results.
// ---------------------------------------------------------------------------

/// The state of a oneshot result slot.
#[derive(Clone, Copy, PartialEq, Eq, Structural, Debug)]
pub enum ResultState {
    /// The operation has not completed yet.
    Pending,
    /// The operation completed with this value; nobody has taken it yet.
    Ready(i32),
    /// The waiting side went away before the operation completed.
    Dropped,
}

/// The occupied slots of a slab of oneshot states, by key.
pub uninterp spec fn oneshot_slots(s: Slab<ResultState>) -> Map<usize, ResultState>;

/// `Slab::new`: an empty slab.
#[verifier::external_body]
fn oneshot_slab_new() -> (slab: Slab<ResultState>)
    ensures
        (oneshot_slots(slab) == Map::<usize, ResultState>::empty()),
{
    Slab::new()
}

/// `Slab::is_empty`: whether no key is occupied (the slab's `len` counts the
/// occupied entries).
#[verifier::external_body]
fn oneshot_slab_is_empty(s: &Slab<ResultState>) -> (b: bool)
    ensures
        b == (oneshot_slots(*s).dom() == Set::<usize>::empty()),
{
    s.is_empty()
}

/// `Slab::insert`: stores the value under a key that was vacant and returns
/// that key.
#[verifier::external_body]
fn oneshot_slab_insert(s: &mut Slab<ResultState>, v: ResultState) -> (k: usize)
    ensures
        !oneshot_slots(*old(s)).contains_key(k),
        oneshot_slots(*final(s)) == oneshot_slots(*old(s)).insert(k, v),
{
    s.insert(v)
}

/// `Slab::get`, the found state copied out.
#[verifier::external_body]
fn oneshot_slab_get(s: &Slab<ResultState>, k: usize) -> (r: Option<ResultState>)
    ensures
        r == (if oneshot_slots(*s).contains_key(k) {
            Some(oneshot_slots(*s)[k])
        } else {
            None
        }),
{
    s.get(k).copied()
}

/// `Slab::index_mut`: overwrites the value of an occupied key (it panics on a
/// vacant one, which `requires` leaves out).
#[verifier::external_body]
fn oneshot_slab_set(s: &mut Slab<ResultState>, k: usize, v: ResultState)
    requires
        oneshot_slots(*old(s)).contains_key(k),
    ensures
        oneshot_slots(*final(s)) == oneshot_slots(*old(s)).insert(k, v),
{
    s[k] = v;
}

/// `Slab::remove`: frees an occupied key and returns its value (it panics on
/// a vacant one, which `requires` leaves out).
#[verifier::external_body]
fn oneshot_slab_remove(s: &mut Slab<ResultState>, k: usize) -> (v: ResultState)
    requires
        oneshot_slots(*old(s)).contains_key(k),
    ensures
        v == oneshot_slots(*old(s))[k],
        oneshot_slots(*final(s)) == oneshot_slots(*old(s)).remove(k),
{
    s.remove(k)
}

/// What `set_result` does to a oneshot store.
pub open spec fn oneshot_set_spec(m: Map<usize, ResultState>, result: i32, idx: usize) -> Map<
    usize,
    ResultState,
> {
    if m[idx] == ResultState::Dropped {
        m.remove(idx)
    } else {
        m.insert(idx, ResultState::Ready(result))
    }
}

/// What `get_result` returns from a oneshot store.
pub open spec fn oneshot_get_spec(m: Map<usize, ResultState>, idx: usize) -> Option<i32> {
    match m[idx] {
        ResultState::Ready(r) => Some(r),
        _ => None,
    }
}

/// What `get_result` leaves in a oneshot store.
pub open spec fn oneshot_after_get_spec(m: Map<usize, ResultState>, idx: usize) -> Map<
    usize,
    ResultState,
> {
    match m[idx] {
        ResultState::Ready(_) => m.remove(idx),
        _ => m,
    }
}

/// What `drop_result` does to a oneshot store.
pub open spec fn oneshot_drop_spec(m: Map<usize, ResultState>, idx: usize) -> Map<
    usize,
    ResultState,
> {
    match m[idx] {
        ResultState::Ready(_) => m.remove(idx),
        _ => m.insert(idx, ResultState::Dropped),
    }
}

/// Result slots of oneshot operations, by slot key.
pub struct OneshotStore(Slab<ResultState>);

impl View for OneshotStore {
    type V = Map<usize, ResultState>;

    closed spec fn view(&self) -> Map<usize, ResultState> {
        oneshot_slots(self.0)
    }
}

impl OneshotStore {
    /// An empty store.
    pub fn new() -> (s: Self)
        ensures
            s@ == Map::<usize, ResultState>::empty(),
    {
        OneshotStore(oneshot_slab_new())
    }

    /// Whether no slot is in use.
    pub fn is_empty(&self) -> (b: bool)
        ensures
            b == (self@.dom() == Set::<usize>::empty()),
    {
        oneshot_slab_is_empty(&self.0)
    }

    /// Record the completion value of the operation owning slot `idx`. If the
    /// waiting side has already gone, the slot is freed instead.
    pub fn set_result(&mut self, result: i32, idx: usize)
        requires
            old(self)@.contains_key(idx),
        ensures
            final(self)@ == oneshot_set_spec(old(self)@, result, idx),
    {
        let st = oneshot_slab_get(&self.0, idx);
        match st {
            Some(ResultState::Dropped) => {
                oneshot_slab_remove(&mut self.0, idx);
            },
            _ => {
                oneshot_slab_set(&mut self.0, idx, ResultState::Ready(result));
            },
        }
    }

    /// Take the completion value of slot `idx`, if it has arrived; taking it
    /// frees the slot. A slot whose waiting side has gone cannot be asked.
    pub fn get_result(&mut self, idx: usize) -> (r: Option<i32>)
        requires
            old(self)@.contains_key(idx),
            old(self)@[idx] != ResultState::Dropped,
        ensures
            r == oneshot_get_spec(old(self)@, idx),
            final(self)@ == oneshot_after_get_spec(old(self)@, idx),
    {
        let st = oneshot_slab_get(&self.0, idx);
        match st {
            Some(ResultState::Ready(result)) => {
                oneshot_slab_remove(&mut self.0, idx);
                Some(result)
            },
            _ => None,
        }
    }

    /// The waiting side of slot `idx` goes away. A value that has already
    /// arrived is discarded with its slot; otherwise the slot is marked so that
    /// the completion frees it.
    pub fn drop_result(&mut self, idx: usize)
        requires
            old(self)@.contains_key(idx),
        ensures
            final(self)@ == oneshot_drop_spec(old(self)@, idx),
    {
        let st = oneshot_slab_get(&self.0, idx);
        match st {
            Some(ResultState::Ready(_)) => {
                oneshot_slab_remove(&mut self.0, idx);
            },
            _ => {
                oneshot_slab_set(&mut self.0, idx, ResultState::Dropped);
            },
        }
    }

    /// Reserve a fresh slot for a new operation.
    pub fn create_slot(&mut self) -> (idx: usize)
        ensures
            !old(self)@.contains_key(idx),
            final(self)@ == old(self)@.insert(idx, ResultState::Pending),
    {
        oneshot_slab_insert(&mut self.0, ResultState::Pending)
    }
}

// ---------------------------------------------------------------------------
// Multishot results.
// ---------------------------------------------------------------------------

/// The state of a multishot result slot.
pub struct MultishotResultState {
    results: ConstGenericRingBuffer<i32, 1024>,
    dropped: bool,
    finished: bool,
}

/// The abstract state of a multishot slot.
pub struct MultishotSlotView {
    /// Completion values not yet taken, oldest first.
    pub results: Seq<i32>,
    /// The waiting side went away.
    pub dropped: bool,
    /// The operation will produce no further value.
    pub finished: bool,
}

impl MultishotResultState {
    /// The abstract state of the slot.
    pub closed spec fn slot_view(self) -> MultishotSlotView {
        MultishotSlotView {
            results: ring_items(self.results),
            dropped: self.dropped,
            finished: self.finished,
        }
    }
}

/// The occupied slots of a slab of multishot states, by key.
pub uninterp spec fn multishot_slots(s: Slab<MultishotResultState>) -> Map<
    usize,
    MultishotResultState,
>;

/// `Slab::new`: an empty slab.
#[verifier::external_body]
fn multishot_slab_new() -> (slab: Slab<MultishotResultState>)
    ensures
        (multishot_slots(slab) == Map::<usize, MultishotResultState>::empty()),
{
    Slab::new()
}

/// `Slab::is_empty`: whether no key is occupied.
#[verifier::external_body]
fn multishot_slab_is_empty(s: &Slab<MultishotResultState>) -> (b: bool)
    ensures
        b == (multishot_slots(*s).dom() == Set::<usize>::empty()),
{
    s.is_empty()
}

/// `Slab::insert`: stores the value under a key that was vacant and returns
/// that key.
#[verifier::external_body]
fn multishot_slab_insert(s: &mut Slab<MultishotResultState>, v: MultishotResultState) -> (k: usize)
    ensures
        !multishot_slots(*old(s)).contains_key(k),
        multishot_slots(*final(s)) == multishot_slots(*old(s)).insert(k, v),
{
    s.insert(v)
}

/// `Slab::index_mut`: a mutable borrow of the value of an occupied key (it
/// panics on a vacant one, which `requires` leaves out); what is written
/// through the borrow becomes the key's value.
#[verifier::external_body]
fn multishot_slab_get_mut<'a>(s: &'a mut Slab<MultishotResultState>, k: usize) -> (r: &'a mut MultishotResultState)
    requires
        multishot_slots(*old(s)).contains_key(k),
    ensures
        *r == multishot_slots(*old(s))[k],
        multishot_slots(*final(s)) == multishot_slots(*old(s)).insert(k, *final(r)),
{
    &mut s[k]
}

/// `Slab::remove`: frees an occupied key (it panics on a vacant one, which
/// `requires` leaves out).
#[verifier::external_body]
fn multishot_slab_remove(s: &mut Slab<MultishotResultState>, k: usize) -> (v: MultishotResultState)
    requires
        multishot_slots(*old(s)).contains_key(k),
    ensures
        v == multishot_slots(*old(s))[k],
        multishot_slots(*final(s)) == multishot_slots(*old(s)).remove(k),
{
    s.remove(k)
}

/// What a multishot slot looks like once the value `v` has been pushed.
pub open spec fn slot_pushed(s: MultishotSlotView, v: i32) -> MultishotSlotView {
    MultishotSlotView { results: ring_pushed(s.results, v), ..s }
}

/// What `pop_result` returns for a multishot slot.
pub open spec fn multishot_pop_spec(s: MultishotSlotView) -> MultishotResult {
    if s.results.len() > 0 {
        MultishotResult::Value(s.results[0])
    } else if s.finished {
        MultishotResult::Finished
    } else {
        MultishotResult::Pending
    }
}

/// What `pop_result` leaves of a multishot slot.
pub open spec fn multishot_after_pop_spec(s: MultishotSlotView) -> MultishotSlotView {
    if s.results.len() > 0 {
        MultishotSlotView { results: s.results.drop_first(), ..s }
    } else {
        s
    }
}

/// What `drop_result` does to a multishot store.
pub open spec fn multishot_drop_spec(m: Map<usize, MultishotSlotView>, idx: usize) -> Map<
    usize,
    MultishotSlotView,
> {
    if m[idx].finished {
        m.remove(idx)
    } else {
        m.insert(idx, MultishotSlotView { dropped: true, ..m[idx] })
    }
}

/// What `set_finished` does to a multishot store.
pub open spec fn multishot_finish_spec(m: Map<usize, MultishotSlotView>, idx: usize) -> Map<
    usize,
    MultishotSlotView,
> {
    if m[idx].dropped {
        m.remove(idx)
    } else {
        m.insert(idx, MultishotSlotView { finished: true, ..m[idx] })
    }
}

/// The outcome of asking a multishot slot for its next value.
#[derive(Clone, Copy, PartialEq, Eq, Structural, Debug)]
pub enum MultishotResult {
    /// The oldest value not yet taken.
    Value(i32),
    /// No value has arrived yet; more may come.
    Pending,
    /// Every value has been taken and no further value will come.
    Finished,
}

/// Result slots of multishot operations, by slot key.
pub struct MultishotStore(Slab<MultishotResultState>);

impl View for MultishotStore {
    type V = Map<usize, MultishotSlotView>;

    closed spec fn view(&self) -> Map<usize, MultishotSlotView> {
        multishot_slots(self.0).map_values(|s: MultishotResultState| s.slot_view())
    }
}

impl MultishotStore {
    /// An empty store.
    pub fn new() -> (s: Self)
        ensures
            s@ == Map::<usize, MultishotSlotView>::empty(),
    {
        let s = MultishotStore(multishot_slab_new());
        assert(s@ =~= Map::<usize, MultishotSlotView>::empty());
        s
    }

    /// Whether no slot is in use.
    pub fn is_empty(&self) -> (b: bool)
        ensures
            b == (self@.dom() == Set::<usize>::empty()),
    {
        let b = multishot_slab_is_empty(&self.0);
        assert(self@.dom() =~= multishot_slots(self.0).dom());
        b
    }

    /// Append a completion value to slot `idx`.
    pub fn push_result(&mut self, result: i32, idx: usize)
        requires
            old(self)@.contains_key(idx),
        ensures
            final(self)@ == old(self)@.insert(idx, slot_pushed(old(self)@[idx], result)),
    {
        let st = multishot_slab_get_mut(&mut self.0, idx);
        ring_push(&mut st.results, result);
        assert(final(self)@ =~= old(self)@.insert(idx, slot_pushed(old(self)@[idx], result)));
    }

    /// Take the oldest value of slot `idx`, or say that none is there yet, or
    /// that the operation is over.
    pub fn pop_result(&mut self, idx: usize) -> (r: MultishotResult)
        requires
            old(self)@.contains_key(idx),
        ensures
            r == multishot_pop_spec(old(self)@[idx]),
            final(self)@ == old(self)@.insert(idx, multishot_after_pop_spec(old(self)@[idx])),
    {
        let st = multishot_slab_get_mut(&mut self.0, idx);
        let r = match ring_dequeue(&mut st.results) {
            Some(v) => MultishotResult::Value(v),
            None => {
                if st.finished {
                    MultishotResult::Finished
                } else {
                    MultishotResult::Pending
                }
            },
        };
        assert(final(self)@ =~= old(self)@.insert(idx, multishot_after_pop_spec(old(self)@[idx])));
        r
    }

    /// The waiting side of slot `idx` goes away. A finished slot is freed;
    /// otherwise it is marked so that the end of the operation frees it.
    pub fn drop_result(&mut self, idx: usize)
        requires
            old(self)@.contains_key(idx),
        ensures
            final(self)@ == multishot_drop_spec(old(self)@, idx),
    {
        let ghost m = old(self)@;
        let st = multishot_slab_get_mut(&mut self.0, idx);
        if st.finished {
            multishot_slab_remove(&mut self.0, idx);
            assert(final(self)@ =~= multishot_drop_spec(m, idx));
        } else {
            st.dropped = true;
            assert(final(self)@ =~= multishot_drop_spec(m, idx));
        }
    }

    /// Reserve a fresh slot for a new operation.
    pub fn create_slot(&mut self) -> (idx: usize)
        ensures
            !old(self)@.contains_key(idx),
            final(self)@ == old(self)@.insert(
                idx,
                MultishotSlotView { results: Seq::empty(), dropped: false, finished: false },
            ),
    {
        let st = MultishotResultState { results: ring_new(), dropped: false, finished: false };
        let idx = multishot_slab_insert(&mut self.0, st);
        assert(final(self)@ =~= old(self)@.insert(
            idx,
            MultishotSlotView { results: Seq::empty(), dropped: false, finished: false },
        ));
        idx
    }

    /// The operation owning slot `idx` will produce no further value. If the
    /// waiting side has already gone, the slot is freed.
    pub fn set_finished(&mut self, idx: usize)
        requires
            old(self)@.contains_key(idx),
        ensures
            final(self)@ == multishot_finish_spec(old(self)@, idx),
    {
        let ghost m = old(self)@;
        let st = multishot_slab_get_mut(&mut self.0, idx);
        if st.dropped {
            multishot_slab_remove(&mut self.0, idx);
            assert(final(self)@ =~= multishot_finish_spec(m, idx));
        } else {
            st.finished = true;
            assert(final(self)@ =~= multishot_finish_spec(m, idx));
        }
    }
}

// ---------------------------------------------------------------------------
// Both stores.
// ---------------------------------------------------------------------------

/// The result stores of a ring.
pub struct RingResults {
    oneshot: OneshotStore,
    multishot: MultishotStore,
}

impl RingResults {
    /// The oneshot slots.
    pub closed spec fn oneshot_view(&self) -> Map<usize, ResultState> {
        self.oneshot@
    }

    /// The multishot slots.
    pub closed spec fn multishot_view(&self) -> Map<usize, MultishotSlotView> {
        self.multishot@
    }

    /// Both stores empty.
    pub fn new() -> (r: Self)
        ensures
            r.oneshot_view() == Map::<usize, ResultState>::empty(),
            r.multishot_view() == Map::<usize, MultishotSlotView>::empty(),
    {
        RingResults { oneshot: OneshotStore::new(), multishot: MultishotStore::new() }
    }

    /// The oneshot store, to be worked on in place.
    pub fn get_oneshot(&mut self) -> (s: &mut OneshotStore)
        ensures
            s@ == old(self).oneshot_view(),
            final(self).oneshot_view() == final(s)@,
            final(self).multishot_view() == old(self).multishot_view(),
    {
        &mut self.oneshot
    }

    /// The multishot store, to be worked on in place.
    pub fn get_multishot(&mut self) -> (s: &mut MultishotStore)
        ensures
            s@ == old(self).multishot_view(),
            final(self).multishot_view() == final(s)@,
            final(self).oneshot_view() == old(self).oneshot_view(),
    {
        &mut self.multishot
    }

    /// Whether no slot of either kind is in use.
    pub fn is_empty(&self) -> (b: bool)
        ensures
            b == (self.oneshot_view().dom() == Set::<usize>::empty()
                && self.multishot_view().dom() == Set::<usize>::empty()),
    {
        self.oneshot.is_empty() && self.multishot.is_empty()
    }
}

} // verus!

verus! {

// ---------------------------------------------------------------------------
// Laws of the result stores.
// ---------------------------------------------------------------------------

/// A oneshot slot that receives its value and is then asked for it hands out
/// exactly that value, and the slot is freed.
pub proof fn law_oneshot_set_then_get(m: Map<usize, ResultState>, idx: usize, result: i32)
    requires
        m.contains_key(idx),
        m[idx] == ResultState::Pending,
    ensures
        oneshot_get_spec(oneshot_set_spec(m, result, idx), idx) == Some(result),
        oneshot_after_get_spec(oneshot_set_spec(m, result, idx), idx) == m.remove(idx),
{
    assert(oneshot_set_spec(m, result, idx).remove(idx) =~= m.remove(idx));
}

/// Asking a oneshot slot whose value has not arrived gives nothing and
/// changes nothing.
pub proof fn law_oneshot_get_pending(m: Map<usize, ResultState>, idx: usize)
    requires
        m.contains_key(idx),
        m[idx] == ResultState::Pending,
    ensures
        oneshot_get_spec(m, idx) is None,
        oneshot_after_get_spec(m, idx) == m,
{
}

/// A oneshot slot is freed by whichever of its two sides is done last: the
/// completion after the waiting side went away, or the waiting side going
/// away after the completion.
pub proof fn law_oneshot_slot_freed(m: Map<usize, ResultState>, idx: usize, result: i32)
    requires
        m.contains_key(idx),
        m[idx] == ResultState::Pending,
    ensures
        oneshot_set_spec(oneshot_drop_spec(m, idx), result, idx) == m.remove(idx),
        oneshot_drop_spec(oneshot_set_spec(m, result, idx), idx) == m.remove(idx),
{
    assert(oneshot_drop_spec(m, idx).remove(idx) =~= m.remove(idx));
    assert(oneshot_set_spec(m, result, idx).remove(idx) =~= m.remove(idx));
}

/// A slot after the values `vs` have been pushed, in order.
pub open spec fn slot_pushed_all(s: MultishotSlotView, vs: Seq<i32>) -> MultishotSlotView
    decreases vs.len(),
{
    if vs.len() == 0 {
        s
    } else {
        slot_pushed_all(slot_pushed(s, vs[0]), vs.drop_first())
    }
}

/// Multishot values leave a slot in the order in which they arrived: as long
/// as the ring does not overflow, pushing `vs` appends them behind the values
/// already waiting, and the other parts of the slot stay as they were.
pub proof fn law_multishot_in_order(s: MultishotSlotView, vs: Seq<i32>)
    requires
        s.results.len() + vs.len() <= RING_CAPACITY,
    ensures
        slot_pushed_all(s, vs).results == s.results + vs,
        slot_pushed_all(s, vs).dropped == s.dropped,
        slot_pushed_all(s, vs).finished == s.finished,
    decreases vs.len(),
{
    if vs.len() > 0 {
        let s1 = slot_pushed(s, vs[0]);
        law_multishot_in_order(s1, vs.drop_first());
        assert(s1.results + vs.drop_first() =~= s.results + vs);
    } else {
        assert(s.results + vs =~= s.results);
    }
}

/// A finished multishot slot whose values have all been taken answers
/// `Finished`; an unfinished empty one answers `Pending`; and a non-empty one
/// hands out its oldest value.
pub proof fn law_multishot_pop_answers(s: MultishotSlotView)
    ensures
        s.results.len() == 0 && s.finished ==> multishot_pop_spec(s) == MultishotResult::Finished,
        s.results.len() == 0 && !s.finished ==> multishot_pop_spec(s) == MultishotResult::Pending,
        s.results.len() > 0 ==> multishot_pop_spec(s) == MultishotResult::Value(s.results[0])
            && multishot_after_pop_spec(s).results == s.results.drop_first(),
{
}

/// A multishot slot is freed by whichever of its two sides is done last:
/// the end of the operation after the waiting side went away, or the
/// waiting side going away after the end of the operation.
pub proof fn law_multishot_slot_freed(m: Map<usize, MultishotSlotView>, idx: usize)
    requires
        m.contains_key(idx),
        !m[idx].dropped,
        !m[idx].finished,
    ensures
        multishot_finish_spec(multishot_drop_spec(m, idx), idx) == m.remove(idx),
        multishot_drop_spec(multishot_finish_spec(m, idx), idx) == m.remove(idx),
{
    assert(multishot_drop_spec(m, idx).remove(idx) =~= m.remove(idx));
    assert(multishot_finish_spec(m, idx).remove(idx) =~= m.remove(idx));
}

} // verus!
