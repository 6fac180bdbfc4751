//! The scheduling state of a per-thread executor.
//!
//! Tasks are known here by a handle (the caller keeps the futures). A task
//! is either queued to run or parked waiting for a wakeup; a parked task is
//! found again by the key it was parked under, which its waker carries.
//! The executor loop is a state machine: [Executor::loop_top] (at the start
//! and after each wait for the reactor) and [Executor::after_poll] take the
//! outcome of the outside work just done (waiting for the reactor, polling a
//! task) and name the next piece of outside work, which the caller performs,
//! or say that no task is left.
use slab::Slab;
use vstd::prelude::*;

verus! {

/// The occupied slots of a slab of parked task handles, by key.
pub uninterp spec fn parked_slots(s: Slab<usize>) -> Map<usize, usize>;

/// `Slab::new`: an empty slab.
#[verifier::external_body]
fn parked_slab_new() -> (slab: Slab<usize>)
    ensures
        (parked_slots(slab) == Map::<usize, usize>::empty()),
{
    Slab::new()
}

/// `Slab::is_empty`: whether no key is occupied.
#[verifier::external_body]
fn parked_slab_is_empty(s: &Slab<usize>) -> (b: bool)
    ensures
        b == (parked_slots(*s).dom() == Set::<usize>::empty()),
{
    s.is_empty()
}

/// `Slab::insert`: stores the value under a key that was vacant and returns
/// that key.
#[verifier::external_body]
fn parked_slab_insert(s: &mut Slab<usize>, v: usize) -> (k: usize)
    ensures
        !parked_slots(*old(s)).contains_key(k),
        parked_slots(*final(s)) == parked_slots(*old(s)).insert(k, v),
{
    s.insert(v)
}

/// `Slab::try_remove`: frees the key and returns its value if it was
/// occupied; otherwise returns `None` and changes nothing.
#[verifier::external_body]
fn parked_slab_try_remove(s: &mut Slab<usize>, k: usize) -> (v: Option<usize>)
    ensures
        parked_slots(*old(s)).contains_key(k) ==> v == Some(parked_slots(*old(s))[k])
            && parked_slots(*final(s)) == parked_slots(*old(s)).remove(k),
        !parked_slots(*old(s)).contains_key(k) ==> v is None && parked_slots(*final(s))
            == parked_slots(*old(s)),
{
    s.try_remove(k)
}

/// The scheduling state: tasks queued to run, and parked tasks by key.
pub struct ExecutorView {
    /// Queued tasks; the last one runs next.
    pub run_q: Seq<usize>,
    /// Parked tasks, by the key their waker carries.
    pub waiting: Map<usize, usize>,
}

/// The state after waking the key `key`: the task parked under it, if any,
/// joins the run queue.
pub open spec fn wake_spec(s: ExecutorView, key: usize) -> ExecutorView {
    if s.waiting.contains_key(key) {
        ExecutorView { run_q: s.run_q.push(s.waiting[key]), waiting: s.waiting.remove(key) }
    } else {
        s
    }
}

/// The scheduling state of a per-thread executor.
pub struct Executor {
    waiting: Slab<usize>,
    run_q: Vec<usize>,
}

impl View for Executor {
    type V = ExecutorView;

    closed spec fn view(&self) -> ExecutorView {
        ExecutorView { run_q: self.run_q@, waiting: parked_slots(self.waiting) }
    }
}

impl Executor {
    /// No task at all.
    pub fn new() -> (e: Self)
        ensures
            e@.run_q == Seq::<usize>::empty(),
            e@.waiting == Map::<usize, usize>::empty(),
    {
        Executor { waiting: parked_slab_new(), run_q: Vec::new() }
    }

    /// Queue a new task to run.
    pub fn spawn(&mut self, task: usize)
        ensures
            final(self)@.run_q == old(self)@.run_q.push(task),
            final(self)@.waiting == old(self)@.waiting,
    {
        self.run_q.push(task);
    }

    /// A waker with key `key` fires: the task parked under `key`, if any,
    /// is queued to run again. A key with no parked task is ignored.
    pub fn wake(&mut self, key: usize)
        ensures
            final(self)@ == wake_spec(old(self)@, key),
    {
        if let Some(task) = parked_slab_try_remove(&mut self.waiting, key) {
            self.run_q.push(task);
        }
    }

    /// Whether the run queue is empty, so that the loop must wait for the
    /// reactor before it can take a task.
    pub fn needs_react(&self) -> (b: bool)
        ensures
            b == (self@.run_q.len() == 0),
    {
        self.run_q.is_empty()
    }

    /// Take the next task to poll: the most recently queued one.
    pub fn next_task(&mut self) -> (t: Option<usize>)
        ensures
            old(self)@.run_q.len() == 0 ==> t is None && final(self)@ == old(self)@,
            old(self)@.run_q.len() > 0 ==> t == Some(old(self)@.run_q.last()) && final(self)@.run_q
                == old(self)@.run_q.drop_last() && final(self)@.waiting == old(self)@.waiting,
    {
        let t = self.run_q.pop();
        proof {
            if old(self)@.run_q.len() > 0 {
                assert(self@.run_q =~= old(self)@.run_q.drop_last());
            } else {
                assert(self@.run_q =~= old(self)@.run_q);
            }
        }
        t
    }

    /// Park a task whose poll returned pending; returns the key its waker
    /// must carry.
    pub fn park(&mut self, task: usize) -> (key: usize)
        ensures
            !old(self)@.waiting.contains_key(key),
            final(self)@.waiting == old(self)@.waiting.insert(key, task),
            final(self)@.run_q == old(self)@.run_q,
    {
        parked_slab_insert(&mut self.waiting, task)
    }

    /// Whether no task is queued or parked, so that the loop is over.
    pub fn is_done(&self) -> (b: bool)
        ensures
            b == (self@.run_q.len() == 0 && self@.waiting.dom() == Set::<usize>::empty()),
    {
        self.run_q.is_empty() && parked_slab_is_empty(&self.waiting)
    }
}

/// What the executor loop does next.
#[derive(Clone, Copy, PartialEq, Eq, Structural, Debug)]
pub enum LoopAction {
    /// Wait for the reactor and fire the wakers it names, then call
    /// [Executor::loop_top] again.
    React,
    /// Poll the task with the given handle, then call [Executor::after_poll]
    /// with the outcome.
    Poll(usize),
    /// No task is left, queued or parked: the loop is over.
    Finish,
}

/// The action at the top of the executor loop: finish when no task is left,
/// wait for the reactor when tasks are parked but none is queued, and
/// otherwise take the most recently queued task to poll.
pub open spec fn loop_top_spec(s: ExecutorView) -> (ExecutorView, LoopAction) {
    if s.run_q.len() == 0 {
        if s.waiting.dom() == Set::<usize>::empty() {
            (s, LoopAction::Finish)
        } else {
            (s, LoopAction::React)
        }
    } else {
        (ExecutorView { run_q: s.run_q.drop_last(), waiting: s.waiting }, LoopAction::Poll(s.run_q.last()))
    }
}

/// The scheduling state after `task` has been polled: parked under `key` if
/// it is still pending, unchanged otherwise.
pub open spec fn parked_spec(s: ExecutorView, task: usize, pending: bool, key: usize) -> ExecutorView {
    if pending {
        ExecutorView { run_q: s.run_q, waiting: s.waiting.insert(key, task) }
    } else {
        s
    }
}

impl Executor {
    /// The top of the executor loop (see [loop_top_spec]). After a wait for
    /// the reactor the loop comes back here.
    pub fn loop_top(&mut self) -> (a: LoopAction)
        ensures
            (final(self)@, a) == loop_top_spec(old(self)@),
    {
        if self.is_done() {
            LoopAction::Finish
        } else if self.needs_react() {
            LoopAction::React
        } else {
            match self.next_task() {
                Some(t) => LoopAction::Poll(t),
                None => LoopAction::React,
            }
        }
    }

    /// After `task` has been polled: a task that is still pending is parked
    /// (the key its waker must carry is returned); then the loop goes back to
    /// its top.
    pub fn after_poll(&mut self, task: usize, pending: bool) -> (r: (Option<usize>, LoopAction))
        ensures
            pending ==> r.0 is Some && !old(self)@.waiting.contains_key(r.0->0),
            !pending ==> r.0 is None,
            (final(self)@, r.1) == loop_top_spec(
                parked_spec(old(self)@, task, pending, r.0.unwrap_or(0)),
            ),
    {
        let key = if pending {
            Some(self.park(task))
        } else {
            None
        };
        (key, self.loop_top())
    }
}

/// Every task the executor holds, queued or parked.
pub open spec fn all_tasks(s: ExecutorView) -> Set<usize> {
    s.run_q.to_set().union(s.waiting.values())
}

// ---------------------------------------------------------------------------
// Laws of the scheduler.
// ---------------------------------------------------------------------------

/// A parked task that is woken runs next: waking its key queues it at the
/// end of the run queue, from where it is the next task taken.
pub proof fn law_park_wake_runs_next(s: ExecutorView, key: usize, task: usize)
    requires
        !s.waiting.contains_key(key),
    ensures
        ({
            let parked = ExecutorView { run_q: s.run_q, waiting: s.waiting.insert(key, task) };
            let woken = wake_spec(parked, key);
            &&& woken.run_q == s.run_q.push(task)
            &&& woken.run_q.last() == task
            &&& woken.waiting == s.waiting
        }),
{
    assert(s.waiting.insert(key, task).remove(key) =~= s.waiting);
}

/// A wakeup is consumed by the task it wakes: waking the same key a second
/// time does nothing.
pub proof fn law_wake_twice(s: ExecutorView, key: usize)
    ensures
        wake_spec(wake_spec(s, key), key) == wake_spec(s, key),
{
}

/// Waking never loses or invents a task: the tasks held, queued or parked,
/// are the same before and after.
pub proof fn law_wake_keeps_tasks(s: ExecutorView, key: usize)
    ensures
        all_tasks(wake_spec(s, key)) == all_tasks(s),
{
    if s.waiting.contains_key(key) {
        let t = s.waiting[key];
        let s2 = wake_spec(s, key);
        assert forall|x: usize| all_tasks(s2).contains(x) implies all_tasks(s).contains(x) by {
            if s2.run_q.to_set().contains(x) {
                let i = choose|i: int| 0 <= i < s2.run_q.len() && s2.run_q[i] == x;
                if i < s.run_q.len() {
                    assert(s.run_q[i] == x);
                    assert(s.run_q.to_set().contains(x));
                } else {
                    assert(s.waiting.values().contains(x));
                }
            } else {
                let k = choose|k: usize| s2.waiting.contains_key(k) && s2.waiting[k] == x;
                assert(s.waiting.contains_key(k) && s.waiting[k] == x);
            }
        }
        assert forall|x: usize| all_tasks(s).contains(x) implies all_tasks(s2).contains(x) by {
            if s.run_q.to_set().contains(x) {
                let i = choose|i: int| 0 <= i < s.run_q.len() && s.run_q[i] == x;
                assert(s2.run_q[i] == x);
                assert(s2.run_q.to_set().contains(x));
            } else {
                let k = choose|k: usize| s.waiting.contains_key(k) && s.waiting[k] == x;
                if k == key {
                    assert(s2.run_q[s.run_q.len() as int] == x);
                    assert(s2.run_q.to_set().contains(x));
                } else {
                    assert(s2.waiting.contains_key(k) && s2.waiting[k] == x);
                    assert(s2.waiting.values().contains(x));
                }
            }
        }
        assert(all_tasks(s2) =~= all_tasks(s));
    }
}

/// The executor loop ends exactly when no task is left, queued or parked:
/// with nothing spawned it ends at once; while a task is parked it waits for
/// the reactor rather than end.
pub proof fn law_loop_finishes_iff_no_task(s: ExecutorView)
    ensures
        (loop_top_spec(s).1 == LoopAction::Finish) <==> all_tasks(s) == Set::<usize>::empty(),
{
    if s.run_q.len() > 0 {
        assert(all_tasks(s).contains(s.run_q[0]));
    } else if s.waiting.dom() != Set::<usize>::empty() {
        assert(exists|k: usize| s.waiting.dom().contains(k)) by {
            if !(exists|k: usize| s.waiting.dom().contains(k)) {
                assert(s.waiting.dom() =~= Set::<usize>::empty());
            }
        }
        let k = choose|k: usize| s.waiting.dom().contains(k);
        assert(s.waiting.values().contains(s.waiting[k]));
        assert(all_tasks(s).contains(s.waiting[k]));
    } else {
        assert(s.run_q.to_set() =~= Set::<usize>::empty());
        assert(s.waiting.values() =~= Set::<usize>::empty());
        assert(all_tasks(s) =~= Set::<usize>::empty());
    }
}

/// A task whose poll is still pending is kept: it is parked under the key
/// handed back, nothing else changes, and the tasks held afterwards are
/// those held before plus that task. A task whose poll finished is dropped
/// and the state is unchanged.
pub proof fn law_pending_task_is_kept(s: ExecutorView, task: usize, key: usize)
    requires
        !s.waiting.contains_key(key),
    ensures
        parked_spec(s, task, true, key).run_q == s.run_q,
        parked_spec(s, task, true, key).waiting.contains_key(key),
        parked_spec(s, task, true, key).waiting[key] == task,
        forall|k: usize|
            k != key ==> (#[trigger] parked_spec(s, task, true, key).waiting.contains_key(k)
                <==> s.waiting.contains_key(k)),
        forall|k: usize|
            k != key && s.waiting.contains_key(k) ==> #[trigger] parked_spec(
                s,
                task,
                true,
                key,
            ).waiting[k] == s.waiting[k],
        all_tasks(parked_spec(s, task, true, key)) == all_tasks(s).insert(task),
        parked_spec(s, task, false, key) == s,
{
    let p = parked_spec(s, task, true, key);
    assert(p.waiting.values() =~= s.waiting.values().insert(task)) by {
        assert forall|x: usize| p.waiting.values().contains(x) implies s.waiting.values().insert(
            task,
        ).contains(x) by {
            let k = choose|k: usize| p.waiting.contains_key(k) && p.waiting[k] == x;
            if k != key {
                assert(s.waiting.contains_key(k) && s.waiting[k] == x);
            }
        }
        assert forall|x: usize| s.waiting.values().insert(task).contains(x) implies p.waiting.values().contains(
            x,
        ) by {
            if x == task {
                assert(p.waiting.contains_key(key) && p.waiting[key] == x);
            } else {
                let k = choose|k: usize| s.waiting.contains_key(k) && s.waiting[k] == x;
                assert(p.waiting.contains_key(k) && p.waiting[k] == x);
            }
        }
    }
    assert(all_tasks(p) =~= all_tasks(s).insert(task));
}

/// After a poll that left its task pending, the loop never ends: it polls
/// the next queued task or, with none queued, waits for the reactor.
pub proof fn law_pending_poll_never_finishes(s: ExecutorView, task: usize, key: usize)
    requires
        !s.waiting.contains_key(key),
    ensures
        loop_top_spec(parked_spec(s, task, true, key)).1 != LoopAction::Finish,
        s.run_q.len() == 0 ==> loop_top_spec(parked_spec(s, task, true, key)).1 == LoopAction::React,
{
    law_pending_task_is_kept(s, task, key);
    law_loop_finishes_iff_no_task(parked_spec(s, task, true, key));
    assert(all_tasks(parked_spec(s, task, true, key)).contains(task));
}

/// The top of the loop polls the most recently queued task and takes it off
/// the queue, leaving everything else as it was; with no task queued it
/// changes nothing, and waits for the reactor exactly when a task is parked.
pub proof fn law_loop_top_takes_last(s: ExecutorView)
    ensures
        s.run_q.len() > 0 ==> loop_top_spec(s).1 == LoopAction::Poll(s.run_q[s.run_q.len() - 1])
            && loop_top_spec(s).0.run_q.push(s.run_q[s.run_q.len() - 1]) == s.run_q
            && loop_top_spec(s).0.waiting == s.waiting,
        s.run_q.len() == 0 ==> loop_top_spec(s).0 == s,
        s.run_q.len() == 0 ==> (loop_top_spec(s).1 == LoopAction::React <==> exists|k: usize|
            s.waiting.contains_key(k)),
{
    if s.run_q.len() > 0 {
        assert(s.run_q.drop_last().push(s.run_q.last()) =~= s.run_q);
    } else {
        if exists|k: usize| s.waiting.contains_key(k) {
            let k = choose|k: usize| s.waiting.contains_key(k);
            assert(s.waiting.dom().contains(k));
        } else {
            assert(s.waiting.dom() =~= Set::<usize>::empty());
        }
    }
}

/// Waking a key queues the task parked under it at the back of the run
/// queue and forgets the key; waking a key with no parked task changes
/// nothing.
pub proof fn law_wake_requeues(s: ExecutorView, key: usize)
    ensures
        s.waiting.contains_key(key) ==> wake_spec(s, key).run_q == s.run_q.push(s.waiting[key])
            && !wake_spec(s, key).waiting.contains_key(key)
            && (forall|k: usize|
            k != key ==> (#[trigger] wake_spec(s, key).waiting.contains_key(k)
                <==> s.waiting.contains_key(k))),
        !s.waiting.contains_key(key) ==> wake_spec(s, key) == s,
{
}

} // verus!
