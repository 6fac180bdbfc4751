//! Trying the addresses a name resolves to, one after the other.
//!
//! Binding a listener and connecting a stream both try each resolved
//! address in turn: the first address that works is used; if none works,
//! the error of the last attempt is reported, or a fixed error when there
//! was no address at all. The attempts themselves (socket, bind, listen,
//! connect) are made by the caller, who reports each outcome here and is
//! told what to do next.
use vstd::prelude::*;

verus! {

/// Why no address could be used.
#[derive(Clone, Copy, PartialEq, Eq, Structural, Debug)]
pub enum AttemptError {
    /// There was no address to try.
    NoAddress,
    /// The last attempt failed with this errno.
    Os(i32),
}

/// What to do next.
#[derive(Clone, Copy, PartialEq, Eq, Structural, Debug)]
pub enum AttemptStep {
    /// Try the address with this index, then report how it went.
    Try(usize),
    /// The address with this index works: use it.
    Succeeded(usize),
    /// No address works, for this reason.
    Failed(AttemptError),
}

/// The state of a series of attempts.
pub struct AttemptsView {
    /// The number of addresses.
    pub count: nat,
    /// The index of the address being tried.
    pub current: nat,
    /// The error of the last failed attempt, or `NoAddress` before any.
    pub last_err: AttemptError,
}

/// The state and step after the address being tried failed with `errno`.
pub open spec fn failed_spec(v: AttemptsView, errno: i32) -> (AttemptsView, AttemptStep) {
    let next = AttemptsView { count: v.count, current: v.current + 1, last_err: AttemptError::Os(errno) };
    if next.current < next.count {
        (next, AttemptStep::Try(next.current as usize))
    } else {
        (next, AttemptStep::Failed(AttemptError::Os(errno)))
    }
}

/// The state and step after the failures `fs`, one after the other,
/// starting from `v` with step `step`.
pub open spec fn run_failures(v: AttemptsView, step: AttemptStep, fs: Seq<i32>) -> (
    AttemptsView,
    AttemptStep,
)
    decreases fs.len(),
{
    if fs.len() == 0 {
        (v, step)
    } else {
        let r = failed_spec(v, fs[0]);
        run_failures(r.0, r.1, fs.drop_first())
    }
}

/// A series of attempts over `count` addresses.
pub struct AddrAttempts {
    count: usize,
    current: usize,
    last_err: AttemptError,
}

impl View for AddrAttempts {
    type V = AttemptsView;

    closed spec fn view(&self) -> AttemptsView {
        AttemptsView { count: self.count as nat, current: self.current as nat, last_err: self.last_err }
    }
}

impl AddrAttempts {
    /// Attempts over `count` addresses, none tried yet.
    pub fn new(count: usize) -> (a: Self)
        ensures
            a@ == (AttemptsView { count: count as nat, current: 0, last_err: AttemptError::NoAddress }),
    {
        AddrAttempts { count, current: 0, last_err: AttemptError::NoAddress }
    }

    /// The first step: try the first address, or fail if there is none.
    pub fn start(&self) -> (s: AttemptStep)
        ensures
            self@.count == 0 ==> s == AttemptStep::Failed(AttemptError::NoAddress),
            self@.count > 0 ==> s == AttemptStep::Try(0),
    {
        if self.count == 0 {
            AttemptStep::Failed(AttemptError::NoAddress)
        } else {
            AttemptStep::Try(0)
        }
    }

    /// The address being tried works.
    pub fn succeeded(&self) -> (s: AttemptStep)
        ensures
            s == AttemptStep::Succeeded(self@.current as usize),
    {
        AttemptStep::Succeeded(self.current)
    }

    /// The address being tried failed with `errno`: remember the error and
    /// try the next address, or fail with that error if it was the last.
    pub fn failed(&mut self, errno: i32) -> (s: AttemptStep)
        requires
            old(self)@.current < old(self)@.count,
        ensures
            (final(self)@, s) == failed_spec(old(self)@, errno),
    {
        self.last_err = AttemptError::Os(errno);
        self.current = self.current + 1;
        if self.current < self.count {
            AttemptStep::Try(self.current)
        } else {
            AttemptStep::Failed(self.last_err)
        }
    }
}

/// The address that is used is the first that works, and when none works
/// the error reported is that of the last address: starting a series of
/// attempts over `count` addresses and reporting the failures `fs` one after
/// the other, the next step is to try the address after the failed ones
/// while some are left, and otherwise to fail with the last failure's
/// error (or `NoAddress` when there is no address).
pub proof fn law_first_success_or_last_error(count: usize, fs: Seq<i32>)
    requires
        fs.len() <= count,
    ensures
        ({
            let v0 = AttemptsView { count: count as nat, current: 0, last_err: AttemptError::NoAddress };
            let s0 = if count == 0 {
                AttemptStep::Failed(AttemptError::NoAddress)
            } else {
                AttemptStep::Try(0)
            };
            let r = run_failures(v0, s0, fs);
            &&& r.0.current == fs.len()
            &&& fs.len() < count ==> r.1 == AttemptStep::Try(fs.len() as usize)
            &&& fs.len() == count && count > 0 ==> r.1 == AttemptStep::Failed(
                AttemptError::Os(fs.last()),
            )
            &&& count == 0 ==> r.1 == AttemptStep::Failed(AttemptError::NoAddress)
        }),
{
    let v0 = AttemptsView { count: count as nat, current: 0, last_err: AttemptError::NoAddress };
    let s0 = if count == 0 {
        AttemptStep::Failed(AttemptError::NoAddress)
    } else {
        AttemptStep::Try(0)
    };
    lemma_run_failures(v0, s0, fs);
}

/// Reporting the failures `fs` from a state with `current + fs.len() <=
/// count` advances `current` by `fs.len()`; the step is then to try the
/// next address while some are left, or to fail with the last failure's
/// error.
proof fn lemma_run_failures(v: AttemptsView, step: AttemptStep, fs: Seq<i32>)
    requires
        v.current + fs.len() <= v.count,
        v.count <= usize::MAX,
    ensures
        run_failures(v, step, fs).0.current == v.current + fs.len(),
        run_failures(v, step, fs).0.count == v.count,
        fs.len() == 0 ==> run_failures(v, step, fs).1 == step,
        fs.len() > 0 && v.current + fs.len() < v.count ==> run_failures(v, step, fs).1
            == AttemptStep::Try((v.current + fs.len()) as usize),
        fs.len() > 0 && v.current + fs.len() == v.count ==> run_failures(v, step, fs).1
            == AttemptStep::Failed(AttemptError::Os(fs.last())),
    decreases fs.len(),
{
    if fs.len() > 0 {
        let r = failed_spec(v, fs[0]);
        let rest = fs.drop_first();
        lemma_run_failures(r.0, r.1, rest);
        if rest.len() > 0 {
            assert(rest.last() == fs.last());
        }
    }
}

} // verus!
