//! The task executor: an ordered registry of single-invocation tasks, a
//! sequential runner and a query interface over per-task outcomes.
//!
//! A task's callable is owned by the registry, moved out exactly once for its
//! single invocation and never returned; afterwards only the recorded outcome
//! remains.  A run executes the tasks in registration order and stops at the
//! first failing task; tasks after the failure point keep their not-yet-run
//! status forever.

use vstd::prelude::*;

use crate::guard::{GuardedState, SharedState};
use crate::tui::{fail_frame, Tui};

verus! {

/// A unit of boot-sequence work.  Invoking it consumes it, so a callable can
/// run at most once; the boolean result is its only signal to the executor.
pub trait TaskCallable: Sized {
    /// The outcome this callable reports when it is invoked.
    spec fn outcome(&self) -> bool;

    /// Perform the work and report success or failure.
    fn invoke(self) -> (r: bool)
        ensures
            r == self.outcome(),
    ;
}

/// A callable with a fixed, pre-decided outcome.
pub struct FixedOutcome {
    pub result: bool,
}

impl TaskCallable for FixedOutcome {
    open spec fn outcome(&self) -> bool {
        self.result
    }

    fn invoke(self) -> bool {
        self.result
    }
}

/// One registered task: its label, its not-yet-consumed callable and its
/// recorded outcome (`None` until the task has run).
struct Task<C> {
    descriptor: String,
    callable: Option<C>,
    success: Option<bool>,
}

/// A read-only projection of one task's state.
#[derive(Debug, Clone)]
pub struct TaskInfo {
    descriptor: String,
    success: Option<bool>,
}

impl TaskInfo {
    /// The task's human-readable label.
    pub closed spec fn spec_descriptor(&self) -> Seq<char> {
        self.descriptor@
    }

    /// The task's recorded outcome: `None` until it has run.
    pub closed spec fn spec_success(&self) -> Option<bool> {
        self.success
    }

    pub fn descriptor(&self) -> (r: &str)
        ensures
            r@ == self.spec_descriptor(),
    {
        self.descriptor.as_str()
    }

    pub fn success(&self) -> (r: Option<bool>)
        ensures
            r == self.spec_success(),
    {
        self.success
    }
}

/// The index of the first `false` in a sequence of outcomes, or the length of
/// the sequence if every outcome is `true`.
pub open spec fn first_false(s: Seq<bool>) -> int
    decreases s.len(),
{
    if s.len() == 0 {
        0
    } else if !s[0] {
        0
    } else {
        1 + first_false(s.skip(1))
    }
}

pub proof fn lemma_first_false(s: Seq<bool>)
    ensures
        0 <= first_false(s) <= s.len(),
        forall|i: int| 0 <= i < first_false(s) ==> s[i],
        first_false(s) < s.len() ==> !s[first_false(s)],
    decreases s.len(),
{
    if s.len() != 0 && s[0] {
        lemma_first_false(s.skip(1));
        assert(forall|i: int| 0 <= i < first_false(s) ==> s[i]) by {
            assert forall|i: int| 0 <= i < first_false(s) implies s[i] by {
                if i > 0 {
                    assert(s.skip(1)[i - 1] == s[i]);
                }
            }
        }
        if first_false(s) < s.len() {
            assert(s.skip(1)[first_false(s) - 1] == s[first_false(s)]);
        }
    }
}

/// The executor state: an ordered, append-friendly sequence of tasks, the
/// cursor of the task currently executing or next to execute, and the overall
/// `running` flag (true while a run is in progress, thereafter the outcome of
/// the most recently recorded task).
pub struct TaskExecutor<C> {
    tasks: Vec<Task<C>>,
    current: u32,
    running: bool,
    started: bool,
}

impl<C: TaskCallable> TaskExecutor<C> {
    /// Number of registered tasks.
    pub closed spec fn num_tasks(&self) -> nat {
        self.tasks@.len()
    }

    /// The labels of the registered tasks, in registration order.
    pub closed spec fn descriptors(&self) -> Seq<Seq<char>> {
        self.tasks@.map_values(|t: Task<C>| t.descriptor@)
    }

    /// The recorded outcomes, in registration order.
    pub closed spec fn successes(&self) -> Seq<Option<bool>> {
        self.tasks@.map_values(|t: Task<C>| t.success)
    }

    /// Whether each task still owns its callable.
    pub closed spec fn pendings(&self) -> Seq<bool> {
        self.tasks@.map_values(|t: Task<C>| t.callable is Some)
    }

    /// The outcome each still-pending callable would report; meaningless at
    /// indices whose callable has already been consumed.
    pub closed spec fn outcomes(&self) -> Seq<bool> {
        self.tasks@.map_values(
            |t: Task<C>|
                match t.callable {
                    Some(c) => c.outcome(),
                    None => false,
                },
        )
    }

    /// The cursor: index of the task currently executing or next to execute.
    pub closed spec fn spec_current(&self) -> u32 {
        self.current
    }

    /// The overall flag: "a run is in progress" until the first outcome is
    /// recorded, thereafter "the most recently recorded task succeeded".
    pub closed spec fn spec_running(&self) -> bool {
        self.running
    }

    /// Whether a run has ever begun on this registry.
    pub closed spec fn spec_started(&self) -> bool {
        self.started
    }

    /// Well-formedness: the cursor stays within bounds, the recorded outcomes
    /// form exactly the prefix before the cursor, pending callables lie at or
    /// after the cursor, and a registry that no run has touched is fresh.
    pub closed spec fn wf(&self) -> bool {
        &&& self.current as int <= self.tasks@.len()
        &&& self.tasks@.len() <= u32::MAX as int
        &&& forall|i: int|
            0 <= i < self.tasks@.len() ==> (self.successes()[i] is Some <==> i
                < self.current as int)
        &&& forall|i: int|
            0 <= i < self.tasks@.len() && self.pendings()[i] ==> i >= self.current as int
        &&& !self.started ==> self.current == 0 && !self.running && forall|i: int|
            0 <= i < self.tasks@.len() ==> self.pendings()[i]
    }

    /// Every projection of the registry has one entry per registered task,
    /// so reasoning outside this module can connect them.
    pub proof fn lemma_projection_lengths(&self)
        ensures
            self.descriptors().len() == self.num_tasks(),
            self.successes().len() == self.num_tasks(),
            self.pendings().len() == self.num_tasks(),
            self.outcomes().len() == self.num_tasks(),
    {
    }

    /// An empty registry: no tasks, cursor at zero, no run begun.
    pub fn new() -> (e: Self)
        ensures
            e.wf(),
            e.num_tasks() == 0,
            e.spec_current() == 0,
            !e.spec_running(),
            !e.spec_started(),
    {
        TaskExecutor { tasks: Vec::new(), current: 0, running: false, started: false }
    }

    /// Append a task and return its index as a stable identifier.  Once a run
    /// has begun the registry is frozen: late registrations are rejected.
    pub fn register(&mut self, descriptor: &str, callable: C) -> (r: Option<u32>)
        requires
            old(self).wf(),
            old(self).num_tasks() < u32::MAX,
        ensures
            final(self).wf(),
            old(self).spec_started() ==> r is None && *final(self) == *old(self),
            !old(self).spec_started() ==> {
                &&& r == Some(old(self).num_tasks() as u32)
                &&& final(self).num_tasks() == old(self).num_tasks() + 1
                &&& final(self).descriptors() == old(self).descriptors().push(descriptor@)
                &&& final(self).successes() == old(self).successes().push(None::<bool>)
                &&& final(self).pendings() == old(self).pendings().push(true)
                &&& final(self).outcomes() == old(self).outcomes().push(callable.outcome())
                &&& final(self).spec_current() == old(self).spec_current()
                &&& final(self).spec_running() == old(self).spec_running()
                &&& !final(self).spec_started()
            },
    {
        if self.started {
            return None;
        }
        let id = self.tasks.len();
        self.tasks.push(
            Task { descriptor: descriptor.to_owned(), callable: Some(callable), success: None },
        );
        proof {
            assert(final(self).descriptors() =~= old(self).descriptors().push(descriptor@));
            assert(final(self).successes() =~= old(self).successes().push(None::<bool>));
            assert(final(self).pendings() =~= old(self).pendings().push(true));
            assert(final(self).outcomes() =~= old(self).outcomes().push(callable.outcome()));
        }
        Some(id as u32)
    }

    /// Mark the overall run as begun and in progress; returns the number of
    /// tasks the run will execute.
    pub fn begin_run(&mut self) -> (n: usize)
        requires
            old(self).wf(),
        ensures
            final(self).wf(),
            n == old(self).num_tasks(),
            final(self).num_tasks() == old(self).num_tasks(),
            final(self).descriptors() == old(self).descriptors(),
            final(self).successes() == old(self).successes(),
            final(self).pendings() == old(self).pendings(),
            final(self).outcomes() == old(self).outcomes(),
            final(self).spec_current() == old(self).spec_current(),
            final(self).spec_running(),
            final(self).spec_started(),
    {
        self.running = true;
        self.started = true;
        proof {
            assert forall|i: int|
                0 <= i < self.tasks@.len() && self.pendings()[i] implies i
                >= self.current as int by {
                assert(old(self).pendings()[i]);
            }
        }
        self.tasks.len()
    }

    /// Remove (take) a task's callable for its single invocation.  Returns
    /// `None` when the index is out of range or the callable was already
    /// consumed: a task may execute at most once.
    pub fn take_task(&mut self, i: usize) -> (r: Option<C>)
        requires
            old(self).wf(),
        ensures
            final(self).wf(),
            (r is Some <==> i < old(self).num_tasks() && old(self).pendings()[i as int]),
            r is None ==> *final(self) == *old(self),
            r is Some ==> {
                &&& r->0.outcome() == old(self).outcomes()[i as int]
                &&& final(self).num_tasks() == old(self).num_tasks()
                &&& final(self).descriptors() == old(self).descriptors()
                &&& final(self).successes() == old(self).successes()
                &&& final(self).pendings() == old(self).pendings().update(i as int, false)
                &&& final(self).outcomes() == old(self).outcomes().update(i as int, false)
                &&& final(self).spec_current() == old(self).spec_current()
                &&& final(self).spec_running()
                &&& final(self).spec_started()
            },
    {
        if i >= self.tasks.len() {
            return None;
        }
        if self.tasks[i].callable.is_none() {
            return None;
        }
        let mut task = self.tasks.remove(i);
        let c = task.callable.take();
        self.tasks.insert(i, task);
        self.running = true;
        self.started = true;
        proof {
            assert(final(self).tasks@ =~= old(self).tasks@.update(
                i as int,
                Task {
                    descriptor: old(self).tasks@[i as int].descriptor,
                    callable: None,
                    success: old(self).tasks@[i as int].success,
                },
            ));
            assert(final(self).descriptors() =~= old(self).descriptors());
            assert(final(self).successes() =~= old(self).successes());
            assert(final(self).pendings() =~= old(self).pendings().update(i as int, false));
            assert(final(self).outcomes() =~= old(self).outcomes().update(i as int, false));
            assert forall|j: int|
                0 <= j < self.tasks@.len() && self.pendings()[j] implies j
                >= self.current as int by {
                assert(old(self).pendings()[j]);
            }
            assert forall|j: int|
                0 <= j < self.tasks@.len() implies (self.successes()[j] is Some <==> j
                < self.current as int) by {
                assert(old(self).successes()[j] is Some <==> j < old(self).current as int);
            }
        }
        c
    }

    /// Record the boolean outcome of the task at the cursor, advance the
    /// cursor past it and set the overall flag to that same outcome.  Returns
    /// `false`, leaving the state untouched, when `i` is not the cursor, is
    /// out of range, or still owns its callable.
    pub fn record_task(&mut self, i: usize, result: bool) -> (r: bool)
        requires
            old(self).wf(),
        ensures
            final(self).wf(),
            r <==> (i < old(self).num_tasks() && i == old(self).spec_current()
                && !old(self).pendings()[i as int]),
            !r ==> *final(self) == *old(self),
            r ==> {
                &&& final(self).num_tasks() == old(self).num_tasks()
                &&& final(self).descriptors() == old(self).descriptors()
                &&& final(self).successes() == old(self).successes().update(
                    i as int,
                    Some(result),
                )
                &&& final(self).pendings() == old(self).pendings()
                &&& final(self).outcomes() == old(self).outcomes()
                &&& final(self).spec_current() == i + 1
                &&& final(self).spec_running() == result
                &&& final(self).spec_started() == old(self).spec_started()
            },
    {
        if i >= self.tasks.len() {
            return false;
        }
        if i as u32 != self.current {
            return false;
        }
        if self.tasks[i].callable.is_some() {
            return false;
        }
        let mut task = self.tasks.remove(i);
        task.success = Some(result);
        self.tasks.insert(i, task);
        self.current = i as u32 + 1;
        self.running = result;
        proof {
            assert(final(self).tasks@ =~= old(self).tasks@.update(
                i as int,
                Task {
                    descriptor: old(self).tasks@[i as int].descriptor,
                    callable: old(self).tasks@[i as int].callable,
                    success: Some(result),
                },
            ));
            assert(final(self).descriptors() =~= old(self).descriptors());
            assert(final(self).successes() =~= old(self).successes().update(
                i as int,
                Some(result),
            ));
            assert(final(self).pendings() =~= old(self).pendings());
            assert(final(self).outcomes() =~= old(self).outcomes());
            assert(!old(self).pendings()[i as int]);
            assert forall|j: int|
                0 <= j < self.tasks@.len() && self.pendings()[j] implies j
                >= self.current as int by {
                assert(old(self).pendings()[j]);
            }
            assert forall|j: int|
                0 <= j < self.tasks@.len() implies (self.successes()[j] is Some <==> j
                < self.current as int) by {
                assert(old(self).successes()[j] is Some <==> j < old(self).current as int);
            }
        }
        true
    }

    /// What a completed run leaves behind, given the outcomes the callables
    /// were going to report: every task before and including the first
    /// failure (or all of them, if none fails) has its outcome recorded and
    /// its callable consumed; every later task is untouched.
    pub open spec fn run_post(pre: Self, post: Self) -> bool {
        let n = pre.num_tasks() as int;
        let k = first_false(pre.outcomes());
        let m = if k + 1 <= n {
            k + 1
        } else {
            n
        };
        &&& post.num_tasks() == pre.num_tasks()
        &&& post.descriptors() == pre.descriptors()
        &&& post.spec_current() == m
        &&& forall|i: int|
            0 <= i < m ==> #[trigger] post.successes()[i] == Some(pre.outcomes()[i])
                && !post.pendings()[i]
        &&& forall|i: int|
            m <= i < n ==> #[trigger] post.successes()[i] is None && post.pendings()[i]
                && post.outcomes()[i] == pre.outcomes()[i]
        &&& post.spec_running() == (k >= n)
        &&& post.spec_started()
    }

    /// Execute every registered task in registration order, synchronously, on
    /// the calling thread, stopping after the first failure.
    pub fn start(&mut self)
        requires
            old(self).wf(),
            !old(self).spec_started(),
        ensures
            final(self).wf(),
            Self::run_post(*old(self), *final(self)),
    {
        proof {
            lemma_first_false(old(self).outcomes());
        }
        let ghost pre = *old(self);
        let ghost k = first_false(old(self).outcomes());
        let n = self.begin_run();
        let mut i: usize = 0;
        let mut failed = false;
        while i < n && !failed
            invariant
                self.wf(),
                n == pre.num_tasks(),
                pre.wf(),
                !pre.spec_started(),
                k == first_false(pre.outcomes()),
                0 <= k <= n,
                forall|j: int| 0 <= j < k ==> pre.outcomes()[j],
                k < n ==> !pre.outcomes()[k as int],
                i <= n,
                self.num_tasks() == n,
                self.descriptors() == pre.descriptors(),
                self.spec_current() == i,
                self.spec_started(),
                forall|j: int|
                    0 <= j < i ==> #[trigger] self.successes()[j] == Some(pre.outcomes()[j])
                        && !self.pendings()[j],
                forall|j: int|
                    i <= j < n ==> #[trigger] self.successes()[j] is None && self.pendings()[j]
                        && self.outcomes()[j] == pre.outcomes()[j],
                !failed ==> i <= k && self.spec_running(),
                failed ==> i == k + 1 && !self.spec_running(),
            decreases n - i,
        {
            let ghost s0 = *self;
            let ghost i0 = i as int;
            proof {
                assert(self.successes()[i as int] is None && self.pendings()[i as int]);
            }
            let c = self.take_task(i);
            let c = match c {
                Some(c) => c,
                None => {
                    proof {
                        assert(false);
                    }
                    return ;
                },
            };
            let result = c.invoke();
            let recorded = self.record_task(i, result);
            proof {
                assert(recorded);
                assert forall|j: int|
                    i0 < j < n implies #[trigger] self.successes()[j] is None && self.pendings()[j]
                    && self.outcomes()[j] == pre.outcomes()[j] by {
                    assert(s0.successes()[j] is None && s0.pendings()[j] && s0.outcomes()[j]
                        == pre.outcomes()[j]);
                }
                assert forall|j: int|
                    0 <= j <= i0 implies #[trigger] self.successes()[j] == Some(pre.outcomes()[j])
                    && !self.pendings()[j] by {
                    if j < i0 {
                        assert(s0.successes()[j] == Some(pre.outcomes()[j]));
                    } else {
                        assert(s0.successes()[j] is None);
                        assert(s0.outcomes()[j] == pre.outcomes()[j]);
                    }
                }
            }
            if !result {
                failed = true;
            }
            i = i + 1;
        }
    }

    /// Whether a run has ever begun on this registry.
    pub fn has_started(&self) -> (r: bool)
        ensures
            r == self.spec_started(),
    {
        self.started
    }

    /// Current value of the overall flag.
    pub fn running(&self) -> (r: bool)
        ensures
            r == self.spec_running(),
    {
        self.running
    }

    /// A read-only projection of the task with the given identifier, or
    /// `None` when no such task exists.
    pub fn info(&self, id: u32) -> (r: Option<TaskInfo>)
        ensures
            (r is Some <==> id < self.num_tasks()),
            r is Some ==> r->0.spec_descriptor() == self.descriptors()[id as int]
                && r->0.spec_success() == self.successes()[id as int],
    {
        if (id as usize) < self.tasks.len() {
            let task = &self.tasks[id as usize];
            Some(TaskInfo { descriptor: task.descriptor.clone(), success: task.success })
        } else {
            None
        }
    }

    /// A read-only projection of the task at the cursor, or `None` when the
    /// cursor has moved past the last task.
    pub fn current_info(&self) -> (r: Option<TaskInfo>)
        ensures
            (r is Some <==> self.spec_current() < self.num_tasks()),
            r is Some ==> r->0.spec_descriptor() == self.descriptors()[self.spec_current() as int]
                && r->0.spec_success() == self.successes()[self.spec_current() as int],
    {
        self.info(self.current)
    }

    /// The cursor's current value.
    pub fn current(&self) -> (r: u32)
        ensures
            r == self.spec_current(),
    {
        self.current
    }

    /// The label of the task with the given identifier.
    pub fn descriptor(&self, id: u32) -> (r: Option<String>)
        ensures
            (r is Some <==> id < self.num_tasks()),
            r is Some ==> r->0@ == self.descriptors()[id as int],
    {
        if (id as usize) < self.tasks.len() {
            Some(self.tasks[id as usize].descriptor.clone())
        } else {
            None
        }
    }

    /// The identifiers of every task whose outcome is recorded, in ascending
    /// order.  Under the stop-on-failure rule this is always a contiguous
    /// prefix of the registration order.
    pub fn completed_tasks(&self) -> (r: Vec<u32>)
        requires
            self.wf(),
        ensures
            r@ == completed_ids(self.successes()),
    {
        let mut r: Vec<u32> = Vec::new();
        let mut i: usize = 0;
        while i < self.tasks.len()
            invariant
                i <= self.tasks@.len(),
                self.tasks@.len() <= u32::MAX as int,
                r@ == completed_ids(self.successes().take(i as int)),
            decreases self.tasks@.len() - i,
        {
            proof {
                assert(self.successes().take(i as int + 1).drop_last() =~= self.successes().take(
                    i as int,
                ));
            }
            if self.tasks[i].success.is_some() {
                r.push(i as u32);
            }
            i = i + 1;
        }
        proof {
            assert(self.successes().take(self.tasks@.len() as int) =~= self.successes());
        }
        r
    }
}

/// The identifiers (positions) of the entries of `s` that hold a recorded
/// outcome.
pub open spec fn completed_ids(s: Seq<Option<bool>>) -> Seq<u32>
    decreases s.len(),
{
    if s.len() == 0 {
        Seq::empty()
    } else if s.last() is Some {
        completed_ids(s.drop_last()).push((s.len() - 1) as u32)
    } else {
        completed_ids(s.drop_last())
    }
}

/// Helper for [`lemma_run_completed_prefix`]: when the recorded outcomes are
/// exactly the entries before `m`, the completed identifiers are exactly
/// `0, 1, ..., m - 1`.
proof fn lemma_completed_ids_prefix(s: Seq<Option<bool>>, m: int)
    requires
        0 <= m <= s.len(),
        forall|i: int| 0 <= i < m ==> s[i] is Some,
        forall|i: int| m <= i < s.len() ==> s[i] is None,
    ensures
        completed_ids(s) == Seq::new(m as nat, |i: int| i as u32),
    decreases s.len(),
{
    if s.len() == 0 {
        assert(completed_ids(s) =~= Seq::new(0, |i: int| i as u32));
    } else {
        assert(forall|i: int| 0 <= i < s.len() - 1 ==> s.drop_last()[i] == s[i]);
        if m < s.len() {
            lemma_completed_ids_prefix(s.drop_last(), m);
        } else {
            lemma_completed_ids_prefix(s.drop_last(), m - 1);
            assert(completed_ids(s) =~= Seq::new(m as nat, |i: int| i as u32));
        }
    }
}

/// For any sequence of tasks run from a fresh registry: if task `k` is the
/// first whose callable reports failure, exactly the tasks `0, ..., k` end up
/// with a recorded outcome and the cursor has advanced past `k`; if no task
/// fails, every task `0, ..., n - 1` ends up recorded and the cursor equals
/// `n`.  `completed_tasks` therefore returns exactly that contiguous prefix
/// of identifiers, in order.
pub proof fn lemma_run_completed_prefix<C: TaskCallable>(
    pre: TaskExecutor<C>,
    post: TaskExecutor<C>,
)
    requires
        pre.wf(),
        TaskExecutor::run_post(pre, post),
    ensures
        ({
            let n = pre.num_tasks() as int;
            let k = first_false(pre.outcomes());
            let m = if k + 1 <= n {
                k + 1
            } else {
                n
            };
            &&& completed_ids(post.successes()) == Seq::new(m as nat, |i: int| i as u32)
            &&& post.spec_current() == m
            &&& k < n ==> post.successes()[k] == Some(false)
            &&& forall|i: int| 0 <= i < m - 1 ==> post.successes()[i] == Some(true)
        }),
{
    let n = pre.num_tasks() as int;
    let k = first_false(pre.outcomes());
    let m = if k + 1 <= n {
        k + 1
    } else {
        n
    };
    lemma_first_false(pre.outcomes());
    lemma_completed_ids_prefix(post.successes(), m);
}

/// A task's callable is handed out for invocation at most once across the
/// lifetime of a registry: a successful take leaves the task no longer
/// pending, and by [`TaskExecutor::take_task`]'s contract a take succeeds
/// only on a pending task, so no interleaving of operations obtains the same
/// callable twice.  (A whole-registry re-run is likewise refused:
/// [`TaskExecutor::start`] demands a registry on which no run has begun.)
pub proof fn lemma_callable_taken_at_most_once<C: TaskCallable>(
    pre: TaskExecutor<C>,
    mid: TaskExecutor<C>,
    i: int,
)
    requires
        pre.wf(),
        0 <= i < pre.num_tasks(),
        pre.pendings()[i],
        mid.pendings() == pre.pendings().update(i, false),
    ensures
        !mid.pendings()[i],
{
}

/// A run invokes each callable at most once across the registry's lifetime:
/// every task the run executed has had its callable moved out and never put
/// back, and the registry that remains no longer admits
/// [`TaskExecutor::start`], whose precondition demands a registry on which
/// no run has begun — a second invocation attempt is excluded, never a
/// silent re-run.
pub proof fn lemma_run_consumes_callables<C: TaskCallable>(
    pre: TaskExecutor<C>,
    post: TaskExecutor<C>,
)
    requires
        pre.wf(),
        TaskExecutor::run_post(pre, post),
    ensures
        post.spec_started(),
        ({
            let n = pre.num_tasks() as int;
            let k = first_false(pre.outcomes());
            let m = if k + 1 <= n {
                k + 1
            } else {
                n
            };
            forall|i: int| 0 <= i < m ==> !post.pendings()[i]
        }),
{
    let n = pre.num_tasks() as int;
    let k = first_false(pre.outcomes());
    let m = if k + 1 <= n {
        k + 1
    } else {
        n
    };
    assert forall|i: int| 0 <= i < m implies !post.pendings()[i] by {
        assert(post.successes()[i] == Some(pre.outcomes()[i]));
    }
}

/// The task list never shrinks and never loses, reorders or duplicates an
/// existing entry: every operation of the executor either leaves the list of
/// descriptors unchanged or appends a single new one (as each operation's
/// contract states), and either way the old list stays a prefix of the new.
pub proof fn lemma_task_list_monotone<C: TaskCallable>(
    pre: TaskExecutor<C>,
    post: TaskExecutor<C>,
)
    requires
        post.descriptors() == pre.descriptors() || (exists|d: Seq<char>|
            post.descriptors() == pre.descriptors().push(d)),
    ensures
        post.num_tasks() >= pre.num_tasks(),
        forall|i: int|
            0 <= i < pre.descriptors().len() ==> post.descriptors()[i] == pre.descriptors()[i],
{
    if post.descriptors() != pre.descriptors() {
        let d = choose|d: Seq<char>| post.descriptors() == pre.descriptors().push(d);
        assert(post.descriptors() == pre.descriptors().push(d));
    }
    assert(post.num_tasks() == post.descriptors().len());
    assert(pre.num_tasks() == pre.descriptors().len());
}

impl<C: TaskCallable> GuardedState for TaskExecutor<C> {
    open spec fn inv(&self) -> bool {
        self.wf()
    }
}

/// Run every task registered at the moment the run begins, in registration
/// order, against a registry behind its shared guard, and notify the
/// renderer's log after each completion.  The registry's lock is held only
/// around each bookkeeping step and released while a callable runs, so
/// concurrent readers (the renderer) can observe state during a
/// long-running task.  The run stops after the first failing task; a run
/// that finds the registry already started stops before touching anything,
/// and one that finds a callable already consumed stops there: re-execution
/// is a programming error that the executor refuses rather than performs.
/// Report a refused or aborted run loudly on the renderer's log: misusing
/// the executor is a programming error, and its record belongs in the log,
/// the system's only error channel.
fn run_refused_note(tui: &Tui, detail: &str) {
    let mut entry = String::new();
    entry.append(fail_frame());
    entry.append(" ");
    entry.append(detail);
    let (mut st, handle) = tui.write_state();
    st.push_entry(entry.as_str());
    handle.release_write(st);
}

pub fn run_shared<C: TaskCallable>(exec: &SharedState<TaskExecutor<C>>, tui: &Tui) {
    let n = {
        let (mut st, handle) = exec.write();
        if st.has_started() {
            handle.release_write(st);
            run_refused_note(tui, "run refused: a run has already begun on this registry");
            return ;
        }
        let n = st.begin_run();
        proof {
            assert(n as int <= u32::MAX as int);
        }
        handle.release_write(st);
        n
    };
    let mut i: usize = 0;
    let mut go = true;
    while i < n && go
        invariant
            n as int <= u32::MAX as int,
            i <= n,
        decreases n - i + (if go {
            1int
        } else {
            0int
        }),
    {
        let taken = {
            let (mut st, handle) = exec.write();
            let t = st.take_task(i);
            handle.release_write(st);
            t
        };
        match taken {
            None => {
                run_refused_note(tui, "run aborted: a task's callable was already consumed");
                go = false;
            },
            Some(c) => {
                let result = c.invoke();
                let recorded = {
                    let (mut st, handle) = exec.write();
                    let r = st.record_task(i, result);
                    handle.release_write(st);
                    r
                };
                tui.register_completed(exec, i as u32);
                if !recorded {
                    run_refused_note(tui, "run aborted: a task's outcome could not be recorded");
                    go = false;
                } else if !result {
                    go = false;
                }
                i = i + 1;
            },
        }
    }
}

} // verus!
