//! The task pool's observable state machine: worker and task counters, the
//! lifecycle of every submitted task, and single delivery of every result.
//!
//! The pool's threads, queue and channels live with the runtime embedding
//! this crate; each verified transition here mirrors one step of the worker
//! protocol (submit, claim, finish, collect, terminate), so the runtime
//! drives this state machine and inherits its invariants: the active count
//! never exceeds the worker count, and every task's result is delivered at
//! most once.

use crate::buffer::ImageBuf;
use crate::errors::PConvertError;
use vstd::prelude::*;

verus! {

/// Hard ceiling on the number of live workers `expand_to` may reach.
pub const MAX_THREAD_POOL_SIZE: usize = 10;

/// Worker count of the pool a fresh runtime starts with.
pub const DEFAULT_THREAD_POOL_SIZE: usize = 1;

/// Result message types for `execute` tasks; deliberately open to extension
/// for task kinds other than image work.
pub enum ResultMessage {
    ImageResult(Result<ImageBuf, PConvertError>),
}

/// Lifecycle of one submitted task: waiting in the shared queue, claimed and
/// running on a worker, finished with its result posted, or finished with
/// the result handed to the submitter.
#[derive(Clone, Copy, PartialEq, Eq, Structural, Debug)]
pub enum TaskPhase {
    Queued,
    Running,
    Done,
    Collected,
}

/// How many tasks of a sequence are in the given phase.
pub open spec fn count_phase(s: Seq<TaskPhase>, ph: TaskPhase) -> int
    decreases s.len(),
{
    if s.len() == 0 {
        0
    } else {
        count_phase(s.drop_last(), ph) + if s.last() == ph {
            1int
        } else {
            0int
        }
    }
}

proof fn lemma_count_le_len(s: Seq<TaskPhase>, ph: TaskPhase)
    ensures
        0 <= count_phase(s, ph) <= s.len(),
    decreases s.len(),
{
    if s.len() > 0 {
        lemma_count_le_len(s.drop_last(), ph);
    }
}

proof fn lemma_count_push(s: Seq<TaskPhase>, ph: TaskPhase, x: TaskPhase)
    ensures
        count_phase(s.push(x), ph) == count_phase(s, ph) + if x == ph {
            1int
        } else {
            0int
        },
{
    assert(s.push(x).drop_last() =~= s);
    assert(s.push(x).last() == x);
}

proof fn lemma_count_update(s: Seq<TaskPhase>, i: int, x: TaskPhase, ph: TaskPhase)
    requires
        0 <= i < s.len(),
    ensures
        count_phase(s.update(i, x), ph) == count_phase(s, ph) - (if s[i] == ph {
            1int
        } else {
            0int
        }) + (if x == ph {
            1int
        } else {
            0int
        }),
    decreases s.len(),
{
    if i == s.len() - 1 {
        assert(s.update(i, x).drop_last() =~= s.drop_last());
    } else {
        assert(s.update(i, x).drop_last() =~= s.drop_last().update(i, x));
        lemma_count_update(s.drop_last(), i, x, ph);
    }
}

/// Never-wrapping increment as the runtime's saturating-free counters show
/// it: the successor, wrapping around at the machine limit.
pub open spec fn wrap_inc(x: int) -> int {
    if x == usize::MAX {
        0
    } else {
        x + 1
    }
}

/// Wrapping decrement, the counterpart of `wrap_inc`.
pub open spec fn wrap_dec(x: int) -> int {
    if x == 0 {
        usize::MAX as int
    } else {
        x - 1
    }
}

/// Represents the status of the thread pool (e.g. size, queued jobs, active
/// jobs).  The counters wrap at the machine limits and never abort.
#[derive(Clone, Copy, Debug)]
pub struct ThreadPoolStatus {
    size: usize,
    queued_count: usize,
    active_count: usize,
}

impl ThreadPoolStatus {
    pub closed spec fn spec_size(&self) -> usize {
        self.size
    }

    pub closed spec fn spec_queued(&self) -> usize {
        self.queued_count
    }

    pub closed spec fn spec_active(&self) -> usize {
        self.active_count
    }

    pub fn new(size: usize) -> (r: ThreadPoolStatus)
        ensures
            r.spec_size() == size,
            r.spec_queued() == 0,
            r.spec_active() == 0,
    {
        ThreadPoolStatus { size, queued_count: 0, active_count: 0 }
    }

    pub fn size(&self) -> (r: usize)
        ensures
            r == self.spec_size(),
    {
        self.size
    }

    pub fn queued(&self) -> (r: usize)
        ensures
            r == self.spec_queued(),
    {
        self.queued_count
    }

    pub fn active(&self) -> (r: usize)
        ensures
            r == self.spec_active(),
    {
        self.active_count
    }

    pub fn inc_queued_count(&mut self)
        ensures
            final(self).spec_queued() == wrap_inc(old(self).spec_queued() as int),
            final(self).spec_size() == old(self).spec_size(),
            final(self).spec_active() == old(self).spec_active(),
    {
        self.queued_count = self.queued_count.wrapping_add(1);
    }

    pub fn dec_queued_count(&mut self)
        ensures
            final(self).spec_queued() == wrap_dec(old(self).spec_queued() as int),
            final(self).spec_size() == old(self).spec_size(),
            final(self).spec_active() == old(self).spec_active(),
    {
        self.queued_count = self.queued_count.wrapping_sub(1);
    }

    pub fn inc_active_count(&mut self)
        ensures
            final(self).spec_active() == wrap_inc(old(self).spec_active() as int),
            final(self).spec_size() == old(self).spec_size(),
            final(self).spec_queued() == old(self).spec_queued(),
    {
        self.active_count = self.active_count.wrapping_add(1);
    }

    pub fn dec_active_count(&mut self)
        ensures
            final(self).spec_active() == wrap_dec(old(self).spec_active() as int),
            final(self).spec_size() == old(self).spec_size(),
            final(self).spec_queued() == old(self).spec_queued(),
    {
        self.active_count = self.active_count.wrapping_sub(1);
    }

    pub fn inc_size(&mut self)
        ensures
            final(self).spec_size() == wrap_inc(old(self).spec_size() as int),
            final(self).spec_queued() == old(self).spec_queued(),
            final(self).spec_active() == old(self).spec_active(),
    {
        self.size = self.size.wrapping_add(1);
    }

    pub fn dec_size(&mut self)
        ensures
            final(self).spec_size() == wrap_dec(old(self).spec_size() as int),
            final(self).spec_queued() == old(self).spec_queued(),
            final(self).spec_active() == old(self).spec_active(),
    {
        self.size = self.size.wrapping_sub(1);
    }
}

/// Thread pool state used in multi-threaded composition calls: the status
/// counters plus the phase and result slot of every task ever submitted,
/// indexed by submission order.
pub struct ThreadPool {
    status: ThreadPoolStatus,
    started: bool,
    tasks: Vec<TaskPhase>,
    results: Vec<Option<ResultMessage>>,
}

impl ThreadPool {
    pub closed spec fn spec_status(&self) -> ThreadPoolStatus {
        self.status
    }

    pub closed spec fn spec_tasks(&self) -> Seq<TaskPhase> {
        self.tasks@
    }

    pub closed spec fn spec_results(&self) -> Seq<Option<ResultMessage>> {
        self.results@
    }

    pub closed spec fn spec_started(&self) -> bool {
        self.started
    }

    /// The pool invariant: one result slot per task, the queued and active
    /// counters count exactly the queued and running tasks, no more tasks
    /// run than workers live, and a result is posted exactly for the tasks
    /// that finished and whose result was not collected yet.
    pub open spec fn wf(&self) -> bool {
        &&& self.spec_results().len() == self.spec_tasks().len()
        &&& self.spec_status().spec_queued() == count_phase(self.spec_tasks(), TaskPhase::Queued)
        &&& self.spec_status().spec_active() == count_phase(self.spec_tasks(), TaskPhase::Running)
        &&& self.spec_status().spec_active() <= self.spec_status().spec_size()
        &&& forall|i: int|
            0 <= i < self.spec_tasks().len() ==> ((#[trigger] self.spec_tasks()[i]
                == TaskPhase::Done) <==> self.spec_results()[i] is Some)
    }

    /// Creates a thread pool state with `size` worker threads; a zero size
    /// is rejected.
    pub fn new(size: usize) -> (r: Result<ThreadPool, PConvertError>)
        ensures
            size == 0 ==> (r matches Err(PConvertError::ArgumentError(m)) && m@
                == "Thread Pool size should be a positive number"@),
            size > 0 ==> (r matches Ok(pool) && pool.wf() && !pool.spec_started()
                && pool.spec_status().spec_size() == size && pool.spec_status().spec_queued() == 0
                && pool.spec_status().spec_active() == 0 && pool.spec_tasks().len() == 0),
    {
        if size == 0 {
            return Err(
                PConvertError::ArgumentError(
                    String::from_str("Thread Pool size should be a positive number"),
                ),
            );
        }
        Ok(
            ThreadPool {
                status: ThreadPoolStatus::new(size),
                started: false,
                tasks: Vec::new(),
                results: Vec::new(),
            },
        )
    }

    /// Begin execution of worker threads: the runtime spawns them; the state
    /// machine records that the pool is live.
    pub fn start(&mut self)
        requires
            old(self).wf(),
        ensures
            final(self).wf(),
            final(self).spec_started(),
            final(self).spec_status() == old(self).spec_status(),
            final(self).spec_tasks() == old(self).spec_tasks(),
            final(self).spec_results() == old(self).spec_results(),
    {
        self.started = true;
    }

    /// Submits a task: a fresh slot in queued phase, counted by the queued
    /// counter.  The returned index identifies the task's private result
    /// slot, so the submitter can collect that result independently of every
    /// other outstanding task.
    pub fn execute(&mut self) -> (task_id: usize)
        requires
            old(self).wf(),
            old(self).spec_tasks().len() < usize::MAX,
        ensures
            final(self).wf(),
            task_id == old(self).spec_tasks().len(),
            final(self).spec_tasks() == old(self).spec_tasks().push(TaskPhase::Queued),
            final(self).spec_results() == old(self).spec_results().push(
                None::<ResultMessage>,
            ),
            final(self).spec_status().spec_queued() == old(self).spec_status().spec_queued() + 1,
            final(self).spec_status().spec_active() == old(self).spec_status().spec_active(),
            final(self).spec_status().spec_size() == old(self).spec_status().spec_size(),
            final(self).spec_started() == old(self).spec_started(),
    {
        proof {
            lemma_count_push(self.spec_tasks(), TaskPhase::Queued, TaskPhase::Queued);
            lemma_count_push(self.spec_tasks(), TaskPhase::Running, TaskPhase::Queued);
            lemma_count_le_len(self.spec_tasks().push(TaskPhase::Queued), TaskPhase::Queued);
        }
        let task_id = self.tasks.len();
        self.tasks.push(TaskPhase::Queued);
        self.results.push(None);
        self.status.inc_queued_count();
        task_id
    }

    /// An idle live worker claims a queued task: it leaves the queue and
    /// starts running.
    pub fn claim_task(&mut self, task_id: usize)
        requires
            old(self).wf(),
            task_id < old(self).spec_tasks().len(),
            old(self).spec_tasks()[task_id as int] == TaskPhase::Queued,
            old(self).spec_status().spec_active() < old(self).spec_status().spec_size(),
        ensures
            final(self).wf(),
            final(self).spec_tasks() == old(self).spec_tasks().update(
                task_id as int,
                TaskPhase::Running,
            ),
            final(self).spec_results() == old(self).spec_results(),
            final(self).spec_status().spec_queued() == old(self).spec_status().spec_queued() - 1,
            final(self).spec_status().spec_active() == old(self).spec_status().spec_active() + 1,
            final(self).spec_status().spec_size() == old(self).spec_status().spec_size(),
            final(self).spec_started() == old(self).spec_started(),
    {
        proof {
            lemma_count_update(self.spec_tasks(), task_id as int, TaskPhase::Running,
                TaskPhase::Queued);
            lemma_count_update(self.spec_tasks(), task_id as int, TaskPhase::Running,
                TaskPhase::Running);
            lemma_count_le_len(self.spec_tasks().update(task_id as int, TaskPhase::Running),
                TaskPhase::Queued);
            lemma_count_le_len(self.spec_tasks().update(task_id as int, TaskPhase::Running),
                TaskPhase::Running);
        }
        self.tasks.set(task_id, TaskPhase::Running);
        self.status.dec_queued_count();
        self.status.inc_active_count();
    }

    /// A worker finishes a running task and posts its result into the task's
    /// private slot; the slot was empty, so the result exists exactly once.
    pub fn finish_task(&mut self, task_id: usize, result: ResultMessage)
        requires
            old(self).wf(),
            task_id < old(self).spec_tasks().len(),
            old(self).spec_tasks()[task_id as int] == TaskPhase::Running,
        ensures
            final(self).wf(),
            final(self).spec_tasks() == old(self).spec_tasks().update(
                task_id as int,
                TaskPhase::Done,
            ),
            final(self).spec_results() == old(self).spec_results().update(
                task_id as int,
                Some(result),
            ),
            final(self).spec_status().spec_queued() == old(self).spec_status().spec_queued(),
            final(self).spec_status().spec_active() == old(self).spec_status().spec_active() - 1,
            final(self).spec_status().spec_size() == old(self).spec_status().spec_size(),
            final(self).spec_started() == old(self).spec_started(),
    {
        proof {
            lemma_count_update(self.spec_tasks(), task_id as int, TaskPhase::Done,
                TaskPhase::Queued);
            lemma_count_update(self.spec_tasks(), task_id as int, TaskPhase::Done,
                TaskPhase::Running);
            lemma_count_le_len(self.spec_tasks().update(task_id as int, TaskPhase::Done),
                TaskPhase::Running);
        }
        self.tasks.set(task_id, TaskPhase::Done);
        self.results.set(task_id, Some(result));
        self.status.dec_active_count();
    }

    /// The submitter collects the posted result, emptying the slot: after
    /// this the task counts as collected and the result cannot be delivered
    /// a second time.
    pub fn take_result(&mut self, task_id: usize) -> (r: ResultMessage)
        requires
            old(self).wf(),
            task_id < old(self).spec_tasks().len(),
            old(self).spec_tasks()[task_id as int] == TaskPhase::Done,
        ensures
            final(self).wf(),
            old(self).spec_results()[task_id as int] == Some(r),
            final(self).spec_tasks() == old(self).spec_tasks().update(
                task_id as int,
                TaskPhase::Collected,
            ),
            final(self).spec_results() == old(self).spec_results().update(
                task_id as int,
                None::<ResultMessage>,
            ),
            final(self).spec_status() == old(self).spec_status(),
            final(self).spec_started() == old(self).spec_started(),
    {
        proof {
            lemma_count_update(self.spec_tasks(), task_id as int, TaskPhase::Collected,
                TaskPhase::Queued);
            lemma_count_update(self.spec_tasks(), task_id as int, TaskPhase::Collected,
                TaskPhase::Running);
        }
        self.tasks.set(task_id, TaskPhase::Collected);
        let slot = self.results.remove(task_id);
        self.results.insert(task_id, None);
        proof {
            assert(self.results@ =~= old(self).spec_results().update(
                task_id as int,
                None::<ResultMessage>,
            ));
        }
        match slot {
            Some(result) => result,
            None => {
                proof {
                    assert(false);
                }
                unreached()
            },
        }
    }

    /// Expands the thread pool to `num_threads` workers, clamped to the
    /// configured ceiling; the pool never shrinks here.
    pub fn expand_to(&mut self, num_threads: usize)
        requires
            old(self).wf(),
        ensures
            final(self).wf(),
            final(self).spec_status().spec_size() == (if old(self).spec_status().spec_size()
                >= (if num_threads <= MAX_THREAD_POOL_SIZE {
                num_threads as int
            } else {
                MAX_THREAD_POOL_SIZE as int
            }) {
                old(self).spec_status().spec_size() as int
            } else {
                (if num_threads <= MAX_THREAD_POOL_SIZE {
                    num_threads as int
                } else {
                    MAX_THREAD_POOL_SIZE as int
                })
            }),
            final(self).spec_status().spec_queued() == old(self).spec_status().spec_queued(),
            final(self).spec_status().spec_active() == old(self).spec_status().spec_active(),
            final(self).spec_tasks() == old(self).spec_tasks(),
            final(self).spec_results() == old(self).spec_results(),
            final(self).spec_started() == old(self).spec_started(),
    {
        let target = if num_threads <= MAX_THREAD_POOL_SIZE {
            num_threads
        } else {
            MAX_THREAD_POOL_SIZE
        };
        while self.status.size() < target
            invariant
                old(self).wf(),
                target <= MAX_THREAD_POOL_SIZE,
                self.wf(),
                self.spec_status().spec_size() <= (if old(self).spec_status().spec_size()
                    >= target {
                    old(self).spec_status().spec_size() as int
                } else {
                    target as int
                }),
                self.spec_status().spec_size() >= old(self).spec_status().spec_size(),
                self.spec_status().spec_queued() == old(self).spec_status().spec_queued(),
                self.spec_status().spec_active() == old(self).spec_status().spec_active(),
                self.spec_tasks() == old(self).spec_tasks(),
                self.spec_results() == old(self).spec_results(),
                self.spec_started() == old(self).spec_started(),
            decreases target - self.spec_status().spec_size(),
        {
            self.status.inc_size();
        }
    }

    /// Stops the pool once its queue has drained and every worker is idle:
    /// one termination per worker, after which no worker is live.
    pub fn stop(&mut self)
        requires
            old(self).wf(),
            old(self).spec_status().spec_queued() == 0,
            old(self).spec_status().spec_active() == 0,
        ensures
            final(self).wf(),
            final(self).spec_status().spec_size() == 0,
            final(self).spec_status().spec_queued() == 0,
            final(self).spec_status().spec_active() == 0,
            final(self).spec_tasks() == old(self).spec_tasks(),
            final(self).spec_results() == old(self).spec_results(),
    {
        while self.status.size() > 0
            invariant
                self.wf(),
                self.spec_status().spec_queued() == 0,
                self.spec_status().spec_active() == 0,
                self.spec_tasks() == old(self).spec_tasks(),
                self.spec_results() == old(self).spec_results(),
            decreases self.spec_status().spec_size(),
        {
            self.terminate_worker();
        }
    }

    /// An idle worker consumes a termination signal and exits.
    pub fn terminate_worker(&mut self)
        requires
            old(self).wf(),
            old(self).spec_status().spec_size() > 0,
            old(self).spec_status().spec_active() < old(self).spec_status().spec_size(),
        ensures
            final(self).wf(),
            final(self).spec_status().spec_size() == old(self).spec_status().spec_size() - 1,
            final(self).spec_status().spec_queued() == old(self).spec_status().spec_queued(),
            final(self).spec_status().spec_active() == old(self).spec_status().spec_active(),
            final(self).spec_tasks() == old(self).spec_tasks(),
            final(self).spec_results() == old(self).spec_results(),
            final(self).spec_started() == old(self).spec_started(),
    {
        self.status.dec_size();
    }

    /// How many tasks were ever submitted.
    pub fn task_count(&self) -> (r: usize)
        ensures
            r == self.spec_tasks().len(),
    {
        self.tasks.len()
    }

    /// The lifecycle phase a task is in.
    pub fn task_phase(&self, task_id: usize) -> (ph: TaskPhase)
        requires
            task_id < self.spec_tasks().len(),
        ensures
            ph == self.spec_tasks()[task_id as int],
    {
        self.tasks[task_id]
    }

    /// Returns a point-in-time snapshot of the status counters.
    pub fn get_status(&self) -> (r: ThreadPoolStatus)
        ensures
            r.spec_size() == self.spec_status().spec_size(),
            r.spec_queued() == self.spec_status().spec_queued(),
            r.spec_active() == self.spec_status().spec_active(),
    {
        self.status
    }
}

/// How many result slots are filled.
pub open spec fn count_some(s: Seq<Option<ResultMessage>>) -> int
    decreases s.len(),
{
    if s.len() == 0 {
        0
    } else {
        count_some(s.drop_last()) + if s.last() is Some {
            1int
        } else {
            0int
        }
    }
}

/// Status invariant: at every observed snapshot of a well-formed pool the
/// number of running tasks never exceeds the number of live workers.
pub proof fn lemma_active_le_size(pool: ThreadPool)
    requires
        pool.wf(),
    ensures
        pool.spec_status().spec_active() <= pool.spec_status().spec_size(),
{
}

/// Exactly-once delivery: submitting `k` tasks yields `k` result slots, and
/// once every submitted task has finished, every slot holds exactly one
/// uncollected result.  A slot is filled only by `finish_task` on a running
/// task and emptied only by `take_result` on a finished one, so no result is
/// posted or handed out twice.
pub proof fn lemma_exactly_once_delivery(pool: ThreadPool)
    requires
        pool.wf(),
        forall|i: int|
            0 <= i < pool.spec_tasks().len() ==> #[trigger] pool.spec_tasks()[i]
                == TaskPhase::Done,
    ensures
        forall|i: int| 0 <= i < pool.spec_tasks().len() ==> pool.spec_results()[i] is Some,
        count_some(pool.spec_results()) == pool.spec_tasks().len(),
{
    assert forall|i: int| 0 <= i < pool.spec_tasks().len() implies pool.spec_results()[i]
        is Some by {
        assert(pool.spec_tasks()[i] == TaskPhase::Done);
    }
    lemma_count_some_all(pool.spec_results());
}

proof fn lemma_count_some_all(s: Seq<Option<ResultMessage>>)
    requires
        forall|i: int| 0 <= i < s.len() ==> (#[trigger] s[i]) is Some,
    ensures
        count_some(s) == s.len(),
    decreases s.len(),
{
    if s.len() > 0 {
        lemma_count_some_all(s.drop_last());
    }
}

} // verus!
