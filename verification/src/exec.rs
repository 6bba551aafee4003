//! The submission and execution protocol of the single-thread executor.
//!
//! Work from any number of submitters is handed to one dedicated worker
//! through the lock-free stack: a submission builds a task node, pushes it,
//! and learns from the push whether it turned the queue from empty to
//! non-empty — the one submitter that did is responsible for waking the
//! worker. The worker drains the queue in one pass, reverses the drained
//! batch so that tasks run in submission order within the batch, executes
//! them one by one, and fires each task's completion with its own outcome;
//! a failure raised by one task is recorded for exactly that task and never
//! disturbs the rest of the batch. Shutdown refuses further submissions,
//! runs one final drain-and-execute pass, and stops the worker, so nothing
//! accepted is ever left unexecuted.
//!
//! This module is the decision core of the protocol: it owns the queue,
//! the bookkeeping and every rule, while an embedding that runs caller
//! closures on a real worker thread performs each decided action (park,
//! wake, run) and feeds the produced value back in. A task's work is
//! therefore carried as the value the computation produces: a success
//! value, or the description of the failure it raised.

use vstd::prelude::*;
use crate::lock_free_stack::{LockFreeStack, Node};

verus! {

/// Why a submission did not deliver a success value.
#[derive(Debug, PartialEq, Eq)]
pub enum Failure {
    /// The submission arrived after shutdown had begun; it was never queued.
    SubmissionRejected,
    /// The submitted work raised a failure while running on the worker; the
    /// original description is preserved.
    TaskFailed(String),
    /// The worker thread was found to have stopped unexpectedly. Defensive:
    /// nothing in this module produces it; an embedding reports it when
    /// joining the worker thread fails.
    ExecutorStopped,
}

/// The worker's place in its loop.
#[derive(Debug, Clone, Copy, PartialEq, Eq, Structural)]
pub enum WorkerState {
    /// Blocked on the wake signal; the queue was observed empty.
    Parked,
    /// Popping the queue into a local batch.
    Draining,
    /// Running the reversed batch, one task at a time.
    Executing,
    /// The shutdown flag was observed; one final drain is running.
    ShuttingDown,
    /// The worker has exited.
    Stopped,
}

/// A queued task: the ticket identifying the submission, and the work to
/// run, carried as the value it produces when executed.
pub struct Pending<T> {
    pub id: u64,
    pub work: Result<T, String>,
}

/// A fired completion signal: the ticket of a submission and the outcome
/// recorded for it. Fired exactly once per accepted submission.
pub struct Completion<T> {
    pub id: u64,
    pub outcome: Result<T, Failure>,
}

/// The outcome the worker records for a piece of work: the success value
/// as it is, a raised failure converted to `TaskFailed` with its
/// description preserved.
pub open spec fn run_work<T>(work: Result<T, String>) -> Result<T, Failure> {
    match work {
        Ok(value) => Ok(value),
        Err(cause) => Err(Failure::TaskFailed(cause)),
    }
}

/// The completion a task fires: its own ticket, its own outcome.
pub open spec fn completion_of<T>(task: Pending<T>) -> Completion<T> {
    Completion { id: task.id, outcome: run_work(task.work) }
}

/// The executor: the hand-off queue, the worker's state, the shutdown flag,
/// and the record of every completion fired so far.
pub struct Executor<T> {
    queue: LockFreeStack<Pending<T>>,
    state: WorkerState,
    shutting_down: bool,
    next_id: u64,
    completed: Vec<Completion<T>>,
    history: Ghost<Seq<u64>>,
}

impl<T> Executor<T> {
    /// Tasks accepted and not yet executed, in submission order.
    pub closed spec fn pending(self) -> Seq<Pending<T>> {
        self.queue@
    }

    /// Completions fired so far, oldest first.
    pub closed spec fn completions(self) -> Seq<Completion<T>> {
        self.completed@
    }

    /// Whether shutdown has begun.
    pub closed spec fn shutting(self) -> bool {
        self.shutting_down
    }

    /// The worker's state.
    pub closed spec fn worker_state(self) -> WorkerState {
        self.state
    }

    /// Tickets of every accepted submission, in submission order.
    pub closed spec fn submitted(self) -> Seq<u64> {
        self.history@
    }

    /// Tickets of the tasks accepted and not yet executed.
    pub open spec fn pending_ids(self) -> Seq<u64> {
        self.pending().map_values(|task: Pending<T>| task.id)
    }

    /// Tickets of the completions fired so far.
    pub open spec fn completed_ids(self) -> Seq<u64> {
        self.completions().map_values(|completion: Completion<T>| completion.id)
    }

    /// The executor's invariant. Every accepted ticket is either still
    /// pending or already completed — never both, never lost: the completed
    /// tickets followed by the pending ones are exactly the accepted ones in
    /// submission order. Tickets are handed out as consecutive counters, and
    /// the worker is parked until shutdown stops it.
    pub closed spec fn wf(self) -> bool {
        &&& self.submitted() == self.completed_ids() + self.pending_ids()
        &&& (forall|i: int| 0 <= i < self.submitted().len() ==> self.submitted()[i] == i as u64)
        &&& self.next_id == self.submitted().len()
        &&& (self.shutting() <==> self.state is Stopped)
        &&& (!self.shutting() ==> self.state is Parked)
        &&& (self.state is Stopped ==> self.pending().len() == 0)
    }

    /// Create an executor: empty queue, no completions, worker parked.
    pub fn new() -> (executor: Executor<T>)
        ensures
            executor.wf(),
            executor.pending() == Seq::<Pending<T>>::empty(),
            executor.completions() == Seq::<Completion<T>>::empty(),
            executor.submitted() == Seq::<u64>::empty(),
            !executor.shutting(),
            executor.worker_state() == WorkerState::Parked,
    {
        let executor = Executor {
            queue: LockFreeStack::new(),
            state: WorkerState::Parked,
            shutting_down: false,
            next_id: 0,
            completed: Vec::new(),
            history: Ghost(Seq::empty()),
        };
        proof {
            assert(executor.pending_ids() =~= Seq::<u64>::empty());
            assert(executor.completed_ids() =~= Seq::<u64>::empty());
            assert(executor.submitted() =~= executor.completed_ids() + executor.pending_ids());
        }
        executor
    }

    /// Accept one piece of work: build its node, push it, and report the
    /// ticket together with the wake decision. The wake flag is `true`
    /// exactly when this submission turned the queue from empty to
    /// non-empty; the one submitter that observes `true` wakes the worker,
    /// every other one relies on the worker's re-check before parking.
    /// After shutdown has begun the work is rejected at once, never queued.
    pub fn submit(&mut self, work: Result<T, String>) -> (r: Result<(u64, bool), Failure>)
        requires
            old(self).wf(),
            old(self).submitted().len() < u64::MAX,
        ensures
            final(self).wf(),
            old(self).shutting() ==> {
                &&& r == Err::<(u64, bool), Failure>(Failure::SubmissionRejected)
                &&& *final(self) == *old(self)
            },
            !old(self).shutting() ==> {
                &&& r is Ok
                &&& final(self).pending() == old(self).pending().push(
                    (Pending { id: r->Ok_0.0, work }),
                )
                &&& final(self).submitted() == old(self).submitted().push(r->Ok_0.0)
                &&& r->Ok_0.1 == (old(self).pending().len() == 0)
                &&& (forall|i: int|
                    0 <= i < old(self).submitted().len() ==> old(self).submitted()[i]
                        != r->Ok_0.0)
                &&& final(self).completions() == old(self).completions()
                &&& final(self).shutting() == old(self).shutting()
                &&& final(self).worker_state() == old(self).worker_state()
            },
    {
        if self.shutting_down {
            return Err(Failure::SubmissionRejected);
        }
        let id = self.next_id;
        self.next_id = self.next_id + 1;
        let was_empty = self.queue.push(Node::new(Pending { id, work }));
        self.history = Ghost(self.history@.push(id));
        proof {
            assert(self.pending_ids() =~= old(self).pending_ids().push(id));
            assert(self.submitted() =~= self.completed_ids() + self.pending_ids());
        }
        Ok((id, was_empty))
    }

    /// Drain the queue in one pass. The batch comes back as the worker
    /// collects it: newest submission first, the reverse of submission
    /// order.
    fn drain(&mut self) -> (drained: Vec<Pending<T>>)
        ensures
            final(self).queue@ == Seq::<Pending<T>>::empty(),
            drained@ == old(self).queue@.reverse(),
            final(self).completed@ == old(self).completed@,
            final(self).state == old(self).state,
            final(self).shutting_down == old(self).shutting_down,
            final(self).next_id == old(self).next_id,
            final(self).history@ == old(self).history@,
    {
        let ghost queued = self.queue@;
        let ghost total = self.queue@.len() as int;
        let mut drained: Vec<Pending<T>> = Vec::new();
        proof {
            assert(queued.subrange(0, total) =~= queued);
        }
        loop
            invariant
                total == queued.len(),
                self.queue@.len() + drained@.len() == total,
                self.queue@ == queued.subrange(0, self.queue@.len() as int),
                forall|j: int|
                    0 <= j < drained@.len() ==> drained@[j] == queued[total - 1 - j],
                self.completed@ == old(self).completed@,
                self.state == old(self).state,
                self.shutting_down == old(self).shutting_down,
                self.next_id == old(self).next_id,
                self.history@ == old(self).history@,
            ensures
                self.queue@.len() == 0,
            decreases self.queue@.len(),
        {
            let ghost before = self.queue@;
            match self.queue.pop() {
                None => {
                    break;
                },
                Some(node) => {
                    proof {
                        let m = before.len() as int;
                        assert(m > 0);
                        assert(before =~= queued.subrange(0, m));
                        assert(queued.subrange(0, m)[m - 1] == queued[m - 1]);
                        assert(before[m - 1] == queued[m - 1]);
                    }
                    drained.push(node.into_value());
                    proof {
                        let m = before.len() as int;
                        assert(self.queue@ =~= before.drop_last());
                        assert(before.drop_last() =~= queued.subrange(0, m - 1));
                    }
                },
            }
        }
        proof {
            assert(drained@ =~= queued.reverse());
        }
        drained
    }

    /// Execute one drained batch. Popping the batch from its tail undoes the
    /// drain's reversal, so the tasks run in submission order; each task's
    /// outcome is recorded and its completion fired before the next task
    /// runs, and a failing task never disturbs the rest of the batch.
    fn execute_batch(&mut self, batch: Vec<Pending<T>>)
        ensures
            final(self).completed@ == old(self).completed@ + batch@.reverse().map_values(
                |task: Pending<T>| completion_of(task),
            ),
            final(self).queue@ == old(self).queue@,
            final(self).state == old(self).state,
            final(self).shutting_down == old(self).shutting_down,
            final(self).next_id == old(self).next_id,
            final(self).history@ == old(self).history@,
    {
        let ghost ordered = batch@.reverse();
        let ghost total = ordered.len() as int;
        let ghost recorded = self.completed@;
        let mut batch = batch;
        loop
            invariant
                batch@.len() <= total,
                ordered.len() == total,
                forall|j: int|
                    0 <= j < batch@.len() ==> batch@[j] == ordered[total - 1 - j],
                self.completed@ == recorded + ordered.subrange(
                    0,
                    total - batch@.len(),
                ).map_values(|task: Pending<T>| completion_of(task)),
                self.queue@ == old(self).queue@,
                self.state == old(self).state,
                self.shutting_down == old(self).shutting_down,
                self.next_id == old(self).next_id,
                self.history@ == old(self).history@,
            ensures
                batch@.len() == 0,
            decreases batch@.len(),
        {
            let ghost done = total - batch@.len();
            match batch.pop() {
                None => {
                    break;
                },
                Some(task) => {
                    proof {
                        assert(task == ordered[done]);
                    }
                    let outcome = match task.work {
                        Ok(value) => Ok(value),
                        Err(cause) => Err(Failure::TaskFailed(cause)),
                    };
                    self.completed.push(Completion { id: task.id, outcome });
                    proof {
                        assert(ordered.subrange(0, done + 1) =~= ordered.subrange(
                            0,
                            done,
                        ).push(ordered[done]));
                        assert(ordered.subrange(0, done + 1).map_values(
                            |t: Pending<T>| completion_of(t),
                        ) =~= ordered.subrange(0, done).map_values(
                            |t: Pending<T>| completion_of(t),
                        ).push(completion_of(ordered[done])));
                    }
                },
            }
        }
        proof {
            assert(ordered.subrange(0, total) =~= ordered);
        }
    }

    /// One wake-to-park cycle of the worker: drain the queue in one pass,
    /// reverse the drained batch into submission order, execute each task in
    /// order, and fire each task's completion. On return the queue has been
    /// re-checked empty — the re-check before parking is what lets a
    /// submitter skip the wake when the queue was already non-empty.
    pub fn run_pending(&mut self)
        requires
            old(self).wf(),
        ensures
            final(self).wf(),
            final(self).pending().len() == 0,
            final(self).completions() == old(self).completions() + old(self).pending().map_values(
                |task: Pending<T>| completion_of(task),
            ),
            final(self).submitted() == old(self).submitted(),
            final(self).shutting() == old(self).shutting(),
            final(self).worker_state() == old(self).worker_state(),
    {
        let resume = self.state;
        self.state = WorkerState::Draining;
        let drained = self.drain();
        self.state = WorkerState::Executing;
        proof {
            assert(drained@.reverse() =~= old(self).pending());
        }
        self.execute_batch(drained);
        self.state = resume;
        proof {
            self.lemma_wf_after_drain(*old(self));
        }
    }

    /// Begin teardown: refuse further submissions from this point on, run
    /// one final drain-and-execute pass over whatever is still queued, and
    /// stop the worker. A second call finds the queue already empty and
    /// changes nothing further — shutdown is idempotent.
    pub fn shutdown(&mut self)
        requires
            old(self).wf(),
        ensures
            final(self).wf(),
            final(self).shutting(),
            final(self).worker_state() == WorkerState::Stopped,
            final(self).pending().len() == 0,
            final(self).completions() == old(self).completions() + old(self).pending().map_values(
                |task: Pending<T>| completion_of(task),
            ),
            final(self).submitted() == old(self).submitted(),
    {
        self.shutting_down = true;
        self.state = WorkerState::ShuttingDown;
        let drained = self.drain();
        proof {
            assert(drained@.reverse() =~= old(self).pending());
        }
        self.execute_batch(drained);
        self.state = WorkerState::Stopped;
        proof {
            self.lemma_wf_after_drain(*old(self));
        }
    }

    /// After a full drain the record absorbs the whole former queue: the
    /// bookkeeping invariant survives every drain-and-execute pass.
    proof fn lemma_wf_after_drain(self, before: Executor<T>)
        requires
            before.wf(),
            self.pending().len() == 0,
            self.completions() == before.completions() + before.pending().map_values(
                |task: Pending<T>| completion_of(task),
            ),
            self.submitted() == before.submitted(),
            self.next_id == before.next_id,
            self.shutting() ==> self.state is Stopped,
            !self.shutting() ==> self.state is Parked,
            self.shutting() == (self.state is Stopped),
        ensures
            self.wf(),
    {
        assert(self.completed_ids() =~= before.completed_ids() + before.pending_ids());
        assert(self.pending_ids() =~= Seq::<u64>::empty());
        assert(self.submitted() =~= self.completed_ids() + self.pending_ids());
    }

    /// Read the completions fired so far, oldest first.
    pub fn completions_ref(&self) -> (r: &Vec<Completion<T>>)
        ensures
            r@ == self.completions(),
    {
        &self.completed
    }

    /// Whether shutdown has begun; a submission arriving now is rejected.
    pub fn is_shutting_down(&self) -> (r: bool)
        ensures
            r == self.shutting(),
    {
        self.shutting_down
    }

    /// The worker's state as last recorded.
    pub fn current_state(&self) -> (r: WorkerState)
        ensures
            r == self.worker_state(),
    {
        self.state
    }
}

/// Within-batch ordering: the completions one drained batch fires line up
/// index by index with the batch in submission order — the task submitted
/// k-th among those drained together is the k-th to complete.
pub proof fn lemma_within_batch_order<T>(batch: Seq<Pending<T>>, k: int)
    requires
        0 <= k < batch.len(),
    ensures
        batch.map_values(|task: Pending<T>| completion_of(task)).len() == batch.len(),
        batch.map_values(|task: Pending<T>| completion_of(task))[k].id == batch[k].id,
{
}

/// Failure isolation: within one drained batch, each task's recorded outcome
/// is a function of that task's own work alone. The submission whose work
/// raised a failure observes `TaskFailed` with its own description, while
/// every other task in the same batch still records its own normal outcome.
pub proof fn lemma_failure_isolation<T>(batch: Seq<Pending<T>>, i: int, j: int)
    requires
        0 <= i < batch.len(),
        0 <= j < batch.len(),
        batch[i].work is Err,
        batch[j].work is Ok,
    ensures
        batch.map_values(|task: Pending<T>| completion_of(task))[i].outcome == Err::<
            T,
            Failure,
        >(Failure::TaskFailed(batch[i].work->Err_0)),
        batch.map_values(|task: Pending<T>| completion_of(task))[j].outcome == Ok::<
            T,
            Failure,
        >(batch[j].work->Ok_0),
{
}

/// Shutdown completeness: once the queue has been fully drained — as it is
/// whenever `shutdown` has returned — every accepted submission has fired
/// its completion, in submission order; nothing accepted is left
/// unexecuted.
pub proof fn lemma_shutdown_completeness<T>(executor: Executor<T>)
    requires
        executor.wf(),
        executor.pending().len() == 0,
    ensures
        executor.completed_ids() == executor.submitted(),
{
    assert(executor.pending_ids() =~= Seq::<u64>::empty());
    assert(executor.completed_ids() =~= executor.completed_ids() + executor.pending_ids());
}

} // verus!
