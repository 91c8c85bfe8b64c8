//! Tasks, and the pool of workers that takes them from a queue.
//!
//! A task is one (module, notification) pair. Tasks wait in a FIFO queue;
//! a worker that finds the queue empty registers itself as parked, and
//! spawning a task hands out one parked worker to wake, if there is one.
//! The pool decides; the threads that run the workers live outside it.

use std::collections::VecDeque;
use std::sync::Arc;
use vstd::prelude::*;

use crate::abi::Outcome;
use crate::db::{DbView, ModuleDatabase, ModuleId};
use crate::notification::Notification;

verus! {

/// Names the result sink of one task. Tickets are handed out one after the
/// other and go round after the last one: no two tasks that wait in a pool
/// share one.
pub type Ticket = u64;

/// Names one worker of the pool.
pub type WorkerId = usize;

/// One unit of work: run a module on a notification and signal the result
/// at the sink that `ticket` names.
#[derive(Debug)]
pub struct Task {
    pub module_id: ModuleId,
    pub notification: Arc<Notification>,
    pub ticket: Ticket,
}

/// A task as a mathematical value.
pub struct TaskView {
    pub module_id: ModuleId,
    pub payload: Seq<u8>,
    pub ticket: Ticket,
}

impl View for Task {
    type V = TaskView;

    open spec fn view(&self) -> TaskView {
        TaskView { module_id: self.module_id, payload: self.notification@, ticket: self.ticket }
    }
}

/// The result of one task, addressed to its sink.
#[derive(Debug, Clone, Copy, PartialEq, Eq)]
pub struct Signal {
    pub ticket: Ticket,
    pub outcome: Outcome,
}

impl Task {
    /// Ends the task: the signal that carries its outcome to its sink. The
    /// task is used up, so it is signalled once.
    pub fn finish(self, outcome: Outcome) -> (signal: Signal)
        ensures
            signal == (Signal { ticket: self.ticket, outcome }),
    {
        Signal { ticket: self.ticket, outcome }
    }
}

/// What the caller of `spawn` keeps: the sink at which the result of the
/// task will be signalled.
#[derive(Debug, Clone, Copy, PartialEq, Eq, Structural)]
pub struct JoinHandle {
    pub ticket: Ticket,
}

/// What `spawn` answers: the handle of the task's sink, and the worker that
/// left the parked set to take up work, for the caller to wake it.
#[derive(Debug, Clone, Copy, PartialEq, Eq)]
pub struct Spawned {
    pub handle: JoinHandle,
    pub woken: Option<WorkerId>,
}

/// The pool as a mathematical value.
pub struct PoolView {
    /// The tasks that wait, oldest first.
    pub queue: Seq<TaskView>,
    /// The workers that are parked; the last one is woken first.
    pub parked: Seq<WorkerId>,
    /// The ticket that the next task gets.
    pub tickets: int,
}

/// The ticket that comes `steps` tickets after the ticket `first`. After
/// the last ticket the first one comes again.
pub open spec fn ticket_after(first: int, steps: int) -> Ticket {
    ((first + steps) % 0x1_0000_0000_0000_0000) as Ticket
}

impl PoolView {
    /// No worker is parked twice, and the waiting tasks carry the tickets
    /// that were handed out last, in the order in which they were handed
    /// out: the newest task has the ticket before the next one.
    pub open spec fn valid(self) -> bool {
        &&& self.parked.no_duplicates()
        &&& 0 <= self.tickets <= u64::MAX
        &&& self.queue.len() <= u64::MAX
        &&& forall|i: int|
            0 <= i < self.queue.len() ==> (#[trigger] self.queue[i]).ticket == ticket_after(
                self.tickets - self.queue.len(),
                i,
            )
    }

    /// The pool after a task for that module was spawned: the task is the
    /// last of the queue, it carries the next ticket, and the worker that
    /// was parked last, if any, has left the parked set to be woken.
    pub open spec fn spawned(self, module_id: ModuleId, payload: Seq<u8>) -> PoolView {
        PoolView {
            queue: self.queue.push(
                TaskView { module_id, payload, ticket: self.tickets as Ticket },
            ),
            parked: self.woken().0,
            tickets: ticket_after(self.tickets, 1) as int,
        }
    }

    /// The parked set after one wake, and the worker to wake, if any.
    pub open spec fn woken(self) -> (Seq<WorkerId>, Option<WorkerId>) {
        if self.parked.len() > 0 {
            (self.parked.drop_last(), Some(self.parked.last()))
        } else {
            (self.parked, None)
        }
    }

    /// The parked set after a worker registered itself.
    pub open spec fn parked_with(self, worker: WorkerId) -> Seq<WorkerId> {
        if self.parked.contains(worker) {
            self.parked
        } else {
            self.parked.push(worker)
        }
    }
}

/// The signals of a worker that took the tasks of `queue`, oldest first,
/// and found `outcomes[i]` for the `i`-th of them.
pub open spec fn signals_of(queue: Seq<TaskView>, outcomes: Seq<Outcome>) -> Seq<Signal> {
    Seq::new(queue.len(), |i: int| Signal { ticket: queue[i].ticket, outcome: outcomes[i] })
}

/// The outcomes that a sequence of signals carries.
pub open spec fn outcomes_of(signals: Seq<Signal>) -> Seq<Outcome> {
    signals.map_values(|signal: Signal| signal.outcome)
}

/// Tickets that are less than a whole round apart differ.
pub proof fn lemma_tickets_differ(first: int, i: int, j: int)
    requires
        0 <= i < j <= u64::MAX,
    ensures
        ticket_after(first, i) != ticket_after(first, j),
{
}

/// The ticket after the ticket that comes `steps` after `first` is the one
/// that comes `steps + 1` after `first`.
pub proof fn lemma_ticket_after_next(first: int, steps: int)
    ensures
        ticket_after(ticket_after(first, steps) as int, 1) == ticket_after(first, steps + 1),
        0 <= first <= u64::MAX ==> ticket_after(first, 0) == first,
{
}

/// Every task that waits in a pool is signalled exactly once: there are as
/// many signals as tasks, one at the sink of each, and no two at the same
/// sink.
pub proof fn law_every_task_is_signalled_once(pool: PoolView, outcomes: Seq<Outcome>)
    requires
        pool.valid(),
        outcomes.len() == pool.queue.len(),
    ensures
        signals_of(pool.queue, outcomes).len() == pool.queue.len(),
        forall|i: int|
            0 <= i < pool.queue.len() ==> (#[trigger] signals_of(pool.queue, outcomes)[i]).ticket
                == pool.queue[i].ticket,
        forall|i: int, j: int|
            0 <= i < j < pool.queue.len() ==> (#[trigger] signals_of(pool.queue, outcomes)[i]).ticket
                != (#[trigger] signals_of(pool.queue, outcomes)[j]).ticket,
{
    let signals = signals_of(pool.queue, outcomes);
    assert forall|i: int, j: int| 0 <= i < j < pool.queue.len() implies (#[trigger] signals[i]).ticket
        != (#[trigger] signals[j]).ticket by {
        lemma_tickets_differ(pool.tickets - pool.queue.len(), i, j);
        assert(pool.queue[i].ticket != pool.queue[j].ticket);
    }
}

/// A task that fails changes the signal of no other task: had it ended
/// otherwise, every other sink would have been signalled the same.
pub proof fn law_failure_is_isolated(
    queue: Seq<TaskView>,
    outcomes: Seq<Outcome>,
    failed: int,
    outcome: Outcome,
)
    requires
        outcomes.len() == queue.len(),
        0 <= failed < queue.len(),
    ensures
        signals_of(queue, outcomes.update(failed, outcome)) == signals_of(queue, outcomes).update(
            failed,
            Signal { ticket: queue[failed].ticket, outcome },
        ),
        forall|i: int|
            0 <= i < queue.len() && i != failed ==> #[trigger] signals_of(
                queue,
                outcomes.update(failed, outcome),
            )[i] == signals_of(queue, outcomes)[i],
{
    assert(signals_of(queue, outcomes.update(failed, outcome)) =~= signals_of(
        queue,
        outcomes,
    ).update(failed, Signal { ticket: queue[failed].ticket, outcome }));
}

/// Whether `outcome` is what `execute` answered for a task with that view.
pub open spec fn executed<F: Fn(&Task) -> Outcome>(
    execute: F,
    task: TaskView,
    outcome: Outcome,
) -> bool {
    exists|run: Task| #[trigger] call_ensures(execute, (&run,), outcome) && run@ == task
}

/// A place where tasks can be queued for execution.
pub trait Runtime: Sized {
    /// Whether the runtime obeys its invariants.
    spec fn wf(&self) -> bool;

    /// The registry from which the runtime reads its modules.
    spec fn db_view(&self) -> DbView;

    /// The queue, the parked workers and the tickets.
    spec fn pool(&self) -> PoolView;

    /// A runtime over that registry, with nothing queued and no worker
    /// parked.
    fn new(db: ModuleDatabase) -> (runtime: Self)
        requires
            db.wf(),
        ensures
            runtime.wf(),
            runtime.db_view() == db@,
            runtime.pool() == (PoolView { queue: Seq::empty(), parked: Seq::empty(), tickets: 0 }),
    ;

    /// A runtime that obeys its invariants holds a valid registry and a
    /// valid pool.
    proof fn lemma_wf(&self)
        requires
            self.wf(),
        ensures
            self.db_view().valid(),
            self.pool().valid(),
    ;

    /// Queues a task for that module and notification behind all waiting
    /// tasks, and takes the worker that was parked last, if any, out of the
    /// parked set. Answers the handle of the task's result sink and the
    /// worker to wake.
    fn spawn(&mut self, module_id: ModuleId, notification: Arc<Notification>) -> (spawned:
        Spawned)
        requires
            old(self).wf(),
        ensures
            final(self).wf(),
            final(self).db_view() == old(self).db_view(),
            final(self).pool() == old(self).pool().spawned(module_id, notification@),
            spawned.handle.ticket == old(self).pool().tickets,
            spawned.woken == old(self).pool().woken().1,
    ;

    /// The registry of the runtime.
    fn get_db(&self) -> (db: &ModuleDatabase)
        requires
            self.wf(),
        ensures
            db.wf(),
            db@ == self.db_view(),
    ;

    /// Takes the worker that was parked last out of the parked set, for the
    /// caller to wake it. `None` if no worker is parked.
    fn wake(&mut self) -> (worker: Option<WorkerId>)
        requires
            old(self).wf(),
        ensures
            final(self).wf(),
            final(self).db_view() == old(self).db_view(),
            worker == old(self).pool().woken().1,
            final(self).pool() == (PoolView { parked: old(self).pool().woken().0, ..old(self).pool() }),
    ;
}

/// The pool of workers with its task queue.
pub struct WorkerPool {
    db: ModuleDatabase,
    tasks: VecDeque<Task>,
    workers: Vec<WorkerId>,
    tickets: Ticket,
}

impl WorkerPool {
    /// The tasks that wait, oldest first.
    pub closed spec fn queue(&self) -> Seq<TaskView> {
        self.tasks@.map_values(|task: Task| task@)
    }

    /// A pool over that registry, with nothing queued and no worker parked,
    /// whose first task gets the ticket `tickets`.
    pub fn resume(db: ModuleDatabase, tickets: Ticket) -> (pool: Self)
        requires
            db.wf(),
        ensures
            pool.wf(),
            pool.db_view() == db@,
            pool.pool() == (PoolView {
                queue: Seq::empty(),
                parked: Seq::empty(),
                tickets: tickets as int,
            }),
    {
        let pool = WorkerPool { db, tasks: VecDeque::new(), workers: Vec::new(), tickets };
        proof {
            assert(pool.queue() =~= Seq::empty());
        }
        pool
    }

    /// The number of waiting tasks.
    pub fn queued(&self) -> (n: usize)
        ensures
            n == self.pool().queue.len(),
    {
        self.tasks.len()
    }

    /// The number of parked workers.
    pub fn parked(&self) -> (n: usize)
        ensures
            n == self.pool().parked.len(),
    {
        self.workers.len()
    }

    /// The registry of the pool, to change it.
    pub fn get_db_mut(&mut self) -> (db: &mut ModuleDatabase)
        requires
            old(self).wf(),
        ensures
            db.wf(),
            db@ == old(self).db_view(),
            final(db).wf() ==> final(self).wf(),
            final(self).db_view() == final(db)@,
            final(self).pool() == old(self).pool(),
    {
        &mut self.db
    }

    /// One step of a worker's loop. Where a task waits, the worker gets the
    /// oldest one. Where none does, the worker is registered as parked and
    /// gets nothing: it is to park until it is woken.
    pub fn next_task(&mut self, worker: WorkerId) -> (task: Option<Task>)
        requires
            old(self).wf(),
        ensures
            final(self).wf(),
            final(self).db_view() == old(self).db_view(),
            final(self).pool().tickets == old(self).pool().tickets,
            match task {
                Some(task) => {
                    &&& old(self).pool().queue.len() > 0
                    &&& task@ == old(self).pool().queue.first()
                    &&& final(self).pool().queue == old(self).pool().queue.drop_first()
                    &&& final(self).pool().parked == old(self).pool().parked
                },
                None => {
                    &&& old(self).pool().queue.len() == 0
                    &&& final(self).pool().queue == old(self).pool().queue
                    &&& final(self).pool().parked == old(self).pool().parked_with(worker)
                },
            },
    {
        match self.tasks.pop_front() {
            Some(task) => {
                proof {
                    assert(self.queue() =~= old(self).queue().drop_first());
                    let before = old(self).pool();
                    let now = self.pool();
                    assert forall|i: int| 0 <= i < now.queue.len() implies (
                    #[trigger] now.queue[i]).ticket == ticket_after(
                        now.tickets - now.queue.len(),
                        i,
                    ) by {
                        assert(before.queue[i + 1].ticket == ticket_after(
                            before.tickets - before.queue.len(),
                            i + 1,
                        ));
                    }
                }
                Some(task)
            },
            None => {
                proof {
                    assert(self.queue() =~= old(self).queue());
                }
                if !self.is_parked(worker) {
                    self.workers.push(worker);
                    proof {
                        assert(self.queue() =~= old(self).queue());
                        assert(self.workers@ =~= old(self).workers@.push(worker));
                    }
                }
                None
            },
        }
    }

    /// The loop of one worker, run until the queue is empty: each waiting
    /// task is taken, oldest first, executed and signalled, whatever the
    /// outcome of the tasks before it. Then the worker is registered as
    /// parked. Answers the signals in the order of the tasks.
    pub fn run_worker<F: Fn(&Task) -> Outcome>(&mut self, worker: WorkerId, execute: F) -> (signals:
        Vec<Signal>)
        requires
            old(self).wf(),
            forall|task: Task| call_requires(execute, (&task,)),
        ensures
            final(self).wf(),
            final(self).db_view() == old(self).db_view(),
            final(self).pool() == (PoolView {
                queue: Seq::empty(),
                parked: old(self).pool().parked_with(worker),
                tickets: old(self).pool().tickets,
            }),
            signals@ == signals_of(old(self).pool().queue, outcomes_of(signals@)),
            forall|i: int|
                0 <= i < signals.len() ==> executed(
                    execute,
                    old(self).pool().queue[i],
                    (#[trigger] signals[i]).outcome,
                ),
    {
        let mut signals: Vec<Signal> = Vec::new();
        let ghost before = self.pool();
        let ghost db = self.db_view();
        proof {
            assert(before.queue.skip(0) =~= before.queue);
        }
        loop
            invariant_except_break
                self.wf(),
                self.db_view() == db,
                signals.len() <= before.queue.len(),
                self.pool() == (PoolView {
                    queue: before.queue.skip(signals.len() as int),
                    ..before
                }),
            invariant
                forall|task: Task| call_requires(execute, (&task,)),
                forall|i: int|
                    0 <= i < signals.len() ==> (#[trigger] signals[i]).ticket
                        == before.queue[i].ticket,
                forall|i: int|
                    0 <= i < signals.len() ==> executed(
                        execute,
                        before.queue[i],
                        (#[trigger] signals[i]).outcome,
                    ),
            ensures
                self.wf(),
                self.db_view() == db,
                signals.len() == before.queue.len(),
                self.pool() == (PoolView {
                    queue: Seq::empty(),
                    parked: before.parked_with(worker),
                    tickets: before.tickets,
                }),
            decreases before.queue.len() - signals.len(),
        {
            let ghost done = signals@;
            match self.next_task(worker) {
                Some(task) => {
                    let outcome = execute(&task);
                    let ghost taken = task;
                    signals.push(task.finish(outcome));
                    proof {
                        let n = done.len() as int;
                        assert(before.queue.skip(n).first() == before.queue[n]);
                        assert(before.queue.skip(n).drop_first() =~= before.queue.skip(n + 1));
                        assert forall|i: int| 0 <= i < signals.len() implies executed(
                            execute,
                            before.queue[i],
                            (#[trigger] signals[i]).outcome,
                        ) by {
                            if i < n {
                                assert(signals[i] == done[i]);
                            } else {
                                assert(call_ensures(execute, (&taken,), signals[i].outcome));
                            }
                        }
                    }
                },
                None => {
                    proof {
                        assert(before.queue.skip(signals.len() as int).len() == 0);
                        assert(self.pool().queue =~= Seq::empty());
                    }
                    break ;
                },
            }
        }
        proof {
            assert(signals@ =~= signals_of(before.queue, outcomes_of(signals@)));
        }
        signals
    }

    fn is_parked(&self, worker: WorkerId) -> (parked: bool)
        ensures
            parked == self.workers@.contains(worker),
    {
        let mut i: usize = 0;
        while i < self.workers.len()
            invariant
                i <= self.workers.len(),
                forall|k: int| 0 <= k < i ==> self.workers@[k] != worker,
            decreases self.workers.len() - i,
        {
            if self.workers[i] == worker {
                return true;
            }
            i += 1;
        }
        false
    }
}

impl Runtime for WorkerPool {
    closed spec fn wf(&self) -> bool {
        &&& self.db.wf()
        &&& self.pool().valid()
    }

    closed spec fn db_view(&self) -> DbView {
        self.db@
    }

    closed spec fn pool(&self) -> PoolView {
        PoolView { queue: self.queue(), parked: self.workers@, tickets: self.tickets as int }
    }

    fn new(db: ModuleDatabase) -> (runtime: Self) {
        let runtime = WorkerPool { db, tasks: VecDeque::new(), workers: Vec::new(), tickets: 0 };
        proof {
            assert(runtime.queue() =~= Seq::empty());
        }
        runtime
    }

    proof fn lemma_wf(&self) {
    }

    fn spawn(&mut self, module_id: ModuleId, notification: Arc<Notification>) -> (spawned:
        Spawned) {
        let ticket = self.tickets;
        let task = Task { module_id, notification, ticket };
        self.tasks.push_back(task);
        self.tickets = if ticket == u64::MAX {
            0
        } else {
            ticket + 1
        };
        let waiting = self.tasks.len();
        proof {
            assert(self.queue() =~= old(self).queue().push(task@));
            let before = old(self).pool();
            let now = self.pool();
            assert(now.queue.len() == waiting);
            assert(now.tickets == ticket_after(before.tickets, 1));
            assert forall|i: int| 0 <= i < now.queue.len() implies (
            #[trigger] now.queue[i]).ticket == ticket_after(now.tickets - now.queue.len(), i) by {
                if i < before.queue.len() {
                    assert(before.queue[i].ticket == ticket_after(
                        before.tickets - before.queue.len(),
                        i,
                    ));
                }
            }
        }
        let woken = self.wake();
        Spawned { handle: JoinHandle { ticket }, woken }
    }

    fn get_db(&self) -> (db: &ModuleDatabase) {
        &self.db
    }

    fn wake(&mut self) -> (worker: Option<WorkerId>) {
        let worker = self.workers.pop();
        proof {
            assert(self.queue() =~= old(self).queue());
            if worker.is_some() {
                assert(self.workers@ =~= old(self).workers@.drop_last());
            }
        }
        worker
    }
}

} // verus!
