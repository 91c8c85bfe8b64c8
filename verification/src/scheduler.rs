//! The scheduler: for each notification, one task for every module that is
//! in state `Started` at that moment.
//!
//! The scheduler reads the registry and queues tasks; it changes no module
//! and waits for no task. A state change takes effect with the next
//! notification.

use std::sync::Arc;
use vstd::prelude::*;

use crate::db::{DbView, ModuleId};
use crate::db_laws::law_listing_is_exact;
use crate::notification::Notification;
use crate::runtime::{
    lemma_ticket_after_next, ticket_after, JoinHandle, PoolView, Runtime, Spawned, TaskView,
    WorkerId,
};
use crate::state::ModuleState;

verus! {

/// What the notification source delivered.
#[derive(Debug)]
pub enum SourceEvent {
    /// The next notification, in arrival order.
    Notification(Notification),
    /// The source terminated.
    Closed,
}

/// What the scheduler did with one event of the source.
#[derive(Debug, Clone, PartialEq, Eq)]
pub enum Progress {
    /// The notification was fanned out: one task for each entry, in the
    /// order of the queue.
    Scheduled { spawned: Vec<Spawned> },
    /// The source is closed: the loop ends.
    Stopped,
}

/// The pool after one task was spawned for each of `ids`, in that order,
/// all on the same notification.
pub open spec fn fan_out(pool: PoolView, ids: Seq<ModuleId>, payload: Seq<u8>) -> PoolView
    decreases ids.len(),
{
    if ids.len() == 0 {
        pool
    } else {
        fan_out(pool, ids.drop_last(), payload).spawned(ids.last(), payload)
    }
}

/// The tasks of one fan-out: one per id, in the order of the ids, with
/// consecutive tickets from `first` on.
pub open spec fn fan_out_tasks(ids: Seq<ModuleId>, payload: Seq<u8>, first: int) -> Seq<TaskView> {
    Seq::new(
        ids.len(),
        |i: int| TaskView { module_id: ids[i], payload, ticket: ticket_after(first, i) },
    )
}

/// What the `i`-th spawn of a fan-out answers, if `first` was the next
/// ticket and `parked` were the parked workers before the fan-out: the
/// `i`-th ticket from `first` on, and the worker that was parked `i`-th
/// from last.
pub open spec fn spawned_at(first: int, parked: Seq<WorkerId>, i: int) -> Spawned {
    Spawned {
        handle: JoinHandle { ticket: ticket_after(first, i) },
        woken: if i < parked.len() {
            Some(parked[parked.len() - 1 - i])
        } else {
            None
        },
    }
}

/// The parked workers that are left after `wakes` wakes.
pub open spec fn parked_after(parked: Seq<usize>, wakes: int) -> Seq<usize> {
    if wakes >= parked.len() {
        Seq::empty()
    } else {
        parked.take(parked.len() - wakes)
    }
}

/// A fan-out appends exactly its tasks to the queue, uses one ticket for
/// each, and wakes one parked worker for each as long as one is parked.
pub proof fn lemma_fan_out(pool: PoolView, ids: Seq<ModuleId>, payload: Seq<u8>)
    requires
        0 <= pool.tickets <= u64::MAX,
    ensures
        fan_out(pool, ids, payload).queue == pool.queue + fan_out_tasks(ids, payload, pool.tickets),
        fan_out(pool, ids, payload).tickets == ticket_after(pool.tickets, ids.len() as int),
        fan_out(pool, ids, payload).parked == parked_after(pool.parked, ids.len() as int),
    decreases ids.len(),
{
    if ids.len() > 0 {
        let front = ids.drop_last();
        let mid = fan_out(pool, front, payload);
        let after = fan_out(pool, ids, payload);
        lemma_fan_out(pool, front, payload);
        lemma_ticket_after_next(pool.tickets, front.len() as int);
        assert(after.queue =~= pool.queue + fan_out_tasks(ids, payload, pool.tickets));
        assert(after.parked =~= parked_after(pool.parked, ids.len() as int));
    } else {
        lemma_ticket_after_next(pool.tickets, 0);
        assert(fan_out_tasks(ids, payload, pool.tickets) =~= Seq::empty());
        assert(pool.queue + Seq::<TaskView>::empty() =~= pool.queue);
        assert(parked_after(pool.parked, 0) =~= pool.parked);
    }
}

/// For one notification the scheduler queues exactly one task for each
/// module that is in state `Started`, and none for any other module: as
/// many tasks as there are started modules.
pub proof fn law_fan_out_is_exact(db: DbView, payload: Seq<u8>, first: int)
    requires
        db.valid(),
    ensures
        ({
            let ids = db.ids_in_state(ModuleState::Started);
            let tasks = fan_out_tasks(ids, payload, first);
            &&& tasks.len() == ids.len()
            &&& forall|i: int|
                0 <= i < tasks.len() ==> db.state_of_id((#[trigger] tasks[i]).module_id) == Some(
                    ModuleState::Started,
                ) && tasks[i].payload == payload
            &&& forall|id: ModuleId|
                db.state_of_id(id) == Some(ModuleState::Started) ==> exists|i: int|
                    0 <= i < tasks.len() && (#[trigger] tasks[i]).module_id == id
            &&& forall|i: int, j: int|
                0 <= i < j < tasks.len() ==> (#[trigger] tasks[i]).module_id != (
                #[trigger] tasks[j]).module_id
        }),
{
    let ids = db.ids_in_state(ModuleState::Started);
    let tasks = fan_out_tasks(ids, payload, first);
    law_listing_is_exact(db, ModuleState::Started);
    assert forall|i: int| 0 <= i < tasks.len() implies db.state_of_id(
        (#[trigger] tasks[i]).module_id,
    ) == Some(ModuleState::Started) && tasks[i].payload == payload by {
        assert(ids.contains(ids[i]));
    }
    assert forall|id: ModuleId| db.state_of_id(id) == Some(ModuleState::Started) implies exists|
        i: int,
    |
        0 <= i < tasks.len() && (#[trigger] tasks[i]).module_id == id by {
        assert(ids.contains(id));
        let i = choose|i: int| 0 <= i < ids.len() && ids[i] == id;
        assert(tasks[i].module_id == id);
    }
}

/// A module that is not in state `Started` when the notification is fanned
/// out gets no task.
pub proof fn law_only_started_modules_get_tasks(
    db: DbView,
    payload: Seq<u8>,
    first: int,
    id: ModuleId,
)
    requires
        db.valid(),
        db.state_of_id(id) != Some(ModuleState::Started),
    ensures
        forall|i: int|
            0 <= i < fan_out_tasks(
                db.ids_in_state(ModuleState::Started),
                payload,
                first,
            ).len() ==> (#[trigger] fan_out_tasks(
                db.ids_in_state(ModuleState::Started),
                payload,
                first,
            )[i]).module_id != id,
{
    law_fan_out_is_exact(db, payload, first);
}

/// Whatever waits in the pool and whichever ticket is next: a fan-out adds
/// to the queue exactly one task for each module that is in state
/// `Started`, none for any other module and none twice, behind the tasks
/// that waited before.
pub proof fn law_fan_out_reaches_exactly_the_started_modules(
    db: DbView,
    pool: PoolView,
    payload: Seq<u8>,
)
    requires
        db.valid(),
        pool.valid(),
    ensures
        ({
            let ids = db.ids_in_state(ModuleState::Started);
            let after = fan_out(pool, ids, payload);
            let waited = pool.queue.len() as int;
            &&& after.queue.len() == waited + ids.len()
            &&& after.queue.take(waited) == pool.queue
            &&& forall|id: ModuleId|
                db.state_of_id(id) == Some(ModuleState::Started) <==> exists|i: int|
                    waited <= i < after.queue.len() && (#[trigger] after.queue[i]).module_id == id
            &&& forall|i: int, j: int|
                waited <= i < j < after.queue.len() ==> (#[trigger] after.queue[i]).module_id != (
                #[trigger] after.queue[j]).module_id
        }),
{
    let ids = db.ids_in_state(ModuleState::Started);
    let after = fan_out(pool, ids, payload);
    let tasks = fan_out_tasks(ids, payload, pool.tickets);
    let waited = pool.queue.len() as int;
    lemma_fan_out(pool, ids, payload);
    law_fan_out_is_exact(db, payload, pool.tickets);
    assert(after.queue.take(waited) =~= pool.queue);
    assert forall|i: int| waited <= i < after.queue.len() implies (#[trigger] after.queue[i])
        == tasks[i - waited] by {}
    assert forall|id: ModuleId|
        db.state_of_id(id) == Some(ModuleState::Started) <==> exists|i: int|
            waited <= i < after.queue.len() && (#[trigger] after.queue[i]).module_id == id by {
        if db.state_of_id(id) == Some(ModuleState::Started) {
            let k = choose|k: int| 0 <= k < tasks.len() && (#[trigger] tasks[k]).module_id == id;
            assert(after.queue[waited + k].module_id == id);
        }
        if exists|i: int|
            waited <= i < after.queue.len() && (#[trigger] after.queue[i]).module_id == id {
            let i = choose|i: int|
                waited <= i < after.queue.len() && (#[trigger] after.queue[i]).module_id == id;
            assert(tasks[i - waited].module_id == id);
        }
    }
    assert forall|i: int, j: int| waited <= i < j < after.queue.len() implies (
    #[trigger] after.queue[i]).module_id != (#[trigger] after.queue[j]).module_id by {
        assert(tasks[i - waited].module_id != tasks[j - waited].module_id);
    }
}

/// Consumes notifications and queues the work on a runtime.
pub struct Scheduler<R: Runtime> {
    runtime: R,
}

impl<R: Runtime> Scheduler<R> {
    /// The runtime on which the tasks are queued.
    pub closed spec fn runtime_view(&self) -> R {
        self.runtime
    }

    /// Whether the scheduler's runtime obeys its invariants.
    pub open spec fn wf(&self) -> bool {
        self.runtime_view().wf()
    }

    /// A scheduler that queues its tasks on `runtime`.
    pub fn new(runtime: R) -> (scheduler: Self)
        ensures
            scheduler.runtime_view() == runtime,
    {
        Scheduler { runtime }
    }

    /// The runtime.
    pub fn runtime(&self) -> (runtime: &R)
        ensures
            *runtime == self.runtime_view(),
    {
        &self.runtime
    }

    /// The runtime, to change it.
    pub fn runtime_mut(&mut self) -> (runtime: &mut R)
        ensures
            *runtime == old(self).runtime_view(),
            final(self).runtime_view() == *final(runtime),
    {
        &mut self.runtime
    }

    /// Gives the runtime back.
    pub fn into_runtime(self) -> (runtime: R)
        ensures
            runtime == self.runtime_view(),
    {
        self.runtime
    }

    /// The ids of the modules that are started, in insertion order.
    pub fn get_active_modules(&self) -> (ids: Vec<ModuleId>)
        requires
            self.wf(),
        ensures
            ids@ == self.runtime_view().db_view().ids_in_state(ModuleState::Started),
    {
        self.runtime.get_db().get_modules_by_state(ModuleState::Started)
    }

    /// Queues one task for every started module, in the order of
    /// `get_active_modules`, all sharing the notification. Answers, in that
    /// order, the handle of each task's sink and the worker to wake for it:
    /// as many as there are started modules.
    pub fn spawn_tasks(&mut self, notification: Notification) -> (spawned: Vec<Spawned>)
        requires
            old(self).wf(),
        ensures
            final(self).wf(),
            final(self).runtime_view().db_view() == old(self).runtime_view().db_view(),
            ({
                let before = old(self).runtime_view().pool();
                let ids = old(self).runtime_view().db_view().ids_in_state(ModuleState::Started);
                &&& final(self).runtime_view().pool() == fan_out(before, ids, notification@)
                &&& final(self).runtime_view().pool().queue == before.queue + fan_out_tasks(
                    ids,
                    notification@,
                    before.tickets,
                )
                &&& spawned.len() == ids.len()
                &&& forall|i: int|
                    0 <= i < spawned.len() ==> #[trigger] spawned[i] == spawned_at(
                        before.tickets,
                        before.parked,
                        i,
                    )
            }),
    {
        let ids = self.get_active_modules();
        let shared = Arc::new(notification);
        let ghost before = self.runtime.pool();
        let ghost db = self.runtime.db_view();
        let ghost payload = notification@;
        let mut spawned: Vec<Spawned> = Vec::new();
        let mut i: usize = 0;
        proof {
            assert(ids@.take(0) =~= Seq::empty());
            self.runtime.lemma_wf();
        }
        while i < ids.len()
            invariant
                i <= ids.len(),
                self.runtime.wf(),
                self.runtime.db_view() == db,
                shared@ == payload,
                before.valid(),
                self.runtime.pool() == fan_out(before, ids@.take(i as int), payload),
                spawned.len() == i,
                forall|k: int|
                    0 <= k < i ==> #[trigger] spawned[k] == spawned_at(
                        before.tickets,
                        before.parked,
                        k,
                    ),
            decreases ids.len() - i,
        {
            proof {
                assert(ids@.take(i + 1).drop_last() =~= ids@.take(i as int));
                lemma_fan_out(before, ids@.take(i as int), payload);
            }
            let next = self.runtime.spawn(ids[i], Arc::clone(&shared));
            spawned.push(next);
            i += 1;
        }
        proof {
            assert(ids@.take(i as int) =~= ids@);
            lemma_fan_out(before, ids@, payload);
        }
        spawned
    }

    /// Handles one notification: fans it out and answers the number of
    /// tasks that were queued, which is the number of started modules.
    pub fn handle_notification(&mut self, notification: Notification) -> (count: usize)
        requires
            old(self).wf(),
        ensures
            final(self).wf(),
            final(self).runtime_view().db_view() == old(self).runtime_view().db_view(),
            ({
                let before = old(self).runtime_view().pool();
                let ids = old(self).runtime_view().db_view().ids_in_state(ModuleState::Started);
                &&& final(self).runtime_view().pool() == fan_out(before, ids, notification@)
                &&& final(self).runtime_view().pool().queue == before.queue + fan_out_tasks(
                    ids,
                    notification@,
                    before.tickets,
                )
                &&& count == ids.len()
            }),
    {
        self.spawn_tasks(notification).len()
    }

    /// One turn of the scheduler's loop. A notification is fanned out,
    /// whatever became of the tasks of earlier ones; a closed source ends
    /// the loop and queues nothing.
    pub fn step(&mut self, event: SourceEvent) -> (progress: Progress)
        requires
            old(self).wf(),
        ensures
            final(self).wf(),
            final(self).runtime_view().db_view() == old(self).runtime_view().db_view(),
            ({
                let before = old(self).runtime_view().pool();
                let after = final(self).runtime_view().pool();
                let ids = old(self).runtime_view().db_view().ids_in_state(ModuleState::Started);
                match event {
                    SourceEvent::Closed => progress is Stopped && after == before,
                    SourceEvent::Notification(notification) => {
                        &&& progress matches Progress::Scheduled { spawned }
                        &&& spawned.len() == ids.len()
                        &&& forall|i: int|
                            0 <= i < spawned.len() ==> #[trigger] spawned[i] == spawned_at(
                                before.tickets,
                                before.parked,
                                i,
                            )
                        &&& after == fan_out(before, ids, notification@)
                        &&& after.queue == before.queue + fan_out_tasks(
                            ids,
                            notification@,
                            before.tickets,
                        )
                    },
                }
            }),
    {
        match event {
            SourceEvent::Closed => Progress::Stopped,
            SourceEvent::Notification(notification) => Progress::Scheduled {
                spawned: self.spawn_tasks(notification),
            },
        }
    }
}

} // verus!
