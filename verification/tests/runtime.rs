use std::sync::Arc;
use xxfunc::abi::{ExecError, Outcome};
use xxfunc::db::ModuleDatabase;
use xxfunc::notification::Notification;
use xxfunc::runtime::{JoinHandle, Runtime, Signal, Spawned, Task, WorkerPool};
use xxfunc::state::ModuleState;

fn notification(text: &str) -> Arc<Notification> {
    Arc::new(Notification::new(text.as_bytes().to_vec()))
}

#[test]
fn new_pool_has_nothing_queued_and_nobody_parked() {
    let pool = WorkerPool::new(ModuleDatabase::new());
    assert_eq!(pool.queued(), 0);
    assert_eq!(pool.parked(), 0);
    assert_eq!(pool.get_db().len(), 0);
}

#[test]
fn spawn_hands_out_consecutive_tickets() {
    let mut pool = WorkerPool::new(ModuleDatabase::new());
    let n = notification("null");
    assert_eq!(pool.spawn(4, n.clone()).handle, JoinHandle { ticket: 0 });
    assert_eq!(pool.spawn(9, n.clone()).handle, JoinHandle { ticket: 1 });
    assert_eq!(pool.spawn(4, n).handle, JoinHandle { ticket: 2 });
    assert_eq!(pool.queued(), 3);
}

#[test]
fn tasks_are_taken_oldest_first() {
    let mut pool = WorkerPool::new(ModuleDatabase::new());
    let n = notification("x");
    for id in [5, 3, 8] {
        pool.spawn(id, n.clone());
    }
    let taken: Vec<(i64, u64)> = (0..3)
        .map(|_| pool.next_task(0).map(|task| (task.module_id, task.ticket)).unwrap())
        .collect();
    assert_eq!(taken, vec![(5, 0), (3, 1), (8, 2)]);
    assert_eq!(pool.queued(), 0);
    assert_eq!(pool.parked(), 0);
}

#[test]
fn task_carries_the_shared_notification() {
    let mut pool = WorkerPool::new(ModuleDatabase::new());
    let n = notification("{\"n\":1}");
    pool.spawn(1, n.clone());
    pool.spawn(2, n.clone());
    let first = pool.next_task(0).unwrap();
    let second = pool.next_task(0).unwrap();
    assert!(Arc::ptr_eq(&first.notification, &n));
    assert!(Arc::ptr_eq(&second.notification, &n));
    assert_eq!(first.notification.payload, b"{\"n\":1}");
}

#[test]
fn worker_that_finds_nothing_is_parked_once() {
    let mut pool = WorkerPool::new(ModuleDatabase::new());
    assert!(pool.next_task(3).is_none());
    assert_eq!(pool.parked(), 1);
    assert!(pool.next_task(3).is_none());
    assert_eq!(pool.parked(), 1);
    assert!(pool.next_task(1).is_none());
    assert_eq!(pool.parked(), 2);
}

#[test]
fn wake_takes_the_worker_parked_last() {
    let mut pool = WorkerPool::new(ModuleDatabase::new());
    assert_eq!(pool.wake(), None);
    for worker in [2, 0, 1] {
        assert!(pool.next_task(worker).is_none());
    }
    assert_eq!(pool.wake(), Some(1));
    assert_eq!(pool.wake(), Some(0));
    assert_eq!(pool.parked(), 1);
    assert_eq!(pool.wake(), Some(2));
    assert_eq!(pool.wake(), None);
    assert_eq!(pool.parked(), 0);
}

#[test]
fn spawn_wakes_one_parked_worker() {
    let mut pool = WorkerPool::new(ModuleDatabase::new());
    assert!(pool.next_task(0).is_none());
    assert!(pool.next_task(1).is_none());
    assert_eq!(pool.parked(), 2);
    assert_eq!(
        pool.spawn(1, notification("x")),
        Spawned { handle: JoinHandle { ticket: 0 }, woken: Some(1) }
    );
    assert_eq!(pool.parked(), 1);
    assert_eq!(pool.queued(), 1);
    assert_eq!(pool.spawn(1, notification("x")).woken, Some(0));
    assert_eq!(
        pool.spawn(1, notification("x")),
        Spawned { handle: JoinHandle { ticket: 2 }, woken: None }
    );
    assert_eq!(pool.parked(), 0);
    assert_eq!(pool.queued(), 3);
    assert_eq!(pool.wake(), None);
}

#[test]
fn finish_addresses_the_outcome_to_the_task_sink() {
    let task = Task { module_id: 2, notification: notification("x"), ticket: 41 };
    assert_eq!(task.finish(Ok(7)), Signal { ticket: 41, outcome: Ok(7) });
    let task = Task { module_id: 2, notification: notification("x"), ticket: 42 };
    assert_eq!(
        task.finish(Err(ExecError::Trap)),
        Signal { ticket: 42, outcome: Err(ExecError::Trap) }
    );
}

#[test]
fn worker_signals_every_task_once_and_parks() {
    let mut pool = WorkerPool::new(ModuleDatabase::new());
    let n = notification("null");
    for id in [1, 2, 3, 4] {
        pool.spawn(id, n.clone());
    }
    let signals = pool.run_worker(0, |task: &Task| -> Outcome {
        Ok(task.module_id as u64 * 10 + task.notification.payload.len() as u64)
    });
    assert_eq!(
        signals,
        vec![
            Signal { ticket: 0, outcome: Ok(14) },
            Signal { ticket: 1, outcome: Ok(24) },
            Signal { ticket: 2, outcome: Ok(34) },
            Signal { ticket: 3, outcome: Ok(44) },
        ]
    );
    assert_eq!(pool.queued(), 0);
    assert_eq!(pool.parked(), 1);
    assert_eq!(pool.wake(), Some(0));
}

#[test]
fn failing_task_does_not_stop_the_worker() {
    let mut pool = WorkerPool::new(ModuleDatabase::new());
    let n = notification("null");
    for id in [1, 2, 3] {
        pool.spawn(id, n.clone());
    }
    let signals = pool.run_worker(5, |task: &Task| -> Outcome {
        if task.module_id == 2 {
            Err(ExecError::Trap)
        } else {
            Ok(4)
        }
    });
    assert_eq!(
        signals,
        vec![
            Signal { ticket: 0, outcome: Ok(4) },
            Signal { ticket: 1, outcome: Err(ExecError::Trap) },
            Signal { ticket: 2, outcome: Ok(4) },
        ]
    );
    assert_eq!(pool.parked(), 1);
    pool.spawn(2, n);
    assert_eq!(pool.parked(), 0);
    let signals = pool.run_worker(5, |_task: &Task| -> Outcome { Ok(1) });
    assert_eq!(signals, vec![Signal { ticket: 3, outcome: Ok(1) }]);
}

#[test]
fn worker_with_nothing_to_do_signals_nothing() {
    let mut pool = WorkerPool::new(ModuleDatabase::new());
    let signals = pool.run_worker(0, |_task: &Task| -> Outcome { Ok(0) });
    assert!(signals.is_empty());
    assert_eq!(pool.parked(), 1);
}

#[test]
fn registry_of_the_pool_can_be_changed() {
    let mut pool = WorkerPool::new(ModuleDatabase::new());
    assert_eq!(pool.get_db_mut().insert("a.wasm", b"a"), Ok(1));
    assert_eq!(pool.get_db_mut().set_state("a.wasm", ModuleState::Started), Ok(()));
    assert_eq!(pool.get_db().get_modules_by_state(ModuleState::Started), vec![1]);
    assert_eq!(pool.queued(), 0);
}
