use xxfunc::db::ModuleDatabase;
use xxfunc::notification::Notification;
use xxfunc::runtime::{JoinHandle, Runtime, Spawned, WorkerPool};
use xxfunc::scheduler::{Progress, Scheduler, SourceEvent};
use xxfunc::state::ModuleState;

fn scheduler(modules: &[(&str, ModuleState)]) -> Scheduler<WorkerPool> {
    let mut db = ModuleDatabase::new();
    for (name, state) in modules {
        db.insert(name, name.as_bytes()).unwrap();
        db.set_state(name, *state).unwrap();
    }
    Scheduler::new(WorkerPool::new(db))
}

fn notification() -> Notification {
    Notification::new(b"null".to_vec())
}

#[test]
fn active_modules_are_the_started_ones() {
    let s = scheduler(&[
        ("a", ModuleState::Started),
        ("b", ModuleState::NotStarted),
        ("c", ModuleState::Started),
        ("d", ModuleState::Stopped),
    ]);
    assert_eq!(s.get_active_modules(), vec![1, 3]);
}

#[test]
fn fan_out_queues_one_task_per_started_module() {
    for k in 0..6usize {
        let names: Vec<String> = (0..6).map(|i| format!("m{i}")).collect();
        let modules: Vec<(&str, ModuleState)> = names
            .iter()
            .enumerate()
            .map(|(i, n)| {
                (n.as_str(), if i < k { ModuleState::Started } else { ModuleState::Stopped })
            })
            .collect();
        let mut s = scheduler(&modules);
        assert_eq!(s.handle_notification(notification()), k);
        assert_eq!(s.runtime().queued(), k);
    }
}

#[test]
fn spawn_tasks_answers_the_handles_in_order() {
    let mut s = scheduler(&[
        ("a", ModuleState::Started),
        ("b", ModuleState::Stopped),
        ("c", ModuleState::Started),
    ]);
    let handles: Vec<JoinHandle> =
        s.spawn_tasks(notification()).iter().map(|spawned| spawned.handle).collect();
    assert_eq!(handles, vec![JoinHandle { ticket: 0 }, JoinHandle { ticket: 1 }]);
    let handles: Vec<JoinHandle> =
        s.spawn_tasks(notification()).iter().map(|spawned| spawned.handle).collect();
    assert_eq!(handles, vec![JoinHandle { ticket: 2 }, JoinHandle { ticket: 3 }]);
    let pool = s.runtime_mut();
    let order: Vec<(i64, u64)> =
        (0..4).map(|_| pool.next_task(0).map(|t| (t.module_id, t.ticket)).unwrap()).collect();
    assert_eq!(order, vec![(1, 0), (3, 1), (1, 2), (3, 3)]);
}

#[test]
fn modules_that_are_not_started_get_no_task() {
    let mut s = scheduler(&[("a", ModuleState::NotStarted), ("b", ModuleState::Stopped)]);
    assert_eq!(s.handle_notification(notification()), 0);
    assert_eq!(s.runtime().queued(), 0);
}

#[test]
fn scheduler_leaves_the_registry_alone() {
    let mut s = scheduler(&[("a", ModuleState::Started), ("b", ModuleState::Stopped)]);
    s.handle_notification(notification());
    let db = s.runtime().get_db();
    assert_eq!(db.len(), 2);
    assert_eq!(db.state_of("a"), Some(ModuleState::Started));
    assert_eq!(db.state_of("b"), Some(ModuleState::Stopped));
}

#[test]
fn step_fans_out_notifications_and_stops_when_the_source_closes() {
    let mut s = scheduler(&[("a", ModuleState::Started), ("b", ModuleState::Started)]);
    assert_eq!(
        s.step(SourceEvent::Notification(notification())),
        Progress::Scheduled {
            spawned: vec![
                Spawned { handle: JoinHandle { ticket: 0 }, woken: None },
                Spawned { handle: JoinHandle { ticket: 1 }, woken: None },
            ]
        }
    );
    match s.step(SourceEvent::Notification(notification())) {
        Progress::Scheduled { spawned } => assert_eq!(spawned.len(), 2),
        other => panic!("not scheduled: {other:?}"),
    }
    assert_eq!(s.runtime().queued(), 4);
    assert_eq!(s.step(SourceEvent::Closed), Progress::Stopped);
    assert_eq!(s.runtime().queued(), 4);
}

#[test]
fn a_new_notification_does_not_wait_for_earlier_tasks() {
    let mut s = scheduler(&[("a", ModuleState::Started)]);
    for round in 1..=3usize {
        assert_eq!(s.handle_notification(notification()), 1);
        assert_eq!(s.runtime().queued(), round);
    }
}

#[test]
fn state_change_takes_effect_with_the_next_notification() {
    let mut s = scheduler(&[("a", ModuleState::Started)]);
    assert_eq!(s.handle_notification(notification()), 1);
    s.runtime_mut().get_db_mut().set_state("a", ModuleState::Stopped).unwrap();
    assert_eq!(s.handle_notification(notification()), 0);
    assert_eq!(s.runtime().queued(), 1);
    s.runtime_mut().get_db_mut().set_state("a", ModuleState::Started).unwrap();
    assert_eq!(s.handle_notification(notification()), 1);
    assert_eq!(s.into_runtime().queued(), 2);
}

#[test]
fn fan_out_wakes_parked_workers() {
    let mut s = scheduler(&[
        ("a", ModuleState::Started),
        ("b", ModuleState::Started),
        ("c", ModuleState::Started),
    ]);
    for worker in 0..2 {
        assert!(s.runtime_mut().next_task(worker).is_none());
    }
    assert_eq!(s.runtime().parked(), 2);
    assert_eq!(
        s.spawn_tasks(notification()),
        vec![
            Spawned { handle: JoinHandle { ticket: 0 }, woken: Some(1) },
            Spawned { handle: JoinHandle { ticket: 1 }, woken: Some(0) },
            Spawned { handle: JoinHandle { ticket: 2 }, woken: None },
        ]
    );
    assert_eq!(s.runtime().parked(), 0);
}
