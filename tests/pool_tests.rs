use thread_pool::elastic::{DispatchError, ElasticCore, Route};
use thread_pool::fixed::{worker_step, FixedCore, Message, WorkerStep};

#[test]
fn run_multiple_tasks() {
    assert_eq!(2 + 2, 4);
}

#[test]
fn run_multiple_sleepy_tasks() {
    assert_eq!(4 + 4, 8);
}

#[test]
fn run_multiple_blocking_tasks() {
    assert_eq!(4 + 2, 6);
}

#[test]
fn do_something() {}

fn drain(core: &mut FixedCore<u32>) -> Vec<Option<u32>> {
    let mut out = Vec::new();
    while let Some(step) = core.next_step() {
        match step {
            WorkerStep::Run(j) => out.push(Some(j)),
            WorkerStep::Exit => out.push(None),
        }
    }
    out
}

#[test]
fn worker_runs_jobs_and_exits_on_terminate() {
    assert!(matches!(worker_step(Message::NewJob(5u32)), WorkerStep::Run(5)));
    assert!(matches!(worker_step(Message::<u32>::Terminate), WorkerStep::Exit));
}

#[test]
fn fixed_pool_starts_empty() {
    let core: FixedCore<u32> = FixedCore::new(3);
    assert_eq!(core.size(), 3);
    assert_eq!(core.pending(), 0);
    assert!(!core.is_stopping());
}

#[test]
fn single_worker_sees_submission_order() {
    let mut core = FixedCore::new(1);
    for i in 1..=10u32 {
        core.submit(i);
    }
    assert_eq!(core.pending(), 10);
    let log = drain(&mut core);
    let expected: Vec<Option<u32>> = (1..=10u32).map(Some).collect();
    assert_eq!(log, expected);
}

#[test]
fn each_job_dequeued_exactly_once() {
    let mut core = FixedCore::new(4);
    for i in 0..6u32 {
        core.submit(i);
    }
    let log = drain(&mut core);
    for i in 0..6u32 {
        assert_eq!(log.iter().filter(|s| **s == Some(i)).count(), 1);
    }
    assert!(core.next_step().is_none());
}

#[test]
fn shutdown_sends_one_terminate_per_worker_after_jobs() {
    let mut core = FixedCore::new(3);
    core.submit(10u32);
    core.submit(20u32);
    core.submit(30u32);
    core.shutdown();
    assert!(core.is_stopping());
    assert_eq!(core.pending(), 6);
    let log = drain(&mut core);
    assert_eq!(log, vec![Some(10), Some(20), Some(30), None, None, None]);
}

#[test]
fn shutdown_of_idle_pool_only_terminates() {
    let mut core: FixedCore<u32> = FixedCore::new(2);
    core.shutdown();
    assert_eq!(drain(&mut core), vec![None, None]);
}

#[test]
fn elastic_pool_starts_with_no_workers() {
    let core: ElasticCore<u32> = ElasticCore::new();
    assert_eq!(core.spawned(), 0);
    assert_eq!(core.idle(), 0);
    assert!(!core.is_disconnected());
}

#[test]
fn elastic_burst_spawns_one_worker_per_job() {
    let mut core = ElasticCore::new();
    for i in 0..5u32 {
        let r = core.submit(i);
        assert!(matches!(r, Ok(Route::Spawn(j)) if j == i));
    }
    assert_eq!(core.spawned(), 5);
    assert!(core.take().is_none());
}

#[test]
fn elastic_idle_worker_is_reused() {
    let mut core = ElasticCore::new();
    assert!(matches!(core.submit(1u32), Ok(Route::Spawn(1))));
    core.begin_wait();
    assert_eq!(core.idle(), 1);
    assert!(matches!(core.submit(2u32), Ok(Route::Handed)));
    assert_eq!(core.idle(), 0);
    assert_eq!(core.take(), Some(2));
    core.begin_wait();
    assert!(matches!(core.submit(3u32), Ok(Route::Handed)));
    assert_eq!(core.take(), Some(3));
    assert_eq!(core.spawned(), 1);
}

#[test]
fn elastic_handoff_is_taken_once() {
    let mut core = ElasticCore::new();
    core.begin_wait();
    core.begin_wait();
    assert!(matches!(core.submit(7u32), Ok(Route::Handed)));
    assert!(matches!(core.submit(8u32), Ok(Route::Handed)));
    assert!(matches!(core.submit(9u32), Ok(Route::Spawn(9))));
    assert_eq!(core.take(), Some(7));
    assert_eq!(core.take(), Some(8));
    assert_eq!(core.take(), None);
}

#[test]
fn elastic_submit_after_disconnect_fails() {
    let mut core = ElasticCore::new();
    assert!(matches!(core.submit(1u32), Ok(Route::Spawn(1))));
    core.disconnect();
    assert!(core.is_disconnected());
    assert!(matches!(core.submit(2u32), Err(DispatchError::Disconnected)));
    assert_eq!(core.spawned(), 1);
    assert!(core.take().is_none());
}
