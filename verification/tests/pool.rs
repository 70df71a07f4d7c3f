use taskpool::pool::{ThError, ThreadPool, WorkerRecv, WorkerState};

/// Drives worker `wid` until it has run every job it can reach, the way the
/// real worker loop does: claim, run, claim again, stop on disconnect or on
/// an empty open queue.
fn drive_worker(pool: &mut ThreadPool, wid: usize) {
    loop {
        match pool.worker_state(wid) {
            WorkerState::Running(_) => pool.worker_finish(wid),
            WorkerState::Terminated => break,
            WorkerState::Idle => match pool.worker_recv(wid) {
                WorkerRecv::Job(_) => {}
                WorkerRecv::Empty => break,
                WorkerRecv::Disconnected => break,
            },
        }
    }
}

#[test]
fn pool_creation() {
    assert!(ThreadPool::new(0).is_err());
    assert!(ThreadPool::new(4).is_ok());
    assert!(ThreadPool::new(64).is_ok());
}

#[test]
fn test_execution() {
    let mut pool = ThreadPool::new(2).unwrap();

    for job in 0..100 {
        pool.execute(job).unwrap();
    }

    drive_worker(&mut pool, 0);
    drive_worker(&mut pool, 1);

    assert_eq!(pool.completed_count(), 100);
}

#[test]
fn drop_pool() {
    let mut pool = ThreadPool::new(2).unwrap();

    for job in 0..100 {
        pool.execute(job).unwrap();
    }

    pool.shutdown();

    assert_eq!(pool.completed_count(), 100);
}

#[test]
fn zero_size_creates_nothing() {
    match ThreadPool::new(0) {
        Err(e) => assert_eq!(e, ThError::InvalidSize),
        Ok(_) => panic!("a zero-size pool must be rejected"),
    }
}

#[test]
fn rejects_after_shutdown() {
    let mut pool = ThreadPool::new(3).unwrap();
    for job in 0..10 {
        pool.execute(job).unwrap();
    }
    pool.shutdown();
    assert_eq!(pool.completed_count(), 10);

    assert_eq!(pool.execute(11), Err(ThError::PoolShutdown));
    assert_eq!(pool.execute(12), Err(ThError::PoolShutdown));

    // Rejected submissions change nothing that has been observed.
    assert_eq!(pool.completed_count(), 10);
}

#[test]
fn reentrant_submission() {
    // One worker; the first job, while running, submits five more into the
    // same pool, as a job of the recursive directory walk would.
    let mut pool = ThreadPool::new(1).unwrap();
    pool.execute(0).unwrap();

    match pool.worker_recv(0) {
        WorkerRecv::Job(job) => {
            assert_eq!(job, 0);
            // The worker is mid-run: submission must still be accepted at
            // once, never waiting for a free worker.
            for nested in 1..6 {
                pool.execute(nested).unwrap();
            }
            pool.worker_finish(0);
        }
        other => panic!("expected the queued job, got {:?}", other),
    }

    pool.shutdown();
    assert_eq!(pool.completed_count(), 6);
}

#[test]
fn concurrent_producers_interleaved() {
    // Two producers, their submissions interleaved arbitrarily: every job
    // is still run exactly once.
    let mut pool = ThreadPool::new(4).unwrap();
    let first: Vec<u64> = (0..50).collect();
    let second: Vec<u64> = (50..100).collect();
    for i in 0..50 {
        pool.execute(first[i]).unwrap();
        pool.execute(second[i]).unwrap();
    }
    pool.shutdown();
    assert_eq!(pool.completed_count(), 100);
}

#[test]
fn submission_outpaces_workers() {
    // Far more jobs than workers: every submission is accepted immediately
    // and the queue simply grows; nothing blocks.
    let mut pool = ThreadPool::new(1).unwrap();
    for job in 0..1000 {
        assert_eq!(pool.execute(job), Ok(()));
    }
    assert_eq!(pool.queued_count(), 1000);
    assert_eq!(pool.completed_count(), 0);
    pool.shutdown();
    assert_eq!(pool.completed_count(), 1000);
}

#[test]
fn workers_idle_while_queue_open() {
    let mut pool = ThreadPool::new(2).unwrap();
    assert_eq!(pool.worker_count(), 2);
    // An open, empty queue leaves the worker waiting, not terminated.
    assert_eq!(pool.worker_recv(0), WorkerRecv::Empty);
    assert_eq!(pool.worker_state(0), WorkerState::Idle);
    pool.execute(7).unwrap();
    assert_eq!(pool.worker_recv(0), WorkerRecv::Job(7));
    assert_eq!(pool.worker_state(0), WorkerState::Running(7));
    pool.worker_finish(0);
    pool.shutdown();
    assert_eq!(pool.worker_state(0), WorkerState::Terminated);
    assert_eq!(pool.worker_state(1), WorkerState::Terminated);
}
