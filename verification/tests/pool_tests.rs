use workshop::pool::Phase;
use workshop::pool::Pool;
use workshop::pool::PoolError;
use workshop::pool::WorkerEvent;

#[test]
fn new_pool_has_exactly_size_live_workers() {
    for size in 1..6usize {
        let pool = Pool::new(size).unwrap();
        assert_eq!(pool.size(), size);
        assert!(pool.all_running());
        assert_eq!(pool.phase(), Phase::Accepting);
        assert_eq!(pool.queued_count(), 0);
    }
}

#[test]
fn zero_size_pool_is_refused() {
    let r = Pool::new(0);
    assert_eq!(r.err(), Some(PoolError::ZeroWorkers));
}

#[test]
fn hundred_jobs_on_four_workers_all_run() {
    let mut pool = Pool::new(4).unwrap();
    for job in 0..100u64 {
        pool.execute(job).unwrap();
    }
    pool.shutdown();
    assert_eq!(pool.completed_jobs().len(), 100);
    assert!(pool.is_terminated());
    assert!(!pool.all_running());
    assert_eq!(pool.queued_count(), 0);
}

#[test]
fn two_jobs_on_one_worker_both_run() {
    let mut pool = Pool::new(1).unwrap();
    pool.execute(1).unwrap();
    pool.execute(2).unwrap();
    pool.shutdown();
    assert_eq!(pool.completed_jobs().len(), 2);
    assert!(pool.is_terminated());
}

#[test]
fn every_identity_is_recorded_exactly_once() {
    let mut pool = Pool::new(3).unwrap();
    for job in 10..30u64 {
        pool.execute(job).unwrap();
    }
    pool.shutdown();
    let mut seen = pool.completed_jobs().clone();
    seen.sort();
    let expected: Vec<u64> = (10..30u64).collect();
    assert_eq!(seen, expected);
}

#[test]
fn submitting_after_shutdown_fails() {
    let mut pool = Pool::new(2).unwrap();
    pool.execute(1).unwrap();
    pool.begin_shutdown();
    let r = pool.execute(2);
    assert_eq!(r, Err(PoolError::ShutDown));
    assert_eq!(pool.phase(), Phase::ShuttingDown);
}

#[test]
fn queued_jobs_drain_before_any_worker_exits() {
    let mut pool = Pool::new(2).unwrap();
    pool.execute(7).unwrap();
    pool.execute(8).unwrap();
    pool.begin_shutdown();
    // the first worker retrieves both queued jobs, in submission order,
    // before it observes closure and exits
    assert_eq!(pool.worker_step(0), WorkerEvent::Ran(7));
    assert_eq!(pool.worker_step(0), WorkerEvent::Ran(8));
    assert_eq!(pool.worker_step(0), WorkerEvent::Exited);
    assert!(!pool.is_terminated());
    assert_eq!(pool.worker_step(1), WorkerEvent::Exited);
    assert!(pool.is_terminated());
}

#[test]
fn idle_worker_blocks_while_pool_accepts() {
    let mut pool = Pool::new(1).unwrap();
    assert_eq!(pool.worker_step(0), WorkerEvent::Idle);
    pool.execute(5).unwrap();
    assert_eq!(pool.worker_step(0), WorkerEvent::Ran(5));
}
