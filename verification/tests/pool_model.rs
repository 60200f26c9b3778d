use workpool::pool::{select_idle_worker, PoolError, ThreadPool};

#[test]
fn new_pool_all_idle() {
    let p = ThreadPool::new(3);
    assert_eq!(p.worker_count(), 3);
    assert_eq!(p.executing_now(), 0);
    for i in 0..3 {
        assert!(!p.is_busy(i));
        assert_eq!(p.pending_count(i), 0);
        assert_eq!(p.done_count(i), 0);
    }
}

#[test]
fn select_prefers_lowest_idle() {
    assert_eq!(select_idle_worker(&vec![true, false, false]), Some(1));
    assert_eq!(select_idle_worker(&vec![false, false]), Some(0));
    assert_eq!(select_idle_worker(&vec![true, true, false]), Some(2));
}

#[test]
fn select_none_when_all_busy() {
    assert_eq!(select_idle_worker(&vec![true, true, true]), None);
    assert_eq!(select_idle_worker(&Vec::new()), None);
}

#[test]
fn submit_routes_to_lowest_idle() {
    let mut p = ThreadPool::new(3);
    assert_eq!(p.execute(5), Ok(()));
    assert_eq!(p.pending_count(0), 1);
    p.begin_job(0);
    assert_eq!(p.execute(6), Ok(()));
    assert_eq!(p.pending_count(1), 1);
    assert_eq!(p.pending_count(2), 0);
}

#[test]
fn submit_fails_when_all_busy() {
    let mut p = ThreadPool::new(2);
    assert_eq!(p.execute(1), Ok(()));
    p.begin_job(0);
    assert_eq!(p.execute(2), Ok(()));
    p.begin_job(1);
    assert_eq!(p.execute(9), Err(PoolError::NoAvailableWorker));
    // the refused submission leaves the pool untouched
    assert_eq!(p.pending_count(0), 0);
    assert_eq!(p.pending_count(1), 0);
    assert!(p.is_busy(0));
    assert!(p.is_busy(1));
}

#[test]
fn finish_flips_idle_flag() {
    let mut p = ThreadPool::new(1);
    assert_eq!(p.execute(3), Ok(()));
    p.begin_job(0);
    assert!(p.is_busy(0));
    p.finish_job(0);
    assert!(!p.is_busy(0));
    assert_eq!(p.execute(4), Ok(()));
}

#[test]
fn per_worker_fifo_order() {
    let mut p = ThreadPool::new(1);
    assert_eq!(p.execute(11), Ok(()));
    assert_eq!(p.execute(12), Ok(()));
    assert_eq!(p.execute(13), Ok(()));
    for _ in 0..3 {
        p.begin_job(0);
        p.finish_job(0);
    }
    assert_eq!(p.done_count(0), 3);
    assert_eq!(p.done_at(0, 0), 11);
    assert_eq!(p.done_at(0, 1), 12);
    assert_eq!(p.done_at(0, 2), 13);
}

#[test]
fn teardown_drains_all_jobs() {
    let mut p = ThreadPool::new(2);
    assert_eq!(p.execute(1), Ok(()));
    p.begin_job(0);
    assert_eq!(p.execute(2), Ok(()));
    assert_eq!(p.execute(3), Ok(()));
    let logs = p.teardown();
    assert_eq!(logs, vec![vec![1], vec![2, 3]]);
}

#[test]
fn teardown_of_fresh_pool_is_empty() {
    let p = ThreadPool::new(2);
    let logs = p.teardown();
    assert_eq!(logs, vec![Vec::<u64>::new(), Vec::<u64>::new()]);
}

#[test]
fn at_most_size_executing() {
    let mut p = ThreadPool::new(2);
    assert_eq!(p.executing_now(), 0);
    assert_eq!(p.execute(1), Ok(()));
    p.begin_job(0);
    assert_eq!(p.execute(2), Ok(()));
    p.begin_job(1);
    assert_eq!(p.executing_now(), 2);
    assert_eq!(p.execute(3), Err(PoolError::NoAvailableWorker));
    assert_eq!(p.executing_now(), 2);
    p.finish_job(0);
    assert_eq!(p.executing_now(), 1);
}

#[test]
fn scenario_pool_of_two_blocked_then_freed() {
    let mut p = ThreadPool::new(2);
    assert_eq!(p.execute(21), Ok(()));
    p.begin_job(0);
    assert_eq!(p.execute(22), Ok(()));
    p.begin_job(1);
    // both workers hold a blocking job: a third submission is refused
    assert_eq!(p.execute(23), Err(PoolError::NoAvailableWorker));
    // one finishes; the next submission succeeds and lands on that worker
    p.finish_job(0);
    assert_eq!(p.execute(24), Ok(()));
    assert_eq!(p.pending_count(0), 1);
    assert_eq!(p.pending_count(1), 0);
    let logs = p.teardown();
    assert_eq!(logs, vec![vec![21, 24], vec![22]]);
}

#[test]
fn scenario_single_worker_rejects_second() {
    let mut p = ThreadPool::new(1);
    assert_eq!(p.execute(31), Ok(()));
    p.begin_job(0);
    assert_eq!(p.execute(32), Err(PoolError::NoAvailableWorker));
    p.finish_job(0);
    assert_eq!(p.execute(33), Ok(()));
    let logs = p.teardown();
    assert_eq!(logs, vec![vec![31, 33]]);
}

#[test]
fn double_routing_race_keeps_jobs() {
    // the busy flag rises only when a job is picked up, so two quick
    // submissions may land on one worker while another sits idle
    let mut p = ThreadPool::new(2);
    assert_eq!(p.execute(41), Ok(()));
    assert_eq!(p.execute(42), Ok(()));
    assert_eq!(p.pending_count(0), 2);
    assert_eq!(p.pending_count(1), 0);
    p.begin_job(0);
    p.finish_job(0);
    p.begin_job(0);
    p.finish_job(0);
    assert_eq!(p.done_at(0, 0), 41);
    assert_eq!(p.done_at(0, 1), 42);
}
