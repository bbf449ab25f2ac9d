use website_checker::pool::{ThreadPool, WorkerStep};

fn drain(pool: &mut ThreadPool<u32>) -> Vec<u32> {
    let mut ran = Vec::new();
    loop {
        match pool.next_step() {
            WorkerStep::Execute(t) => ran.push(t),
            WorkerStep::Wait => panic!("a closed pool never asks a worker to wait"),
            WorkerStep::Exit => return ran,
        }
    }
}

#[test]
fn new_pool_is_empty_and_open() {
    let pool: ThreadPool<u32> = ThreadPool::new(4);
    assert_eq!(pool.size(), 4);
    assert!(!pool.is_closed());
    assert_eq!(pool.pending_len(), 0);
}

#[test]
fn every_task_runs_once_in_submission_order() {
    let mut pool = ThreadPool::new(2);
    for t in 0..5u32 {
        pool.submit(t);
    }
    assert_eq!(pool.pending_len(), 5);
    pool.close();
    assert_eq!(drain(&mut pool), vec![0, 1, 2, 3, 4]);
    assert!(matches!(pool.next_step(), WorkerStep::Exit));
    assert!(matches!(pool.next_step(), WorkerStep::Exit));
}

#[test]
fn open_empty_pool_asks_workers_to_wait() {
    let mut pool: ThreadPool<u32> = ThreadPool::new(1);
    assert!(matches!(pool.next_step(), WorkerStep::Wait));
    pool.submit(7);
    assert!(matches!(pool.next_step(), WorkerStep::Execute(7)));
    assert!(matches!(pool.next_step(), WorkerStep::Wait));
    pool.close();
    assert!(matches!(pool.next_step(), WorkerStep::Exit));
}

#[test]
fn duplicate_tasks_each_run() {
    let mut pool = ThreadPool::new(3);
    pool.submit(1u32);
    pool.submit(1u32);
    pool.close();
    assert_eq!(drain(&mut pool), vec![1, 1]);
}

#[test]
fn tasks_queued_before_close_still_run() {
    let mut pool = ThreadPool::new(2);
    pool.submit(10u32);
    assert!(matches!(pool.next_step(), WorkerStep::Execute(10)));
    pool.submit(11);
    pool.submit(12);
    pool.close();
    assert!(pool.is_closed());
    assert_eq!(drain(&mut pool), vec![11, 12]);
}
