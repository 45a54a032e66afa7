use server::message::Message;
use server::pool::ThreadPool;
use server::worker::{Worker, WorkerState};

fn state_of(pool: &ThreadPool<u32>, id: usize) -> WorkerState {
    pool.worker(id).unwrap().state
}

fn take_job(pool: &mut ThreadPool<u32>, id: usize) -> u32 {
    assert!(pool.acquire(id));
    match pool.receive(id) {
        Some(Message::NewJob(job)) => job,
        _ => panic!("worker {} did not get a job", id),
    }
}

#[test]
fn new_pool_has_idle_workers_numbered_from_zero() {
    let pool: ThreadPool<u32> = ThreadPool::new(4);
    assert_eq!(pool.size(), 4);
    assert_eq!(pool.queued(), 0);
    assert!(!pool.is_closing());
    assert_eq!(pool.lock_holder(), None);
    assert!(!pool.all_joined());
    for id in 0..4 {
        assert_eq!(pool.worker(id), Some(Worker { id, state: WorkerState::Idle, joined: false }));
    }
    assert_eq!(pool.worker(4), None);
}

#[test]
fn pool_of_one_worker() {
    let pool: ThreadPool<u32> = ThreadPool::new(1);
    assert_eq!(pool.size(), 1);
    assert_eq!(pool.worker(0), Some(Worker::new(0)));
    assert_eq!(pool.worker(1), None);
}

#[test]
fn execute_queues_the_job_and_touches_no_worker() {
    let mut pool: ThreadPool<u32> = ThreadPool::new(2);
    pool.execute(10);
    assert_eq!(pool.queued(), 1);
    pool.execute(20);
    pool.execute(30);
    assert_eq!(pool.queued(), 3);
    assert_eq!(pool.size(), 2);
    assert_eq!(pool.lock_holder(), None);
    assert_eq!(state_of(&pool, 0), WorkerState::Idle);
    assert_eq!(state_of(&pool, 1), WorkerState::Idle);
    assert!(!pool.is_closing());
}

#[test]
fn jobs_are_handed_out_in_submission_order() {
    let mut pool: ThreadPool<u32> = ThreadPool::new(3);
    for job in 100..110u32 {
        pool.execute(job);
    }
    let mut seen = Vec::new();
    for turn in 0..10usize {
        let id = (turn * 2) % 3;
        seen.push(take_job(&mut pool, id));
        assert!(pool.finish(id));
    }
    assert_eq!(seen, vec![100, 101, 102, 103, 104, 105, 106, 107, 108, 109]);
    assert_eq!(pool.queued(), 0);
}

#[test]
fn each_message_goes_to_exactly_one_worker() {
    let mut pool: ThreadPool<u32> = ThreadPool::new(2);
    pool.execute(1);
    assert!(pool.acquire(0));
    assert!(matches!(pool.receive(0), Some(Message::NewJob(1))));
    assert_eq!(pool.queued(), 0);
    assert!(pool.acquire(1));
    assert!(pool.receive(1).is_none());
    assert_eq!(state_of(&pool, 1), WorkerState::Locked);
}

#[test]
fn acquire_is_refused_while_the_lock_is_held() {
    let mut pool: ThreadPool<u32> = ThreadPool::new(3);
    assert!(pool.acquire(1));
    assert_eq!(pool.lock_holder(), Some(1));
    assert_eq!(state_of(&pool, 1), WorkerState::Locked);
    assert!(!pool.acquire(0));
    assert!(!pool.acquire(2));
    assert!(!pool.acquire(1));
    assert_eq!(pool.lock_holder(), Some(1));
    assert_eq!(state_of(&pool, 0), WorkerState::Idle);
    assert_eq!(state_of(&pool, 2), WorkerState::Idle);
}

#[test]
fn acquire_is_refused_to_a_busy_worker() {
    let mut pool: ThreadPool<u32> = ThreadPool::new(2);
    pool.execute(5);
    assert_eq!(take_job(&mut pool, 0), 5);
    assert_eq!(pool.lock_holder(), None);
    assert!(!pool.acquire(0));
    assert_eq!(pool.lock_holder(), None);
    assert_eq!(state_of(&pool, 0), WorkerState::Executing);
}

#[test]
fn receive_on_an_empty_queue_waits_with_the_lock() {
    let mut pool: ThreadPool<u32> = ThreadPool::new(2);
    assert!(pool.acquire(0));
    assert!(pool.receive(0).is_none());
    assert_eq!(state_of(&pool, 0), WorkerState::Locked);
    assert_eq!(pool.lock_holder(), Some(0));
    pool.execute(8);
    assert!(matches!(pool.receive(0), Some(Message::NewJob(8))));
    assert_eq!(state_of(&pool, 0), WorkerState::Executing);
    assert_eq!(pool.lock_holder(), None);
}

#[test]
fn receive_is_refused_without_the_lock() {
    let mut pool: ThreadPool<u32> = ThreadPool::new(2);
    pool.execute(8);
    assert!(pool.receive(0).is_none());
    assert!(pool.acquire(1));
    assert!(pool.receive(0).is_none());
    assert_eq!(pool.queued(), 1);
    assert_eq!(state_of(&pool, 0), WorkerState::Idle);
    assert_eq!(pool.lock_holder(), Some(1));
}

#[test]
fn lock_is_free_while_a_job_runs() {
    let mut pool: ThreadPool<u32> = ThreadPool::new(2);
    pool.execute(1);
    pool.execute(2);
    assert_eq!(take_job(&mut pool, 0), 1);
    assert_eq!(state_of(&pool, 0), WorkerState::Executing);
    assert_eq!(pool.lock_holder(), None);
    assert!(pool.acquire(1));
}

#[test]
fn finish_returns_the_worker_to_idle() {
    let mut pool: ThreadPool<u32> = ThreadPool::new(1);
    pool.execute(1);
    pool.execute(2);
    assert_eq!(take_job(&mut pool, 0), 1);
    assert!(pool.finish(0));
    assert_eq!(state_of(&pool, 0), WorkerState::Idle);
    assert!(!pool.finish(0));
    assert_eq!(take_job(&mut pool, 0), 2);
}

#[test]
fn finish_is_refused_unless_executing() {
    let mut pool: ThreadPool<u32> = ThreadPool::new(2);
    assert!(!pool.finish(0));
    assert!(pool.acquire(0));
    assert!(!pool.finish(0));
    assert_eq!(state_of(&pool, 0), WorkerState::Locked);
    assert!(!pool.finish(1));
    assert_eq!(state_of(&pool, 1), WorkerState::Idle);
}

#[test]
fn shutdown_queues_one_terminate_per_worker() {
    let mut pool: ThreadPool<u32> = ThreadPool::new(5);
    assert!(pool.shutdown());
    assert!(pool.is_closing());
    assert_eq!(pool.queued(), 5);
    for id in 0..5 {
        assert_eq!(state_of(&pool, id), WorkerState::Idle);
    }
    for id in 0..5 {
        assert!(pool.acquire(id));
        assert!(matches!(pool.receive(id), Some(Message::Terminate)));
        assert_eq!(state_of(&pool, id), WorkerState::Terminated);
    }
    assert_eq!(pool.queued(), 0);
}

#[test]
fn second_shutdown_changes_nothing() {
    let mut pool: ThreadPool<u32> = ThreadPool::new(3);
    pool.execute(1);
    assert!(pool.shutdown());
    assert_eq!(pool.queued(), 4);
    assert!(!pool.shutdown());
    assert_eq!(pool.queued(), 4);
    assert!(pool.is_closing());
}

#[test]
fn terminate_signals_wait_behind_pending_jobs() {
    let mut pool: ThreadPool<u32> = ThreadPool::new(2);
    pool.execute(1);
    pool.execute(2);
    pool.execute(3);
    assert!(pool.shutdown());
    assert_eq!(pool.queued(), 5);
    for expected in 1..=3u32 {
        assert_eq!(take_job(&mut pool, 0), expected);
        assert!(pool.finish(0));
    }
    assert!(pool.acquire(0));
    assert!(matches!(pool.receive(0), Some(Message::Terminate)));
    assert!(pool.acquire(1));
    assert!(matches!(pool.receive(1), Some(Message::Terminate)));
    assert_eq!(pool.queued(), 0);
}

#[test]
fn terminated_worker_takes_no_more_turns() {
    let mut pool: ThreadPool<u32> = ThreadPool::new(2);
    assert!(pool.shutdown());
    assert!(pool.acquire(0));
    assert!(pool.receive(0).is_some());
    assert_eq!(state_of(&pool, 0), WorkerState::Terminated);
    assert!(!pool.acquire(0));
    assert!(pool.receive(0).is_none());
    assert!(!pool.finish(0));
    assert_eq!(pool.queued(), 1);
    assert_eq!(pool.lock_holder(), None);
}

#[test]
fn join_waits_for_the_worker_to_terminate() {
    let mut pool: ThreadPool<u32> = ThreadPool::new(1);
    pool.execute(1);
    assert!(pool.shutdown());
    assert!(!pool.join(0));
    assert_eq!(take_job(&mut pool, 0), 1);
    assert!(!pool.join(0));
    assert!(pool.finish(0));
    assert!(!pool.join(0));
    assert!(pool.acquire(0));
    assert!(!pool.join(0));
    assert!(pool.receive(0).is_some());
    assert!(!pool.all_joined());
    assert!(pool.join(0));
    assert!(pool.all_joined());
    assert_eq!(pool.worker(0), Some(Worker { id: 0, state: WorkerState::Terminated, joined: true }));
}

#[test]
fn a_worker_is_joined_only_once() {
    let mut pool: ThreadPool<u32> = ThreadPool::new(2);
    assert!(pool.shutdown());
    assert!(pool.acquire(1));
    assert!(pool.receive(1).is_some());
    assert!(pool.join(1));
    assert!(!pool.join(1));
    assert!(!pool.all_joined());
    assert!(pool.worker(1).unwrap().joined);
    assert!(!pool.worker(0).unwrap().joined);
}

#[test]
fn unknown_workers_are_refused() {
    let mut pool: ThreadPool<u32> = ThreadPool::new(2);
    pool.execute(1);
    assert!(!pool.acquire(2));
    assert!(!pool.acquire(usize::MAX));
    assert!(pool.receive(2).is_none());
    assert!(!pool.finish(2));
    assert!(!pool.join(2));
    assert_eq!(pool.worker(2), None);
    assert_eq!(pool.queued(), 1);
    assert_eq!(pool.lock_holder(), None);
}
