use thread_pool::{Message, Step, SubmitError, ThreadPool, Worker, WorkerState};

/// Lets worker `id` take messages until the queue is empty or it leaves its
/// loop; every job it takes runs to completion. Returns the tickets it ran.
fn drain_with(pool: &mut ThreadPool, id: usize) -> Vec<u64> {
    let mut ran = Vec::new();
    loop {
        match pool.next_step(id) {
            Step::Wait => return ran,
            Step::Exit => return ran,
            Step::Run(t) => {
                ran.push(t);
                pool.finish_job(id);
            }
        }
    }
}

#[test]
fn new_pool_has_one_worker_per_slot() {
    for size in 1..8usize {
        let pool = ThreadPool::new(size);
        assert_eq!(pool.size(), size);
        for id in 0..size {
            let w = pool.worker(id);
            assert_eq!(w.id, id);
            assert_eq!(w.state, WorkerState::Idle);
        }
        assert_eq!(pool.pending(), 0);
        assert_eq!(pool.submitted(), 0);
        assert!(!pool.is_shutting_down());
        assert!(!pool.all_stopped());
    }
}

#[test]
fn execute_hands_out_consecutive_tickets() {
    let mut pool = ThreadPool::new(2);
    assert_eq!(pool.execute(), Ok(0));
    assert_eq!(pool.execute(), Ok(1));
    assert_eq!(pool.execute(), Ok(2));
    assert_eq!(pool.pending(), 3);
    assert_eq!(pool.submitted(), 3);
}

#[test]
fn idle_worker_waits_on_empty_queue() {
    let mut pool = ThreadPool::new(3);
    assert_eq!(pool.next_step(1), Step::Wait);
    assert_eq!(pool.worker(1).state, WorkerState::Idle);
    assert_eq!(pool.pending(), 0);
}

#[test]
fn dequeue_makes_worker_busy_until_it_finishes() {
    let mut pool = ThreadPool::new(2);
    let t = pool.execute().unwrap();
    assert_eq!(pool.next_step(1), Step::Run(t));
    assert_eq!(pool.worker(1).state, WorkerState::Busy(t));
    assert_eq!(pool.worker(0).state, WorkerState::Idle);
    assert_eq!(pool.pending(), 0);
    pool.finish_job(1);
    assert_eq!(pool.worker(1).state, WorkerState::Idle);
    assert_eq!(pool.completed(), 1);
}

#[test]
fn every_job_runs_exactly_once() {
    let mut pool = ThreadPool::new(3);
    let n: u64 = 10;
    for _ in 0..n {
        pool.execute().unwrap();
    }
    let mut runs = vec![0u32; n as usize];
    // Workers take turns; each runs one job per turn.
    loop {
        let mut took = false;
        for id in 0..3 {
            if let Step::Run(t) = pool.next_step(id) {
                runs[t as usize] += 1;
                pool.finish_job(id);
                took = true;
            }
        }
        if !took {
            break;
        }
    }
    assert!(runs.iter().all(|&c| c == 1));
    assert_eq!(pool.completed(), n);
    assert_eq!(pool.pending(), 0);
}

#[test]
fn two_jobs_submitted_in_order_both_run() {
    let mut pool = ThreadPool::new(2);
    let a = pool.execute().unwrap();
    let b = pool.execute().unwrap();
    // The second worker happens to grab the queue first.
    let first = pool.next_step(1);
    let second = pool.next_step(0);
    let mut ran = Vec::new();
    for s in [first, second] {
        if let Step::Run(t) = s {
            ran.push(t);
        }
    }
    pool.finish_job(0);
    pool.finish_job(1);
    ran.sort();
    assert_eq!(ran, vec![a, b]);
    assert_eq!(pool.completed(), 2);
}

#[test]
fn teardown_runs_queued_jobs_before_workers_exit() {
    let mut pool = ThreadPool::new(2);
    for _ in 0..5 {
        pool.execute().unwrap();
    }
    // Worker 0 is busy when teardown begins.
    assert_eq!(pool.next_step(0), Step::Run(0));
    pool.shutdown();
    assert!(pool.is_shutting_down());
    assert_eq!(pool.pending(), 4 + 2);
    let ran1 = drain_with(&mut pool, 1);
    assert_eq!(ran1, vec![1, 2, 3, 4]);
    assert_eq!(pool.worker(1).state, WorkerState::Exited);
    assert!(!pool.all_stopped());
    pool.finish_job(0);
    assert_eq!(pool.next_step(0), Step::Exit);
    assert!(pool.all_stopped());
    assert_eq!(pool.pending(), 0);
    assert_eq!(pool.completed(), 5);
}

#[test]
fn jobs_are_refused_once_teardown_begins() {
    let mut pool = ThreadPool::new(1);
    pool.execute().unwrap();
    pool.shutdown();
    assert_eq!(pool.execute(), Err(SubmitError::ShutDown));
    assert_eq!(pool.submitted(), 1);
    assert_eq!(pool.pending(), 2);
}

#[test]
fn second_shutdown_changes_nothing() {
    let mut pool = ThreadPool::new(3);
    pool.shutdown();
    assert_eq!(pool.pending(), 3);
    pool.shutdown();
    assert_eq!(pool.pending(), 3);
    assert!(pool.is_shutting_down());
}

#[test]
fn failing_job_takes_down_only_its_worker() {
    let mut pool = ThreadPool::new(2);
    for _ in 0..4 {
        pool.execute().unwrap();
    }
    assert_eq!(pool.next_step(0), Step::Run(0));
    pool.fault(0);
    assert_eq!(pool.worker(0).state, WorkerState::Faulted);
    assert_eq!(pool.faulted(), 1);
    pool.shutdown();
    let ran = drain_with(&mut pool, 1);
    assert_eq!(ran, vec![1, 2, 3]);
    assert_eq!(pool.worker(1).state, WorkerState::Exited);
    assert!(pool.all_stopped());
    assert_eq!(pool.completed(), 3);
    // The failed worker's `Terminate` is never taken.
    assert_eq!(pool.pending(), 1);
}

#[test]
fn two_jobs_fill_their_own_cells_on_a_pool_of_four() {
    let mut pool = ThreadPool::new(4);
    let mut cells: Vec<Option<u32>> = vec![None, None];
    let mut notified = [0u32; 2];
    let constants = [17u32, 42u32];
    let j0 = pool.execute().unwrap();
    let j1 = pool.execute().unwrap();
    assert_eq!((j0, j1), (0, 1));
    pool.shutdown();
    for id in [2usize, 0, 3, 1] {
        loop {
            match pool.next_step(id) {
                Step::Run(t) => {
                    cells[t as usize] = Some(constants[t as usize]);
                    notified[t as usize] += 1;
                    pool.finish_job(id);
                }
                Step::Exit | Step::Wait => break,
            }
        }
    }
    assert!(pool.all_stopped());
    assert_eq!(cells, vec![Some(17), Some(42)]);
    assert_eq!(notified, [1, 1]);
}

#[test]
fn single_worker_runs_both_jobs_before_teardown_ends() {
    let mut pool = ThreadPool::new(1);
    let mut counter = 0u32;
    let j1 = pool.execute().unwrap();
    let j2 = pool.execute().unwrap();
    pool.shutdown();
    loop {
        match pool.next_step(0) {
            Step::Run(t) => {
                if t == j2 {
                    counter += 1;
                }
                assert!(t == j1 || t == j2);
                pool.finish_job(0);
            }
            Step::Exit => break,
            Step::Wait => panic!("the worker's Terminate must still be queued"),
        }
    }
    assert!(pool.all_stopped());
    assert_eq!(counter, 1);
    assert_eq!(pool.completed(), 2);
}

#[test]
fn message_and_worker_basics() {
    assert!(Message::Terminate.is_terminate());
    assert!(!Message::NewJob(3).is_terminate());
    let w = Worker::new(5);
    assert_eq!(w.id, 5);
    assert!(w.is_live());
    let gone = Worker { id: 5, state: WorkerState::Faulted };
    assert!(!gone.is_live());
    let exited = Worker { id: 1, state: WorkerState::Exited };
    assert!(!exited.is_live());
}
