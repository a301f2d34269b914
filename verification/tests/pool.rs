use practical_networking_in_rust::model::{Claim, TaskOutcome};
use practical_networking_in_rust::queue::Rejected;
use practical_networking_in_rust::worker::WorkerState;
use practical_networking_in_rust::ThreadPool;

/// Lets the workers take turns, in the order given, until every worker has
/// exited. Each turn a worker either reports the end of the task in its hands
/// or asks for work. Returns the tasks in the order in which they were handed
/// out; a task whose number is in `failing` ends in a panic.
fn drain(pool: &mut ThreadPool<u32>, turns: &[usize], failing: &[u32]) -> Vec<u32> {
    let size = pool.size();
    let mut in_hand: Vec<Option<u32>> = vec![None; size];
    let mut handed_out = Vec::new();
    let mut round = 0;
    while !pool.is_terminated() {
        assert!(round < 10_000, "the pool did not drain");
        let worker = turns[round % turns.len()];
        round += 1;
        assert!(pool.running() <= size);
        match in_hand[worker].take() {
            Some(task) => {
                let outcome =
                    if failing.contains(&task) { TaskOutcome::Panicked } else { TaskOutcome::Completed };
                assert!(pool.finish(worker, outcome));
            }
            None => match pool.claim(worker) {
                Some(Claim::Run(task)) => {
                    handed_out.push(task);
                    in_hand[worker] = Some(task);
                }
                Some(Claim::Wait) => panic!("a pool that is shutting down never says Wait"),
                Some(Claim::Exit) | None => {}
            },
        }
    }
    handed_out
}

#[test]
fn new_pool_has_idle_workers_and_nothing_to_do() {
    let pool: ThreadPool<u32> = ThreadPool::new(4);
    assert_eq!(pool.size(), 4);
    assert_eq!(pool.pending(), 0);
    assert_eq!(pool.running(), 0);
    assert!(!pool.is_shut_down());
    assert!(!pool.is_terminated());
    for worker in 0..4 {
        assert_eq!(pool.worker_state(worker), Some(WorkerState::Idle));
    }
    assert_eq!(pool.worker_state(4), None);
}

#[test]
fn pool_of_one_worker() {
    let mut pool: ThreadPool<u32> = ThreadPool::new(1);
    assert_eq!(pool.size(), 1);
    assert_eq!(pool.execute(5), Ok(()));
    assert_eq!(pool.claim(0), Some(Claim::Run(5)));
    assert_eq!(pool.claim(1), None);
}

#[test]
fn execute_queues_without_running() {
    let mut pool: ThreadPool<u32> = ThreadPool::new(2);
    assert_eq!(pool.execute(1), Ok(()));
    assert_eq!(pool.execute(2), Ok(()));
    assert_eq!(pool.execute(3), Ok(()));
    assert_eq!(pool.pending(), 3);
    assert_eq!(pool.running(), 0);
    assert_eq!(pool.worker_state(0), Some(WorkerState::Idle));
    assert_eq!(pool.worker_state(1), Some(WorkerState::Idle));
}

#[test]
fn tasks_are_handed_out_in_submission_order() {
    let mut pool: ThreadPool<u32> = ThreadPool::new(3);
    for task in [30, 10, 20, 10] {
        assert_eq!(pool.execute(task), Ok(()));
    }
    assert_eq!(pool.claim(2), Some(Claim::Run(30)));
    assert_eq!(pool.claim(0), Some(Claim::Run(10)));
    assert_eq!(pool.claim(1), Some(Claim::Run(20)));
    assert_eq!(pool.pending(), 1);
    assert_eq!(pool.running(), 3);
    assert!(pool.finish(0, TaskOutcome::Completed));
    assert_eq!(pool.claim(0), Some(Claim::Run(10)));
    assert_eq!(pool.pending(), 0);
}

#[test]
fn claim_on_an_empty_open_queue_waits() {
    let mut pool: ThreadPool<u32> = ThreadPool::new(2);
    assert_eq!(pool.claim(0), Some(Claim::Wait));
    assert_eq!(pool.worker_state(0), Some(WorkerState::Idle));
    assert_eq!(pool.execute(8), Ok(()));
    assert_eq!(pool.claim(0), Some(Claim::Run(8)));
    assert_eq!(pool.worker_state(0), Some(WorkerState::Running));
    assert_eq!(pool.claim(1), Some(Claim::Wait));
}

#[test]
fn claim_on_an_empty_closed_queue_exits() {
    let mut pool: ThreadPool<u32> = ThreadPool::new(2);
    pool.shutdown();
    assert!(pool.is_shut_down());
    assert_eq!(pool.claim(1), Some(Claim::Exit));
    assert_eq!(pool.worker_state(1), Some(WorkerState::Terminated));
    assert_eq!(pool.worker_state(0), Some(WorkerState::Idle));
    assert!(!pool.is_terminated());
    assert_eq!(pool.claim(0), Some(Claim::Exit));
    assert!(pool.is_terminated());
}

#[test]
fn only_an_idle_worker_of_the_pool_can_claim() {
    let mut pool: ThreadPool<u32> = ThreadPool::new(2);
    assert_eq!(pool.execute(1), Ok(()));
    assert_eq!(pool.execute(2), Ok(()));
    assert_eq!(pool.claim(2), None);
    assert_eq!(pool.claim(usize::MAX), None);
    assert_eq!(pool.pending(), 2);
    assert_eq!(pool.claim(0), Some(Claim::Run(1)));
    // A running worker cannot claim a second task.
    assert_eq!(pool.claim(0), None);
    assert_eq!(pool.pending(), 1);
    assert_eq!(pool.running(), 1);
    pool.shutdown();
    assert!(pool.finish(0, TaskOutcome::Completed));
    assert_eq!(pool.claim(0), Some(Claim::Run(2)));
    assert!(pool.finish(0, TaskOutcome::Completed));
    assert_eq!(pool.claim(0), Some(Claim::Exit));
    // A terminated worker stays terminated.
    assert_eq!(pool.claim(0), None);
    assert!(!pool.finish(0, TaskOutcome::Completed));
    assert_eq!(pool.worker_state(0), Some(WorkerState::Terminated));
}

#[test]
fn only_a_running_worker_can_finish() {
    let mut pool: ThreadPool<u32> = ThreadPool::new(2);
    assert!(!pool.finish(0, TaskOutcome::Completed));
    assert!(!pool.finish(2, TaskOutcome::Panicked));
    assert_eq!(pool.execute(4), Ok(()));
    assert_eq!(pool.claim(1), Some(Claim::Run(4)));
    assert!(!pool.finish(0, TaskOutcome::Completed));
    assert_eq!(pool.running(), 1);
    assert!(pool.finish(1, TaskOutcome::Completed));
    assert!(!pool.finish(1, TaskOutcome::Completed));
    assert_eq!(pool.running(), 0);
}

#[test]
fn execute_after_shutdown_is_rejected_and_hands_the_task_back() {
    let mut pool: ThreadPool<u32> = ThreadPool::new(2);
    assert_eq!(pool.execute(1), Ok(()));
    pool.shutdown();
    assert_eq!(pool.execute(2), Err(Rejected { task: 2 }));
    assert_eq!(pool.pending(), 1);
    assert_eq!(pool.claim(0), Some(Claim::Run(1)));
    assert!(pool.finish(0, TaskOutcome::Completed));
    assert_eq!(pool.claim(0), Some(Claim::Exit));
    assert_eq!(pool.execute(3), Err(Rejected { task: 3 }));
}

#[test]
fn shutdown_twice_changes_nothing() {
    let mut pool: ThreadPool<u32> = ThreadPool::new(1);
    assert_eq!(pool.execute(1), Ok(()));
    pool.shutdown();
    pool.shutdown();
    assert!(pool.is_shut_down());
    assert_eq!(pool.pending(), 1);
    assert_eq!(pool.claim(0), Some(Claim::Run(1)));
}

#[test]
fn every_task_is_executed_exactly_once() {
    for size in 1..=5usize {
        for count in [0u32, 1, 2, 7, 40] {
            let mut pool: ThreadPool<u32> = ThreadPool::new(size);
            for task in 0..count {
                assert_eq!(pool.execute(task), Ok(()));
            }
            pool.shutdown();
            let turns: Vec<usize> = (0..size).collect();
            let mut handed_out = drain(&mut pool, &turns, &[]);
            assert_eq!(handed_out, (0..count).collect::<Vec<u32>>());
            handed_out.sort();
            handed_out.dedup();
            assert_eq!(handed_out.len(), count as usize);
            assert_eq!(pool.pending(), 0);
            assert_eq!(pool.running(), 0);
        }
    }
}

#[test]
fn every_task_is_executed_exactly_once_whatever_the_timing() {
    // Three workers taking turns unevenly, tasks arriving while others run.
    let mut pool: ThreadPool<u32> = ThreadPool::new(3);
    let mut seen = Vec::new();
    assert_eq!(pool.execute(0), Ok(()));
    assert_eq!(pool.claim(2), Some(Claim::Run(0)));
    seen.push(0);
    assert_eq!(pool.claim(1), Some(Claim::Wait));
    assert_eq!(pool.execute(1), Ok(()));
    assert_eq!(pool.execute(2), Ok(()));
    assert_eq!(pool.claim(1), Some(Claim::Run(1)));
    seen.push(1);
    assert!(pool.finish(2, TaskOutcome::Completed));
    assert_eq!(pool.execute(3), Ok(()));
    assert_eq!(pool.claim(0), Some(Claim::Run(2)));
    seen.push(2);
    assert_eq!(pool.execute(4), Ok(()));
    pool.shutdown();
    assert!(pool.finish(0, TaskOutcome::Completed));
    assert!(pool.finish(1, TaskOutcome::Completed));
    seen.extend(drain(&mut pool, &[2, 2, 0, 1, 2, 0], &[]));
    assert_eq!(seen, vec![0, 1, 2, 3, 4]);
    assert!(pool.is_terminated());
}

#[test]
fn shutdown_drains_tasks_that_were_still_waiting() {
    let mut pool: ThreadPool<u32> = ThreadPool::new(2);
    for task in 100..106 {
        assert_eq!(pool.execute(task), Ok(()));
    }
    // Nothing has run when shutdown begins.
    assert_eq!(pool.running(), 0);
    pool.shutdown();
    assert_eq!(pool.pending(), 6);
    let handed_out = drain(&mut pool, &[0, 1], &[]);
    assert_eq!(handed_out, vec![100, 101, 102, 103, 104, 105]);
    assert!(pool.is_terminated());
    assert_eq!(pool.pending(), 0);
}

#[test]
fn no_worker_exits_while_a_task_waits() {
    let mut pool: ThreadPool<u32> = ThreadPool::new(2);
    assert_eq!(pool.execute(1), Ok(()));
    assert_eq!(pool.execute(2), Ok(()));
    pool.shutdown();
    assert_eq!(pool.claim(0), Some(Claim::Run(1)));
    assert_eq!(pool.claim(1), Some(Claim::Run(2)));
    assert!(pool.finish(1, TaskOutcome::Completed));
    // The queue is empty: worker 1 may go, though worker 0 is still busy.
    assert_eq!(pool.claim(1), Some(Claim::Exit));
    assert!(!pool.is_terminated());
    assert_eq!(pool.running(), 1);
    assert!(pool.finish(0, TaskOutcome::Completed));
    assert_eq!(pool.claim(0), Some(Claim::Exit));
    assert!(pool.is_terminated());
}

#[test]
fn never_more_tasks_running_than_workers() {
    let mut pool: ThreadPool<u32> = ThreadPool::new(3);
    for task in 0..10 {
        assert_eq!(pool.execute(task), Ok(()));
    }
    for worker in 0..3 {
        assert!(matches!(pool.claim(worker), Some(Claim::Run(_))));
    }
    assert_eq!(pool.running(), 3);
    assert_eq!(pool.pending(), 7);
    // Nobody can start a fourth task.
    for worker in 0..6 {
        assert_eq!(pool.claim(worker), None);
    }
    assert_eq!(pool.running(), 3);
    assert_eq!(pool.pending(), 7);
    assert!(pool.finish(1, TaskOutcome::Completed));
    assert_eq!(pool.running(), 2);
    assert_eq!(pool.claim(1), Some(Claim::Run(3)));
    assert_eq!(pool.running(), 3);
}

#[test]
fn a_failing_task_does_not_stop_the_others() {
    let mut pool: ThreadPool<u32> = ThreadPool::new(2);
    let count = 9u32;
    for task in 0..count {
        assert_eq!(pool.execute(task), Ok(()));
    }
    pool.shutdown();
    let handed_out = drain(&mut pool, &[0, 1, 1], &[4]);
    assert_eq!(handed_out.len(), count as usize);
    let succeeded = handed_out.iter().filter(|task| **task != 4).count();
    assert_eq!(succeeded, 8);
    assert_eq!(pool.size(), 2);
    assert!(pool.is_terminated());
}

#[test]
fn a_worker_whose_task_panicked_is_idle_again() {
    let mut pool: ThreadPool<u32> = ThreadPool::new(2);
    assert_eq!(pool.execute(1), Ok(()));
    assert_eq!(pool.claim(0), Some(Claim::Run(1)));
    assert!(pool.finish(0, TaskOutcome::Panicked));
    assert_eq!(pool.worker_state(0), Some(WorkerState::Idle));
    assert_eq!(pool.worker_state(1), Some(WorkerState::Idle));
    assert_eq!(pool.size(), 2);
    assert!(!pool.is_shut_down());
    assert_eq!(pool.execute(2), Ok(()));
    assert_eq!(pool.claim(0), Some(Claim::Run(2)));
}

#[test]
fn one_slow_task_does_not_hold_up_the_other_worker() {
    // Two workers, five tasks; the first task is slow.
    let mut pool: ThreadPool<u32> = ThreadPool::new(2);
    for task in 1..=5 {
        assert_eq!(pool.execute(task), Ok(()));
    }
    let mut completed = Vec::new();
    assert_eq!(pool.claim(0), Some(Claim::Run(1)));
    for task in 2..=5 {
        assert_eq!(pool.claim(1), Some(Claim::Run(task)));
        assert!(pool.finish(1, TaskOutcome::Completed));
        completed.push(task);
        // The slow task is still running on worker 0.
        assert_eq!(pool.worker_state(0), Some(WorkerState::Running));
    }
    assert_eq!(completed, vec![2, 3, 4, 5]);
    assert_eq!(pool.running(), 1);
    assert_eq!(pool.claim(1), Some(Claim::Wait));
    assert!(pool.finish(0, TaskOutcome::Completed));
    completed.push(1);
    completed.sort();
    assert_eq!(completed, vec![1, 2, 3, 4, 5]);
    assert_eq!(pool.pending(), 0);
    assert_eq!(pool.running(), 0);
    assert_eq!(pool.claim(0), Some(Claim::Wait));
}

#[test]
fn second_task_runs_after_the_first_panicked() {
    // One worker; the first task panics, the second returns a marker.
    let mut pool: ThreadPool<&'static str> = ThreadPool::new(1);
    assert_eq!(pool.execute("panics"), Ok(()));
    assert_eq!(pool.execute("marker"), Ok(()));
    assert_eq!(pool.claim(0), Some(Claim::Run("panics")));
    assert!(pool.finish(0, TaskOutcome::Panicked));
    let marker = match pool.claim(0) {
        Some(Claim::Run(task)) => task,
        other => panic!("expected the second task, got {:?}", other),
    };
    assert_eq!(marker, "marker");
    assert!(pool.finish(0, TaskOutcome::Completed));
    assert_eq!(pool.worker_state(0), Some(WorkerState::Idle));
}

#[test]
fn accepted_tasks_are_waiting_running_or_done() {
    let mut pool: ThreadPool<u32> = ThreadPool::new(2);
    let mut done = 0usize;
    let mut accepted = 0usize;
    for task in 0..6 {
        assert_eq!(pool.execute(task), Ok(()));
        accepted += 1;
        assert_eq!(pool.pending() + pool.running() + done, accepted);
    }
    for worker in [0usize, 1, 0, 1, 1, 0, 0, 1] {
        if pool.finish(worker, TaskOutcome::Completed) {
            done += 1;
        } else {
            let _ = pool.claim(worker);
        }
        assert_eq!(pool.pending() + pool.running() + done, accepted);
    }
}

#[test]
fn tasks_need_not_be_copyable() {
    let mut pool: ThreadPool<Box<dyn FnOnce() -> u32>> = ThreadPool::new(1);
    assert!(pool.execute(Box::new(|| 41 + 1)).is_ok());
    let task = match pool.claim(0) {
        Some(Claim::Run(task)) => task,
        _ => panic!("expected a task"),
    };
    assert_eq!(task(), 42);
    assert!(pool.finish(0, TaskOutcome::Completed));
    pool.shutdown();
    assert!(pool.execute(Box::new(|| 0)).is_err());
}

#[test]
fn a_task_that_never_ends_keeps_its_worker_and_only_its_worker() {
    // The pool sets no time limit: worker 0 never reports, and nothing makes it.
    let mut pool: ThreadPool<u32> = ThreadPool::new(2);
    for task in 0..4 {
        assert_eq!(pool.execute(task), Ok(()));
    }
    assert_eq!(pool.claim(0), Some(Claim::Run(0)));
    for task in 1..4 {
        assert_eq!(pool.claim(1), Some(Claim::Run(task)));
        assert!(pool.finish(1, TaskOutcome::Completed));
    }
    pool.shutdown();
    assert_eq!(pool.claim(1), Some(Claim::Exit));
    assert_eq!(pool.worker_state(0), Some(WorkerState::Running));
    assert_eq!(pool.running(), 1);
    // Shutdown cannot complete while the task is running.
    assert!(!pool.is_terminated());
}

#[test]
fn an_undersized_pool_lets_the_queue_grow() {
    let mut pool: ThreadPool<u32> = ThreadPool::new(1);
    assert_eq!(pool.execute(0), Ok(()));
    assert_eq!(pool.claim(0), Some(Claim::Run(0)));
    for task in 1..=1000 {
        assert_eq!(pool.execute(task), Ok(()));
    }
    assert_eq!(pool.pending(), 1000);
    assert_eq!(pool.running(), 1);
}
