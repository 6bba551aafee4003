use ste::exec::{Executor, Failure, WorkerState};

#[test]
fn three_submissions_one_wake() {
    let mut executor: Executor<u64> = Executor::new();
    let (id_a, woke_a) = executor.submit(Ok(10)).unwrap();
    let (id_b, woke_b) = executor.submit(Ok(20)).unwrap();
    let (id_c, woke_c) = executor.submit(Ok(30)).unwrap();
    let wakes = [woke_a, woke_b, woke_c].iter().filter(|w| **w).count();
    assert_eq!(wakes, 1);
    executor.run_pending();
    let completions = executor.completions_ref();
    assert_eq!(completions.len(), 3);
    assert_eq!(completions[0].id, id_a);
    assert_eq!(completions[0].outcome, Ok(10));
    assert_eq!(completions[1].id, id_b);
    assert_eq!(completions[1].outcome, Ok(20));
    assert_eq!(completions[2].id, id_c);
    assert_eq!(completions[2].outcome, Ok(30));
}

#[test]
fn within_batch_order_is_submission_order() {
    let mut executor: Executor<u64> = Executor::new();
    let mut ids = Vec::new();
    for value in [5, 6, 7, 8] {
        let (id, _) = executor.submit(Ok(value)).unwrap();
        ids.push(id);
    }
    executor.run_pending();
    let completions = executor.completions_ref();
    assert_eq!(completions.len(), 4);
    for (k, id) in ids.iter().enumerate() {
        assert_eq!(completions[k].id, *id);
    }
}

#[test]
fn failing_task_is_isolated() {
    let mut executor: Executor<u64> = Executor::new();
    let (good_before, _) = executor.submit(Ok(1)).unwrap();
    let (bad, _) = executor.submit(Err(String::from("boom"))).unwrap();
    let (good_after, _) = executor.submit(Ok(3)).unwrap();
    executor.run_pending();
    let completions = executor.completions_ref();
    assert_eq!(completions.len(), 3);
    assert_eq!(completions[0].id, good_before);
    assert_eq!(completions[0].outcome, Ok(1));
    assert_eq!(completions[1].id, bad);
    assert_eq!(
        completions[1].outcome,
        Err(Failure::TaskFailed(String::from("boom")))
    );
    assert_eq!(completions[2].id, good_after);
    assert_eq!(completions[2].outcome, Ok(3));
}

#[test]
fn later_batch_survives_earlier_failure() {
    let mut executor: Executor<u64> = Executor::new();
    executor.submit(Err(String::from("first batch fails"))).unwrap();
    executor.run_pending();
    let (second, _) = executor.submit(Ok(42)).unwrap();
    executor.run_pending();
    let completions = executor.completions_ref();
    assert_eq!(completions.len(), 2);
    assert_eq!(completions[1].id, second);
    assert_eq!(completions[1].outcome, Ok(42));
}

#[test]
fn shutdown_runs_everything_then_rejects() {
    let mut executor: Executor<u64> = Executor::new();
    let (id_a, _) = executor.submit(Ok(100)).unwrap();
    let (id_b, _) = executor.submit(Ok(200)).unwrap();
    executor.shutdown();
    assert_eq!(executor.current_state(), WorkerState::Stopped);
    assert!(executor.is_shutting_down());
    let completions = executor.completions_ref();
    assert_eq!(completions.len(), 2);
    assert_eq!(completions[0].id, id_a);
    assert_eq!(completions[0].outcome, Ok(100));
    assert_eq!(completions[1].id, id_b);
    assert_eq!(completions[1].outcome, Ok(200));
    let rejected = executor.submit(Ok(300));
    assert_eq!(rejected, Err(Failure::SubmissionRejected));
    assert_eq!(executor.completions_ref().len(), 2);
}

#[test]
fn shutdown_is_idempotent() {
    let mut executor: Executor<u64> = Executor::new();
    executor.submit(Ok(7)).unwrap();
    executor.shutdown();
    let after_first = executor.completions_ref().len();
    executor.shutdown();
    assert_eq!(executor.completions_ref().len(), after_first);
    assert_eq!(executor.current_state(), WorkerState::Stopped);
}

#[test]
fn worker_parks_until_shutdown() {
    let mut executor: Executor<u64> = Executor::new();
    assert_eq!(executor.current_state(), WorkerState::Parked);
    executor.submit(Ok(1)).unwrap();
    executor.run_pending();
    assert_eq!(executor.current_state(), WorkerState::Parked);
    executor.run_pending();
    assert_eq!(executor.completions_ref().len(), 1);
}

#[test]
fn empty_drain_completes_nothing() {
    let mut executor: Executor<u64> = Executor::new();
    executor.run_pending();
    assert_eq!(executor.completions_ref().len(), 0);
    assert!(!executor.is_shutting_down());
}
