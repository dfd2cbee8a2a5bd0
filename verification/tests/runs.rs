use spai::background::{BackgroundExecutor, Run, RunEventType, RunStatus};

fn payloads(events: &[spai::background::RunEvent]) -> Vec<String> {
    events.iter().map(|e| e.payload.clone()).collect()
}

fn seqs(events: &[spai::background::RunEvent]) -> Vec<u64> {
    events.iter().map(|e| e.seq).collect()
}

#[test]
fn new_run_is_pending_and_empty() {
    let run = Run::new("task".to_string());
    assert_eq!(run.status(), RunStatus::Pending);
    assert_eq!(run.task(), "task");
    assert_eq!(run.last_seq(), 0);
    assert!(!run.is_cancelled());
    let page = run.poll(0, 10);
    assert!(page.events.is_empty());
    assert_eq!(page.next_cursor, 0);
    assert_eq!(page.status, RunStatus::Pending);
}

#[test]
fn sequence_numbers_count_up_from_one() {
    let mut run = Run::new("t".to_string());
    assert_eq!(run.record(RunEventType::Reasoning, "a".to_string()), 1);
    assert_eq!(run.record(RunEventType::ToolDispatch, "b".to_string()), 2);
    assert_eq!(run.record(RunEventType::Observation, "c".to_string()), 3);
    assert_eq!(run.record(RunEventType::Terminated, "d".to_string()), 4);
    assert_eq!(run.last_seq(), 4);
    let page = run.poll(0, 100);
    assert_eq!(seqs(&page.events), vec![1, 2, 3, 4]);
    assert_eq!(payloads(&page.events), vec!["a", "b", "c", "d"]);
    assert_eq!(page.events[1].kind, RunEventType::ToolDispatch);
    assert_eq!(page.next_cursor, 4);
}

#[test]
fn poll_returns_only_what_follows_the_cursor() {
    let mut run = Run::new("t".to_string());
    for i in 0..5 {
        run.record(RunEventType::Reasoning, format!("e{}", i + 1));
    }
    let page = run.poll(2, 2);
    assert_eq!(seqs(&page.events), vec![3, 4]);
    assert_eq!(page.next_cursor, 4);
    let page = run.poll(page.next_cursor, 2);
    assert_eq!(seqs(&page.events), vec![5]);
    assert_eq!(page.next_cursor, 5);
    let page = run.poll(page.next_cursor, 2);
    assert!(page.events.is_empty());
    assert_eq!(page.next_cursor, 5);
}

#[test]
fn poll_edges() {
    let mut run = Run::new("t".to_string());
    run.record(RunEventType::Reasoning, "a".to_string());
    run.record(RunEventType::Reasoning, "b".to_string());
    let none = run.poll(0, 0);
    assert!(none.events.is_empty());
    assert_eq!(none.next_cursor, 0);
    let beyond = run.poll(7, 3);
    assert!(beyond.events.is_empty());
    assert_eq!(beyond.next_cursor, 7);
    let huge = run.poll(1, usize::MAX);
    assert_eq!(seqs(&huge.events), vec![2]);
    assert_eq!(huge.next_cursor, 2);
    let far = run.poll(u64::MAX, usize::MAX);
    assert!(far.events.is_empty());
    assert_eq!(far.next_cursor, u64::MAX);
}

#[test]
fn two_polls_in_a_row_give_what_one_gives() {
    let mut run = Run::new("t".to_string());
    for i in 0..7 {
        run.record(RunEventType::Observation, format!("e{}", i));
    }
    let first = run.poll(1, 2);
    let second = run.poll(first.next_cursor, 3);
    let both = run.poll(1, 5);
    let mut joined = seqs(&first.events);
    joined.extend(seqs(&second.events));
    assert_eq!(joined, seqs(&both.events));
    assert_eq!(second.next_cursor, both.next_cursor);
}

#[test]
fn a_resumed_observer_sees_later_events() {
    let mut run = Run::new("t".to_string());
    run.record(RunEventType::Reasoning, "a".to_string());
    let seen = run.poll(0, 10);
    assert_eq!(seen.next_cursor, 1);
    run.record(RunEventType::ToolDispatch, "b".to_string());
    run.record(RunEventType::Observation, "c".to_string());
    let later = run.poll(seen.next_cursor, 10);
    assert_eq!(payloads(&later.events), vec!["b", "c"]);
    let other_observer = run.poll(0, 10);
    assert_eq!(payloads(&other_observer.events), vec!["a", "b", "c"]);
}

#[test]
fn status_moves_forward_only() {
    let mut run = Run::new("t".to_string());
    assert!(!run.complete(true));
    assert_eq!(run.status(), RunStatus::Pending);
    assert!(run.start());
    assert_eq!(run.status(), RunStatus::Running);
    assert!(!run.start());
    assert!(run.complete(true));
    assert_eq!(run.status(), RunStatus::Succeeded);
    assert!(!run.complete(false));
    assert!(!run.cancel());
    assert!(!run.start());
    assert_eq!(run.status(), RunStatus::Succeeded);
}

#[test]
fn failed_and_cancelled_are_terminal_too() {
    let mut failed = Run::new("t".to_string());
    failed.start();
    assert!(failed.complete(false));
    assert_eq!(failed.status(), RunStatus::Failed);
    assert!(!failed.cancel());
    assert!(!failed.complete(true));
    assert_eq!(failed.status(), RunStatus::Failed);

    let mut cancelled = Run::new("t".to_string());
    assert!(cancelled.cancel());
    assert_eq!(cancelled.status(), RunStatus::Cancelled);
    assert!(cancelled.is_cancelled());
    assert!(!cancelled.start());
    assert!(!cancelled.complete(true));
    assert!(!cancelled.cancel());
    assert_eq!(cancelled.status(), RunStatus::Cancelled);
}

#[test]
fn cancelled_run_still_records_the_result_in_flight() {
    let mut run = Run::new("t".to_string());
    run.start();
    run.record(RunEventType::ToolDispatch, "scan".to_string());
    assert!(run.cancel());
    assert_eq!(run.record(RunEventType::Observation, "all of the output".to_string()), 2);
    let page = run.poll(0, 10);
    assert_eq!(payloads(&page.events), vec!["scan", "all of the output"]);
    assert_eq!(page.status, RunStatus::Cancelled);
}

#[test]
fn executor_gives_out_ids_in_order() {
    let mut executor = BackgroundExecutor::new();
    assert_eq!(executor.len(), 0);
    assert_eq!(executor.submit("a".to_string()), 0);
    assert_eq!(executor.submit("b".to_string()), 1);
    assert_eq!(executor.len(), 2);
    assert_eq!(executor.status(0), Some(RunStatus::Pending));
    assert_eq!(executor.status(2), None);
}

#[test]
fn executor_keeps_runs_apart() {
    let mut executor = BackgroundExecutor::new();
    let a = executor.submit("a".to_string());
    let b = executor.submit("b".to_string());
    assert!(executor.start(a));
    assert_eq!(executor.record(a, RunEventType::Reasoning, "a1".to_string()), Some(1));
    assert_eq!(executor.record(b, RunEventType::Reasoning, "b1".to_string()), Some(1));
    assert_eq!(executor.record(a, RunEventType::ToolDispatch, "a2".to_string()), Some(2));
    assert!(executor.cancel(b));
    assert_eq!(executor.status(a), Some(RunStatus::Running));
    assert_eq!(executor.status(b), Some(RunStatus::Cancelled));
    assert!(executor.is_cancelled(b));
    assert!(!executor.is_cancelled(a));
    let page = executor.poll(a, 0, 10).unwrap();
    assert_eq!(payloads(&page.events), vec!["a1", "a2"]);
    assert_eq!(page.status, RunStatus::Running);
    let page = executor.poll(b, 0, 10).unwrap();
    assert_eq!(payloads(&page.events), vec!["b1"]);
    assert!(executor.complete(a, false));
    assert_eq!(executor.status(a), Some(RunStatus::Failed));
}

#[test]
fn executor_refuses_unknown_ids() {
    let mut executor = BackgroundExecutor::new();
    executor.submit("a".to_string());
    assert!(executor.poll(5, 0, 10).is_none());
    assert!(!executor.start(5));
    assert!(!executor.cancel(5));
    assert!(!executor.complete(5, true));
    assert!(!executor.is_cancelled(5));
    assert_eq!(executor.record(5, RunEventType::Reasoning, "x".to_string()), None);
    assert_eq!(executor.len(), 1);
    assert_eq!(executor.poll(0, 0, 10).unwrap().events.len(), 0);
}
