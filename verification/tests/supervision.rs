use spai::background::{BackgroundExecutor, RunEvent, RunEventType, RunStatus};
use spai::react::{LoopAction, LoopPhase, ModelReply, Observation, ToolCall};

fn action(id: &str) -> ModelReply {
    ModelReply::Action {
        thought: "next".to_string(),
        call: ToolCall { tool_id: id.to_string(), args: Vec::new() },
    }
}

fn answer(text: &str) -> ModelReply {
    ModelReply::FinalAnswer { thought: "done".to_string(), answer: text.to_string() }
}

fn log(events: &[RunEvent]) -> Vec<(u64, RunEventType, String)> {
    events.iter().map(|e| (e.seq, e.kind, e.payload.clone())).collect()
}

#[test]
fn supervised_loop_records_every_step() {
    let mut executor = BackgroundExecutor::new();
    let id = executor.submit("scan".to_string());
    let agent = executor.start_loop(id, "scan".to_string(), 3);
    assert_eq!(executor.status(id), Some(RunStatus::Running));
    let agent = executor.after_model(id, agent, action("portlist"));
    let agent = executor.after_tool(id, agent, Observation::new("22/tcp".to_string()));
    let agent = executor.after_model(id, agent, answer("ssh is open"));
    assert_eq!(agent.phase(), LoopPhase::Succeeded);
    assert_eq!(executor.status(id), Some(RunStatus::Succeeded));
    let page = executor.poll(id, 0, 100).unwrap();
    assert_eq!(
        log(&page.events),
        vec![
            (1, RunEventType::Reasoning, "cycle 1".to_string()),
            (2, RunEventType::ToolDispatch, "portlist".to_string()),
            (3, RunEventType::Observation, "22/tcp".to_string()),
            (4, RunEventType::Reasoning, "cycle 2".to_string()),
            (5, RunEventType::Terminated, "ssh is open".to_string()),
        ]
    );
    assert_eq!(page.next_cursor, 5);
    assert_eq!(page.status, RunStatus::Succeeded);
}

#[test]
fn exhausted_budget_fails_the_run() {
    let mut executor = BackgroundExecutor::new();
    let id = executor.submit("t".to_string());
    let agent = executor.start_loop(id, "t".to_string(), 1);
    let agent = executor.after_model(id, agent, action("scan"));
    assert_eq!(agent.phase(), LoopPhase::Failed);
    assert_eq!(executor.status(id), Some(RunStatus::Failed));
    let page = executor.poll(id, 0, 100).unwrap();
    assert_eq!(
        log(&page.events),
        vec![
            (1, RunEventType::Reasoning, "cycle 1".to_string()),
            (
                2,
                RunEventType::Terminated,
                "Maximum number of cycles reached without a final answer".to_string()
            ),
        ]
    );
}

#[test]
fn model_failure_fails_the_run() {
    let mut executor = BackgroundExecutor::new();
    let id = executor.submit("t".to_string());
    let agent = executor.start_loop(id, "t".to_string(), 3);
    let agent = executor.after_model(id, agent, ModelReply::Failed("503".to_string()));
    assert_eq!(agent.phase(), LoopPhase::Failed);
    assert_eq!(executor.status(id), Some(RunStatus::Failed));
    let page = executor.poll(id, 1, 100).unwrap();
    assert_eq!(log(&page.events), vec![(2, RunEventType::Terminated, "503".to_string())]);
}

#[test]
fn cancel_during_a_tool_records_its_result_and_stops_the_loop() {
    let mut executor = BackgroundExecutor::new();
    let id = executor.submit("t".to_string());
    let agent = executor.start_loop(id, "t".to_string(), 5);
    let agent = executor.after_model(id, agent, action("slow_scan"));
    assert!(matches!(agent.awaiting(), LoopAction::Dispatch(_)));
    assert!(executor.cancel(id));
    let agent = executor.after_tool(id, agent, Observation::new("complete output".to_string()));
    assert_eq!(agent.phase(), LoopPhase::Cancelled);
    assert!(matches!(agent.awaiting(), LoopAction::Finish));
    assert_eq!(agent.cycles(), 1);
    assert_eq!(agent.trace().len(), 1);
    assert_eq!(agent.trace()[0].observation.as_ref().unwrap().content, "complete output");
    assert_eq!(executor.status(id), Some(RunStatus::Cancelled));
    let page = executor.poll(id, 0, 100).unwrap();
    assert_eq!(
        log(&page.events),
        vec![
            (1, RunEventType::Reasoning, "cycle 1".to_string()),
            (2, RunEventType::ToolDispatch, "slow_scan".to_string()),
            (3, RunEventType::Observation, "complete output".to_string()),
            (4, RunEventType::Terminated, "".to_string()),
        ]
    );
}

#[test]
fn cancel_while_pending_keeps_the_loop_from_starting() {
    let mut executor = BackgroundExecutor::new();
    let id = executor.submit("t".to_string());
    assert!(executor.cancel(id));
    let agent = executor.start_loop(id, "t".to_string(), 5);
    assert_eq!(agent.phase(), LoopPhase::Cancelled);
    assert_eq!(executor.status(id), Some(RunStatus::Cancelled));
    let page = executor.poll(id, 0, 100).unwrap();
    assert_eq!(log(&page.events), vec![(1, RunEventType::Terminated, "".to_string())]);
}

#[test]
fn cancel_while_the_model_thinks_takes_effect_after_the_tool() {
    let mut executor = BackgroundExecutor::new();
    let id = executor.submit("t".to_string());
    let agent = executor.start_loop(id, "t".to_string(), 5);
    assert!(executor.cancel(id));
    let agent = executor.after_model(id, agent, action("scan"));
    assert_eq!(agent.phase(), LoopPhase::Dispatching);
    let agent = executor.after_tool(id, agent, Observation::new("out".to_string()));
    assert_eq!(agent.phase(), LoopPhase::Cancelled);
    assert_eq!(executor.status(id), Some(RunStatus::Cancelled));
}

#[test]
fn out_of_turn_answers_record_nothing() {
    let mut executor = BackgroundExecutor::new();
    let id = executor.submit("t".to_string());
    let agent = executor.start_loop(id, "t".to_string(), 5);
    let agent = executor.after_tool(id, agent, Observation::new("nobody asked".to_string()));
    assert_eq!(agent.phase(), LoopPhase::Reasoning);
    let agent = executor.after_model(id, agent, answer("a"));
    let agent = executor.after_model(id, agent, answer("b"));
    assert_eq!(agent.content(), "a");
    let page = executor.poll(id, 0, 100).unwrap();
    assert_eq!(page.events.len(), 2);
    assert_eq!(page.events[1].payload, "a");
}

#[test]
fn unknown_run_id_leaves_the_loop_unsupervised() {
    let mut executor = BackgroundExecutor::new();
    let agent = executor.start_loop(9, "t".to_string(), 2);
    assert_eq!(agent.phase(), LoopPhase::Reasoning);
    let agent = executor.after_model(9, agent, action("scan"));
    let agent = executor.after_tool(9, agent, Observation::new("x".to_string()));
    let agent = executor.after_model(9, agent, answer("done"));
    assert_eq!(agent.phase(), LoopPhase::Succeeded);
    assert_eq!(executor.len(), 0);
}

#[test]
fn runs_do_not_disturb_each_other() {
    let mut executor = BackgroundExecutor::new();
    let a = executor.submit("a".to_string());
    let b = executor.submit("b".to_string());
    let agent_a = executor.start_loop(a, "a".to_string(), 3);
    let agent_b = executor.start_loop(b, "b".to_string(), 3);
    let agent_a = executor.after_model(a, agent_a, action("scan"));
    assert!(executor.cancel(a));
    let agent_b = executor.after_model(b, agent_b, answer("fine"));
    let agent_a = executor.after_tool(a, agent_a, Observation::new("out".to_string()));
    assert_eq!(agent_a.phase(), LoopPhase::Cancelled);
    assert_eq!(agent_b.phase(), LoopPhase::Succeeded);
    assert_eq!(executor.status(a), Some(RunStatus::Cancelled));
    assert_eq!(executor.status(b), Some(RunStatus::Succeeded));
    assert_eq!(executor.poll(b, 0, 10).unwrap().events.len(), 2);
    assert_eq!(executor.poll(a, 0, 10).unwrap().events.len(), 4);
}
