use spai::error::Error;
use spai::react::{LoopAction, LoopPhase, ModelReply, Observation, ReActLoop, ToolCall};
use spai::tools::ToolOutput;

fn call(id: &str, args: &[&str]) -> ToolCall {
    ToolCall { tool_id: id.to_string(), args: args.iter().map(|a| a.to_string()).collect() }
}

fn action(thought: &str, id: &str) -> ModelReply {
    ModelReply::Action { thought: thought.to_string(), call: call(id, &["-v"]) }
}

fn answer(thought: &str, text: &str) -> ModelReply {
    ModelReply::FinalAnswer { thought: thought.to_string(), answer: text.to_string() }
}

#[test]
fn loop_starts_by_asking_the_model() {
    let lp = ReActLoop::start("scan the host".to_string(), 3, false);
    assert_eq!(lp.phase(), LoopPhase::Reasoning);
    assert!(matches!(lp.awaiting(), LoopAction::AskModel));
    assert_eq!(lp.task(), "scan the host");
    assert_eq!(lp.max_cycles(), 3);
    assert_eq!(lp.cycles(), 1);
    assert!(lp.trace().is_empty());
    assert_eq!(lp.content(), "");
    assert!(!lp.is_finished());
}

#[test]
fn final_answer_ends_in_success() {
    let lp = ReActLoop::start("t".to_string(), 3, false).on_model_reply(answer("done", "42"));
    assert_eq!(lp.phase(), LoopPhase::Succeeded);
    assert!(lp.is_finished());
    assert!(matches!(lp.awaiting(), LoopAction::Finish));
    assert_eq!(lp.content(), "42");
    assert_eq!(lp.trace().len(), 1);
    assert_eq!(lp.trace()[0].thought, "done");
    assert!(lp.trace()[0].action.is_none());
    assert!(lp.trace()[0].observation.is_none());
}

#[test]
fn tool_call_is_dispatched_observed_and_followed_by_reasoning() {
    let lp = ReActLoop::start("t".to_string(), 3, false).on_model_reply(action("look", "portlist"));
    assert_eq!(lp.phase(), LoopPhase::Dispatching);
    match lp.awaiting() {
        LoopAction::Dispatch(c) => {
            assert_eq!(c.tool_id, "portlist");
            assert_eq!(c.args, vec!["-v"]);
        }
        other => panic!("unexpected action: {:?}", other),
    }
    assert!(lp.trace().is_empty());
    let lp = lp.on_tool_result(Observation::new("22/tcp".to_string()), false);
    assert_eq!(lp.phase(), LoopPhase::Reasoning);
    assert!(matches!(lp.awaiting(), LoopAction::AskModel));
    assert_eq!(lp.cycles(), 2);
    assert_eq!(lp.trace().len(), 1);
    let step = &lp.trace()[0];
    assert_eq!(step.thought, "look");
    assert_eq!(step.action.as_ref().unwrap().tool_id, "portlist");
    assert_eq!(step.observation.as_ref().unwrap().content, "22/tcp");
    assert!(step.observation.as_ref().unwrap().success);
    let lp = lp.on_model_reply(answer("enough", "ssh is open"));
    assert_eq!(lp.phase(), LoopPhase::Succeeded);
    assert_eq!(lp.content(), "ssh is open");
    assert_eq!(lp.trace().len(), 2);
}

#[test]
fn budget_of_one_without_final_answer_fails_before_any_dispatch() {
    let lp = ReActLoop::start("task".to_string(), 1, false);
    assert!(matches!(lp.awaiting(), LoopAction::AskModel));
    let lp = lp.on_model_reply(action("I should list the tools", "list_security_tools"));
    assert_eq!(lp.phase(), LoopPhase::Failed);
    assert!(matches!(lp.awaiting(), LoopAction::Finish));
    assert_eq!(lp.trace().len(), 1);
    assert_eq!(lp.trace()[0].thought, "I should list the tools");
    assert!(lp.trace()[0].action.is_none());
    assert!(lp.trace()[0].observation.is_none());
    assert_eq!(lp.content(), "Maximum number of cycles reached without a final answer");
}

#[test]
fn budget_is_exhausted_after_max_cycles_reasoning_steps() {
    let mut lp = ReActLoop::start("t".to_string(), 3, false);
    let mut asked = 0;
    let mut dispatched = 0;
    loop {
        match lp.awaiting() {
            LoopAction::AskModel => {
                asked += 1;
                lp = lp.on_model_reply(action("again", "scan"));
            }
            LoopAction::Dispatch(_) => {
                dispatched += 1;
                lp = lp.on_tool_result(Observation::new("out".to_string()), false);
            }
            LoopAction::Finish => break,
        }
    }
    assert_eq!(asked, 3);
    assert_eq!(dispatched, 2);
    assert_eq!(lp.phase(), LoopPhase::Failed);
    assert_eq!(lp.cycles(), 3);
    assert_eq!(lp.trace().len(), 3);
    assert!(lp.trace()[0].observation.is_some());
    assert!(lp.trace()[1].observation.is_some());
    assert!(lp.trace()[2].action.is_none());
}

#[test]
fn budget_of_zero_fails_at_once() {
    let lp = ReActLoop::start("t".to_string(), 0, false);
    assert_eq!(lp.phase(), LoopPhase::Failed);
    assert!(matches!(lp.awaiting(), LoopAction::Finish));
    assert!(lp.trace().is_empty());
    assert_eq!(lp.cycles(), 0);
}

#[test]
fn model_failure_is_terminal() {
    let lp = ReActLoop::start("t".to_string(), 5, false)
        .on_model_reply(action("first", "scan"))
        .on_tool_result(Observation::new("x".to_string()), false)
        .on_model_reply(ModelReply::Failed("connection reset".to_string()));
    assert_eq!(lp.phase(), LoopPhase::Failed);
    assert_eq!(lp.content(), "connection reset");
    assert_eq!(lp.trace().len(), 1);
    assert!(matches!(lp.awaiting(), LoopAction::Finish));
}

#[test]
fn failed_tool_is_an_observation_not_the_end() {
    let failed = ToolOutput::failure_with_content(
        "partial".to_string(),
        "Tool exited with status: exit status: 1".to_string(),
    );
    let lp = ReActLoop::start("t".to_string(), 5, false)
        .on_model_reply(action("try", "scan"))
        .on_tool_result(Observation::from_output(&failed), false);
    assert_eq!(lp.phase(), LoopPhase::Reasoning);
    let seen = lp.trace()[0].observation.as_ref().unwrap();
    assert!(!seen.success);
    assert_eq!(seen.content, "partial\nTool exited with status: exit status: 1");
}

#[test]
fn observations_carry_refusals_and_errors_as_text() {
    let refused = ToolOutput::failure("Tool 'x' is not available".to_string());
    let seen = Observation::from_output(&refused);
    assert!(!seen.success);
    assert_eq!(seen.content, "Tool 'x' is not available");
    let ok = Observation::from_output(&ToolOutput::success("fine".to_string()));
    assert!(ok.success);
    assert_eq!(ok.content, "fine");
    let missing = Observation::from_error(&Error::InvalidInput("Missing 'tool_id' parameter".to_string()));
    assert!(!missing.success);
    assert_eq!(missing.content, "Missing 'tool_id' parameter");
    let not_found = Observation::from_error(&Error::tool_execution("x", "Tool 'x' not found".to_string()));
    assert_eq!(not_found.content, "Tool 'x' not found");
}

#[test]
fn cancel_while_a_tool_runs_keeps_its_result_and_stops_before_reasoning() {
    let lp = ReActLoop::start("t".to_string(), 5, false).on_model_reply(action("go", "scan"));
    assert_eq!(lp.phase(), LoopPhase::Dispatching);
    let lp = lp.on_tool_result(Observation::new("full output of the tool".to_string()), true);
    assert_eq!(lp.phase(), LoopPhase::Cancelled);
    assert!(matches!(lp.awaiting(), LoopAction::Finish));
    assert_eq!(lp.cycles(), 1);
    assert_eq!(lp.trace().len(), 1);
    assert_eq!(
        lp.trace()[0].observation.as_ref().unwrap().content,
        "full output of the tool"
    );
}

#[test]
fn cancelled_before_the_start_never_asks_the_model() {
    let lp = ReActLoop::start("t".to_string(), 5, true);
    assert_eq!(lp.phase(), LoopPhase::Cancelled);
    assert!(matches!(lp.awaiting(), LoopAction::Finish));
    assert!(lp.trace().is_empty());
}

#[test]
fn ended_loop_ignores_what_comes_later() {
    let lp = ReActLoop::start("t".to_string(), 2, false).on_model_reply(answer("a", "b"));
    let lp = lp.on_model_reply(action("late", "scan"));
    assert_eq!(lp.phase(), LoopPhase::Succeeded);
    let lp = lp.on_tool_result(Observation::new("late".to_string()), false);
    assert_eq!(lp.phase(), LoopPhase::Succeeded);
    assert_eq!(lp.trace().len(), 1);
    assert_eq!(lp.content(), "b");
}

#[test]
fn events_out_of_turn_change_nothing() {
    let lp = ReActLoop::start("t".to_string(), 3, false)
        .on_tool_result(Observation::new("nobody asked".to_string()), false);
    assert_eq!(lp.phase(), LoopPhase::Reasoning);
    assert_eq!(lp.cycles(), 1);
    assert!(lp.trace().is_empty());
    let lp = lp.on_model_reply(action("go", "scan")).on_model_reply(answer("too early", "x"));
    assert_eq!(lp.phase(), LoopPhase::Dispatching);
    assert!(lp.trace().is_empty());
}
