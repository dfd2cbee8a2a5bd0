use spai::handoffs::HandoffContext;
use spai::react::{ModelReply, Observation, ReActLoop};

fn contents(context: &HandoffContext) -> Vec<String> {
    context.observations().iter().map(|o| o.content.clone()).collect()
}

#[test]
fn new_context_holds_the_task_and_no_entries() {
    let context = HandoffContext::new("Comprehensive security assessment");
    assert_eq!(context.task(), "Comprehensive security assessment");
    assert_eq!(context.len(), 0);
    assert!(context.is_empty());
    assert_eq!(context.context_text(None), "");
    assert_eq!(context.context_text(Some(10)), "");
}

#[test]
fn with_observation_appends() {
    let context = HandoffContext::new("t")
        .with_observation(Observation::new("[collector] 4 tool executions".to_string()))
        .with_observation(Observation::new("[network] ssh open".to_string()));
    assert_eq!(context.len(), 2);
    assert_eq!(contents(&context), vec!["[collector] 4 tool executions", "[network] ssh open"]);
    assert_eq!(context.task(), "t");
}

#[test]
fn append_labels_the_summary() {
    let mut context = HandoffContext::new("t");
    context.append("collector", "raw data");
    context.append("analyst", "two findings");
    assert_eq!(contents(&context), vec!["[collector] raw data", "[analyst] two findings"]);
    assert!(context.observations().iter().all(|o| o.success));
}

#[test]
fn failure_of_a_stage_is_recorded_and_the_log_goes_on() {
    let mut context = HandoffContext::new("t");
    context.append("collector", "raw data");
    context.record_failure("network", "model unreachable");
    context.append("coordinator", "partial report");
    assert_eq!(
        contents(&context),
        vec![
            "[collector] raw data",
            "stage network failed: model unreachable",
            "[coordinator] partial report"
        ]
    );
    assert!(!context.observations()[1].success);
    assert!(context.observations()[2].success);
}

#[test]
fn context_text_joins_the_entries() {
    let mut context = HandoffContext::new("t");
    context.append("a", "one");
    context.append("b", "two");
    assert_eq!(context.context_text(None), "[a] one\n[b] two");
    assert_eq!(context.context_text(Some(100)), "[a] one\n[b] two");
    assert_eq!(context.context_text(Some(15)), "[a] one\n[b] two");
}

#[test]
fn context_text_is_cut_to_the_budget() {
    let mut context = HandoffContext::new("t");
    context.append("a", "one");
    context.append("b", "two");
    assert_eq!(context.context_text(Some(14)), "[a] one\n[b] tw");
    assert_eq!(context.context_text(Some(7)), "[a] one");
    assert_eq!(context.context_text(Some(0)), "");
    assert_eq!(context.len(), 2);
}

#[test]
fn budget_counts_characters_not_bytes() {
    let mut context = HandoffContext::new("t");
    context.append("é", "ünï");
    assert_eq!(context.context_text(Some(5)), "[é] ü");
}

#[test]
fn outcome_of_a_stage_is_recorded_from_its_loop() {
    let mut context = HandoffContext::new("t");
    let done = ReActLoop::start("collect".to_string(), 2, false).on_model_reply(
        ModelReply::FinalAnswer { thought: "ok".to_string(), answer: "3 findings".to_string() },
    );
    context.record_stage("collector", &done);
    let lost = ReActLoop::start("analyse".to_string(), 2, false)
        .on_model_reply(ModelReply::Failed("timeout".to_string()));
    context.record_stage("network", &lost);
    let spent = ReActLoop::start("x".to_string(), 0, false);
    context.record_stage("process", &spent);
    assert_eq!(
        contents(&context),
        vec![
            "[collector] 3 findings",
            "stage network failed: timeout",
            "stage process failed: Maximum number of cycles reached without a final answer"
        ]
    );
    assert!(context.observations()[0].success);
    assert!(!context.observations()[1].success);
}
