//! The think-act-observe loop of one agent, as a state machine.
//!
//! The loop itself never waits: the host asks the model and runs the tools,
//! and hands each answer to the loop, which decides what comes next. The
//! model call is the only point at which a loop is suspended; a tool that
//! fails is no failure of the loop but an observation the model can react
//! to. Cancellation is cooperative: it is looked at between cycles only, so
//! a tool that was started is always allowed to finish and be recorded.

use vstd::prelude::*;
use vstd::string::*;
use crate::error::Error;
use crate::text::{copy_texts, opt_text, texts};
use crate::tools::{ToolOutput, ToolOutputView};

verus! {

/// A tool call that the model selected.
#[derive(Debug)]
pub struct ToolCall {
    /// The id of the tool.
    pub tool_id: String,
    /// The arguments, passed on as they are.
    pub args: Vec<String>,
}

/// The mathematical value of a [`ToolCall`].
pub ghost struct ToolCallView {
    pub tool_id: Seq<char>,
    pub args: Seq<Seq<char>>,
}

impl View for ToolCall {
    type V = ToolCallView;

    open spec fn view(&self) -> ToolCallView {
        ToolCallView { tool_id: self.tool_id@, args: texts(self.args@) }
    }
}

impl Clone for ToolCall {
    fn clone(&self) -> (res: ToolCall)
        ensures
            res@ == self@,
    {
        ToolCall { tool_id: self.tool_id.clone(), args: copy_texts(&self.args) }
    }
}

/// What the loop saw of one tool execution: its content and whether it
/// succeeded.
#[derive(Debug)]
pub struct Observation {
    /// What the model is shown.
    pub content: String,
    /// Whether the execution succeeded.
    pub success: bool,
}

/// The mathematical value of an [`Observation`].
pub ghost struct ObservationView {
    pub content: Seq<char>,
    pub success: bool,
}

impl View for Observation {
    type V = ObservationView;

    open spec fn view(&self) -> ObservationView {
        ObservationView { content: self.content@, success: self.success }
    }
}

/// What the model is shown of a tool output: the content, followed by the
/// error message when there is one, so that a refusal or a failure reaches
/// the model as text.
pub open spec fn observed_content(output: ToolOutputView) -> Seq<char> {
    match output.error {
        None => output.content,
        Some(message) => if output.content.len() == 0 {
            message
        } else {
            output.content + "\n"@ + message
        },
    }
}

/// The message that an error carries.
pub open spec fn error_message(e: crate::error::ErrorView) -> Seq<char> {
    match e {
        crate::error::ErrorView::ToolExecution { tool_id, message } => message,
        crate::error::ErrorView::InvalidInput(message) => message,
    }
}

impl Observation {
    /// A successful observation with the given content.
    pub fn new(content: String) -> (res: Observation)
        ensures
            res@ == (ObservationView { content: content@, success: true }),
    {
        Observation { content, success: true }
    }

    /// The observation of a tool output. Its success flag is the output's.
    pub fn from_output(output: &ToolOutput) -> (res: Observation)
        ensures
            res@ == (ObservationView {
                content: observed_content(output@),
                success: output.success,
            }),
    {
        let content = match &output.error {
            None => output.content.clone(),
            Some(message) => if output.content.as_str().is_empty() {
                message.clone()
            } else {
                output.content.clone().concat("\n").concat(message.as_str())
            },
        };
        Observation { content, success: output.success }
    }

    /// The observation of a dispatch that raised an error: a failure whose
    /// content is the message of the error.
    pub fn from_error(error: &Error) -> (res: Observation)
        ensures
            res@ == (ObservationView { content: error_message(error@), success: false }),
    {
        let content = match error {
            Error::ToolExecution { tool_id, message } => message.clone(),
            Error::InvalidInput(message) => message.clone(),
        };
        Observation { content, success: false }
    }
}

/// One step of a trace: a thought, the action it led to, if any, and what
/// was observed of the action.
#[derive(Debug)]
pub struct ReActStep {
    pub thought: String,
    pub action: Option<ToolCall>,
    pub observation: Option<Observation>,
}

/// The mathematical value of a [`ReActStep`].
pub ghost struct ReActStepView {
    pub thought: Seq<char>,
    pub action: Option<ToolCallView>,
    pub observation: Option<ObservationView>,
}

impl View for ReActStep {
    type V = ReActStepView;

    open spec fn view(&self) -> ReActStepView {
        ReActStepView {
            thought: self.thought@,
            action: match self.action {
                Some(call) => Some(call@),
                None => None,
            },
            observation: match self.observation {
                Some(seen) => Some(seen@),
                None => None,
            },
        }
    }
}

/// The views of the steps of a trace.
pub open spec fn step_views(steps: Seq<ReActStep>) -> Seq<ReActStepView> {
    steps.map_values(|s: ReActStep| s@)
}

/// What the model answered when it was asked.
#[derive(Debug)]
pub enum ModelReply {
    /// The model gave its final answer.
    FinalAnswer { thought: String, answer: String },
    /// The model selected a tool call.
    Action { thought: String, call: ToolCall },
    /// The model could not be reached; the text is the transport error.
    Failed(String),
}

/// The mathematical value of a [`ModelReply`].
pub ghost enum ModelReplyView {
    FinalAnswer { thought: Seq<char>, answer: Seq<char> },
    Action { thought: Seq<char>, call: ToolCallView },
    Failed(Seq<char>),
}

impl View for ModelReply {
    type V = ModelReplyView;

    open spec fn view(&self) -> ModelReplyView {
        match *self {
            ModelReply::FinalAnswer { thought, answer } => ModelReplyView::FinalAnswer {
                thought: thought@,
                answer: answer@,
            },
            ModelReply::Action { thought, call } => ModelReplyView::Action {
                thought: thought@,
                call: call@,
            },
            ModelReply::Failed(reason) => ModelReplyView::Failed(reason@),
        }
    }
}

/// Where a loop stands.
#[derive(Clone, Copy, Debug, PartialEq, Eq, Structural)]
pub enum LoopPhase {
    /// The model has been asked, or is about to be.
    Reasoning,
    /// A tool call has been handed out and its result is awaited.
    Dispatching,
    /// The model gave its final answer.
    Succeeded,
    /// The cycle budget ran out, or the model could not be reached.
    Failed,
    /// The run was cancelled between two cycles.
    Cancelled,
}

/// What the host has to do for a loop.
#[derive(Debug)]
pub enum LoopAction {
    /// Ask the model, with the task and the trace so far.
    AskModel,
    /// Run this tool call through the capability view.
    Dispatch(ToolCall),
    /// Nothing more: the loop has ended.
    Finish,
}

/// The mathematical value of a [`LoopAction`].
pub ghost enum LoopActionView {
    AskModel,
    Dispatch(ToolCallView),
    Finish,
}

impl View for LoopAction {
    type V = LoopActionView;

    open spec fn view(&self) -> LoopActionView {
        match *self {
            LoopAction::AskModel => LoopActionView::AskModel,
            LoopAction::Dispatch(call) => LoopActionView::Dispatch(call@),
            LoopAction::Finish => LoopActionView::Finish,
        }
    }
}

/// The thought and the tool call of the cycle whose tool is running.
#[derive(Debug)]
pub struct PendingAction {
    thought: String,
    call: ToolCall,
}

/// The mathematical value of a loop.
pub ghost struct LoopView {
    /// The task.
    pub task: Seq<char>,
    /// The cycle budget.
    pub max_cycles: nat,
    /// The number of reasoning steps started so far.
    pub cycles: nat,
    /// Where the loop stands.
    pub phase: LoopPhase,
    /// The steps taken so far.
    pub trace: Seq<ReActStepView>,
    /// The thought and the call of the running tool, while one is running.
    pub pending: Option<(Seq<char>, ToolCallView)>,
    /// The final answer, or why the loop failed.
    pub content: Seq<char>,
}

/// The phase is one in which the loop has ended.
pub open spec fn is_terminal(phase: LoopPhase) -> bool {
    phase == LoopPhase::Succeeded || phase == LoopPhase::Failed || phase == LoopPhase::Cancelled
}

/// A step is complete: it has an action and the observation of it.
pub open spec fn is_complete(step: ReActStepView) -> bool {
    step.action is Some && step.observation is Some
}

/// What holds of every loop: the budget is never exceeded, a pending call
/// exists exactly while a tool is running, and a tool is started only when
/// the budget leaves room for the reasoning step that follows it. While the
/// loop runs, each finished cycle has left one complete step.
pub open spec fn loop_inv(s: LoopView) -> bool {
    &&& s.cycles <= s.max_cycles
    &&& s.trace.len() <= s.cycles
    &&& (s.pending is Some <==> s.phase == LoopPhase::Dispatching)
    &&& (s.phase == LoopPhase::Dispatching ==> s.cycles < s.max_cycles)
    &&& (!is_terminal(s.phase) ==> s.trace.len() + 1 == s.cycles)
    &&& (!is_terminal(s.phase) ==> forall|i: int|
        0 <= i < s.trace.len() ==> is_complete(#[trigger] s.trace[i]))
    &&& forall|i: int| 0 <= i < s.trace.len() - 1 ==> is_complete(#[trigger] s.trace[i])
}

/// The message with which a loop fails when its budget is used up.
pub open spec fn budget_message() -> Seq<char> {
    "Maximum number of cycles reached without a final answer"@
}

/// The loop at its start. A run that is already cancelled does not begin;
/// a budget of zero is used up at once; otherwise the first reasoning step
/// begins.
pub open spec fn started(task: Seq<char>, max_cycles: nat, cancelled: bool) -> LoopView {
    let fresh = LoopView {
        task,
        max_cycles,
        cycles: 0,
        phase: LoopPhase::Reasoning,
        trace: Seq::empty(),
        pending: None,
        content: Seq::empty(),
    };
    if cancelled {
        LoopView { phase: LoopPhase::Cancelled, ..fresh }
    } else if max_cycles == 0 {
        LoopView { phase: LoopPhase::Failed, content: budget_message(), ..fresh }
    } else {
        LoopView { cycles: 1, ..fresh }
    }
}

/// The loop after the model answered. Only a loop that is reasoning takes
/// an answer. A final answer ends the loop in success. A tool call is
/// handed out when the budget leaves room for another reasoning step;
/// otherwise the loop fails with the thought recorded and nothing run. A
/// transport error ends the loop in failure.
pub open spec fn after_reply(s: LoopView, reply: ModelReplyView) -> LoopView {
    if s.phase != LoopPhase::Reasoning {
        s
    } else {
        match reply {
            ModelReplyView::FinalAnswer { thought, answer } => LoopView {
                phase: LoopPhase::Succeeded,
                trace: s.trace.push(ReActStepView { thought, action: None, observation: None }),
                content: answer,
                ..s
            },
            ModelReplyView::Action { thought, call } => if s.cycles < s.max_cycles {
                LoopView { phase: LoopPhase::Dispatching, pending: Some((thought, call)), ..s }
            } else {
                LoopView {
                    phase: LoopPhase::Failed,
                    trace: s.trace.push(ReActStepView { thought, action: None, observation: None }),
                    content: budget_message(),
                    ..s
                }
            },
            ModelReplyView::Failed(reason) => LoopView {
                phase: LoopPhase::Failed,
                content: reason,
                ..s
            },
        }
    }
}

/// The loop after the running tool finished. Only a loop whose tool is
/// running takes a result. The result is always recorded, as the
/// observation of the step that holds the thought and the call. Then the
/// next reasoning step begins, unless the run was cancelled meanwhile.
pub open spec fn after_tool_result(s: LoopView, seen: ObservationView, cancelled: bool) -> LoopView {
    if s.phase != LoopPhase::Dispatching || s.pending is None {
        s
    } else {
        let (thought, call) = s.pending.unwrap();
        let trace = s.trace.push(
            ReActStepView { thought, action: Some(call), observation: Some(seen) },
        );
        if cancelled {
            LoopView { phase: LoopPhase::Cancelled, trace, pending: None, ..s }
        } else {
            LoopView {
                phase: LoopPhase::Reasoning,
                trace,
                pending: None,
                cycles: s.cycles + 1,
                ..s
            }
        }
    }
}

/// What the host has to do for a loop in the given state.
pub open spec fn awaited(s: LoopView) -> LoopActionView {
    match s.phase {
        LoopPhase::Reasoning => LoopActionView::AskModel,
        LoopPhase::Dispatching => match s.pending {
            Some((thought, call)) => LoopActionView::Dispatch(call),
            None => LoopActionView::Finish,
        },
        _ => LoopActionView::Finish,
    }
}

/// One agent's loop: the task, the budget, and everything that happened.
#[derive(Debug)]
pub struct ReActLoop {
    task: String,
    max_cycles: usize,
    cycles: usize,
    phase: LoopPhase,
    trace: Vec<ReActStep>,
    pending: Option<PendingAction>,
    content: String,
}

impl View for ReActLoop {
    type V = LoopView;

    closed spec fn view(&self) -> LoopView {
        LoopView {
            task: self.task@,
            max_cycles: self.max_cycles as nat,
            cycles: self.cycles as nat,
            phase: self.phase,
            trace: step_views(self.trace@),
            pending: match self.pending {
                Some(p) => Some((p.thought@, p.call@)),
                None => None,
            },
            content: self.content@,
        }
    }
}

impl ReActLoop {
    #[verifier::type_invariant]
    spec fn inv(&self) -> bool {
        loop_inv(self@)
    }

    /// Starts a loop on a task with a cycle budget. `cancelled` says
    /// whether the run has been cancelled before it began.
    pub fn start(task: String, max_cycles: usize, cancelled: bool) -> (res: ReActLoop)
        ensures
            res@ == started(task@, max_cycles as nat, cancelled),
            loop_inv(res@),
    {
        let trace: Vec<ReActStep> = Vec::new();
        proof {
            assert(step_views(trace@) =~= Seq::<ReActStepView>::empty());
        }
        if cancelled {
            ReActLoop {
                task,
                max_cycles,
                cycles: 0,
                phase: LoopPhase::Cancelled,
                trace,
                pending: None,
                content: String::new(),
            }
        } else if max_cycles == 0 {
            ReActLoop {
                task,
                max_cycles,
                cycles: 0,
                phase: LoopPhase::Failed,
                trace,
                pending: None,
                content: String::from_str(
                    "Maximum number of cycles reached without a final answer",
                ),
            }
        } else {
            ReActLoop {
                task,
                max_cycles,
                cycles: 1,
                phase: LoopPhase::Reasoning,
                trace,
                pending: None,
                content: String::new(),
            }
        }
    }

    /// Takes the model's answer and decides what comes next.
    pub fn on_model_reply(self, reply: ModelReply) -> (res: ReActLoop)
        ensures
            res@ == after_reply(self@, reply@),
            loop_inv(res@),
    {
        proof {
            use_type_invariant(&self);
        }
        if self.phase != LoopPhase::Reasoning {
            return self;
        }
        let ghost before = self.trace@;
        let mut trace = self.trace;
        match reply {
            ModelReply::FinalAnswer { thought, answer } => {
                let step = ReActStep { thought, action: None, observation: None };
                trace.push(step);
                proof {
                    assert(step_views(before.push(step)) =~= step_views(before).push(step@));
                }
                ReActLoop {
                    task: self.task,
                    max_cycles: self.max_cycles,
                    cycles: self.cycles,
                    phase: LoopPhase::Succeeded,
                    trace,
                    pending: None,
                    content: answer,
                }
            },
            ModelReply::Action { thought, call } => {
                if self.cycles < self.max_cycles {
                    ReActLoop {
                        task: self.task,
                        max_cycles: self.max_cycles,
                        cycles: self.cycles,
                        phase: LoopPhase::Dispatching,
                        trace,
                        pending: Some(PendingAction { thought, call }),
                        content: self.content,
                    }
                } else {
                    let step = ReActStep { thought, action: None, observation: None };
                    trace.push(step);
                    proof {
                        assert(step_views(before.push(step)) =~= step_views(before).push(step@));
                    }
                    ReActLoop {
                        task: self.task,
                        max_cycles: self.max_cycles,
                        cycles: self.cycles,
                        phase: LoopPhase::Failed,
                        trace,
                        pending: None,
                        content: String::from_str(
                            "Maximum number of cycles reached without a final answer",
                        ),
                    }
                }
            },
            ModelReply::Failed(reason) => ReActLoop {
                task: self.task,
                max_cycles: self.max_cycles,
                cycles: self.cycles,
                phase: LoopPhase::Failed,
                trace,
                pending: None,
                content: reason,
            },
        }
    }

    /// Takes the result of the running tool, records it, and decides what
    /// comes next. `cancelled` says whether the run has been cancelled
    /// while the tool ran.
    pub fn on_tool_result(self, seen: Observation, cancelled: bool) -> (res: ReActLoop)
        ensures
            res@ == after_tool_result(self@, seen@, cancelled),
            loop_inv(res@),
    {
        proof {
            use_type_invariant(&self);
        }
        if self.phase != LoopPhase::Dispatching {
            return self;
        }
        let ghost before = self.trace@;
        let mut trace = self.trace;
        match self.pending {
            None => ReActLoop {
                task: self.task,
                max_cycles: self.max_cycles,
                cycles: self.cycles,
                phase: self.phase,
                trace,
                pending: None,
                content: self.content,
            },
            Some(p) => {
                let step = ReActStep {
                    thought: p.thought,
                    action: Some(p.call),
                    observation: Some(seen),
                };
                trace.push(step);
                proof {
                    assert(step_views(before.push(step)) =~= step_views(before).push(step@));
                }
                if cancelled {
                    ReActLoop {
                        task: self.task,
                        max_cycles: self.max_cycles,
                        cycles: self.cycles,
                        phase: LoopPhase::Cancelled,
                        trace,
                        pending: None,
                        content: self.content,
                    }
                } else {
                    ReActLoop {
                        task: self.task,
                        max_cycles: self.max_cycles,
                        cycles: self.cycles + 1,
                        phase: LoopPhase::Reasoning,
                        trace,
                        pending: None,
                        content: self.content,
                    }
                }
            },
        }
    }

    /// What the host has to do for this loop now.
    pub fn awaiting(&self) -> (res: LoopAction)
        ensures
            res@ == awaited(self@),
    {
        match self.phase {
            LoopPhase::Reasoning => LoopAction::AskModel,
            LoopPhase::Dispatching => match &self.pending {
                Some(p) => LoopAction::Dispatch(p.call.clone()),
                None => LoopAction::Finish,
            },
            _ => LoopAction::Finish,
        }
    }

    /// Where the loop stands.
    pub fn phase(&self) -> (res: LoopPhase)
        ensures
            res == self@.phase,
    {
        self.phase
    }

    /// Whether the loop has ended.
    pub fn is_finished(&self) -> (res: bool)
        ensures
            res == is_terminal(self@.phase),
    {
        self.phase == LoopPhase::Succeeded || self.phase == LoopPhase::Failed || self.phase
            == LoopPhase::Cancelled
    }

    /// The task of the loop.
    pub fn task(&self) -> (res: &str)
        ensures
            res@ == self@.task,
    {
        self.task.as_str()
    }

    /// The cycle budget.
    pub fn max_cycles(&self) -> (res: usize)
        ensures
            res == self@.max_cycles,
    {
        self.max_cycles
    }

    /// The number of reasoning steps started so far. It never exceeds the
    /// budget.
    pub fn cycles(&self) -> (res: usize)
        ensures
            res == self@.cycles,
            res <= self@.max_cycles,
    {
        proof {
            use_type_invariant(self);
        }
        self.cycles
    }

    /// The steps taken so far. The trace is kept whether the loop ends in
    /// success or not.
    pub fn trace(&self) -> (res: &Vec<ReActStep>)
        ensures
            step_views(res@) == self@.trace,
    {
        &self.trace
    }

    /// The final answer of a loop that succeeded, the reason of one that
    /// failed, and nothing before that.
    pub fn content(&self) -> (res: &str)
        ensures
            res@ == self@.content,
    {
        self.content.as_str()
    }
}

/// Every transition keeps what holds of every loop.
pub proof fn lemma_transitions_keep_invariant(
    s: LoopView,
    reply: ModelReplyView,
    seen: ObservationView,
    cancelled: bool,
)
    requires
        loop_inv(s),
    ensures
        loop_inv(started(s.task, s.max_cycles, cancelled)),
        loop_inv(after_reply(s, reply)),
        loop_inv(after_tool_result(s, seen, cancelled)),
{
}

/// The trace is append-only: whatever happens to a loop, the steps it had
/// are the first steps it has afterwards.
pub proof fn lemma_trace_only_grows(
    s: LoopView,
    reply: ModelReplyView,
    seen: ObservationView,
    cancelled: bool,
)
    ensures
        s.trace.is_prefix_of(after_reply(s, reply).trace),
        s.trace.is_prefix_of(after_tool_result(s, seen, cancelled).trace),
{
    let a = after_reply(s, reply).trace;
    assert(a.subrange(0, s.trace.len() as int) =~= s.trace);
    let b = after_tool_result(s, seen, cancelled).trace;
    assert(b.subrange(0, s.trace.len() as int) =~= s.trace);
}

/// A loop that has ended stays as it is: nothing moves it, and all the
/// host is asked to do is to finish.
pub proof fn lemma_ended_loop_is_immutable(
    s: LoopView,
    reply: ModelReplyView,
    seen: ObservationView,
    cancelled: bool,
)
    requires
        is_terminal(s.phase),
    ensures
        after_reply(s, reply) == s,
        after_tool_result(s, seen, cancelled) == s,
        awaited(s) == LoopActionView::Finish,
{
}

/// A failure of the model is terminal: the loop ends in failure with the
/// transport error as its content and the trace as it was.
pub proof fn lemma_model_failure_ends_loop(s: LoopView, reason: Seq<char>)
    requires
        s.phase == LoopPhase::Reasoning,
    ensures
        after_reply(s, ModelReplyView::Failed(reason)).phase == LoopPhase::Failed,
        after_reply(s, ModelReplyView::Failed(reason)).content == reason,
        after_reply(s, ModelReplyView::Failed(reason)).trace == s.trace,
{
}

/// A failed tool does not end the loop: its result is recorded like any
/// other and the model is asked again.
pub proof fn lemma_tool_failure_is_observed(s: LoopView, seen: ObservationView)
    requires
        loop_inv(s),
        s.phase == LoopPhase::Dispatching,
        !seen.success,
    ensures
        after_tool_result(s, seen, false).phase == LoopPhase::Reasoning,
        after_tool_result(s, seen, false).trace.last().observation == Some(seen),
        awaited(after_tool_result(s, seen, false)) == LoopActionView::AskModel,
{
}

/// With a budget of one cycle, a model that selects a tool instead of
/// answering ends the loop in failure: the trace holds the one reasoning
/// step, and no tool was dispatched.
pub proof fn lemma_budget_of_one(task: Seq<char>, thought: Seq<char>, call: ToolCallView)
    ensures
        awaited(started(task, 1, false)) == LoopActionView::AskModel,
        ({
            let end = after_reply(started(task, 1, false), ModelReplyView::Action { thought, call });
            &&& end.phase == LoopPhase::Failed
            &&& end.trace == seq![ReActStepView { thought, action: None, observation: None }]
            &&& end.pending is None
            &&& awaited(end) == LoopActionView::Finish
        }),
{
    let end = after_reply(started(task, 1, false), ModelReplyView::Action { thought, call });
    assert(end.trace =~= seq![ReActStepView { thought, action: None, observation: None }]);
}

/// Cancellation between cycles: when the run is cancelled while a tool
/// runs, the result of the tool is still recorded in full, and the next
/// reasoning step does not begin.
pub proof fn lemma_cancel_keeps_result(s: LoopView, seen: ObservationView)
    requires
        loop_inv(s),
        s.phase == LoopPhase::Dispatching,
    ensures
        ({
            let end = after_tool_result(s, seen, true);
            &&& end.phase == LoopPhase::Cancelled
            &&& end.trace.len() == s.trace.len() + 1
            &&& end.trace.last() == (ReActStepView {
                thought: s.pending.unwrap().0,
                action: Some(s.pending.unwrap().1),
                observation: Some(seen),
            })
            &&& end.cycles == s.cycles
            &&& awaited(end) == LoopActionView::Finish
        }),
{
}

/// The model is asked at most as often as the budget allows: a loop that
/// awaits the model has started no more reasoning steps than its budget,
/// and a tool is handed out only when another reasoning step can follow.
pub proof fn lemma_budget_bounds_cycles(s: LoopView)
    requires
        loop_inv(s),
    ensures
        s.cycles <= s.max_cycles,
        awaited(s) is Dispatch ==> s.cycles < s.max_cycles,
        awaited(s) is AskModel ==> 1 <= s.cycles,
{
}

} // verus!
