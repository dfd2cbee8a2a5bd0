//! Supervised loops: what a run records of the loop that it tracks.
//!
//! Every meaningful step of a supervised loop becomes an event of its run:
//! each reasoning step, each tool dispatch, each result of a tool, and the
//! end. The status of the run follows the loop: it is running from the first
//! step on and ends as the loop ends. Cancellation is read from the run at
//! the one place where a loop looks at it, after a tool has finished and
//! before the model is asked again.

use vstd::prelude::*;
use vstd::string::*;
use crate::background::{
    is_terminal, BackgroundExecutor, RunEventType, RunEventView, RunId, RunStatus, RunView,
};
use crate::react::{
    after_reply, after_tool_result, started, LoopPhase, LoopView, ModelReply, ModelReplyView,
    Observation, ObservationView, ReActLoop,
};
use crate::text::{decimal, decimal_string};

verus! {

/// The run with one more event at the end of its log.
pub open spec fn noted(run: RunView, kind: RunEventType, payload: Seq<char>) -> RunView {
    RunView {
        events: run.events.push(RunEventView { seq: run.events.len() + 1, kind, payload }),
        ..run
    }
}

/// The run once it has begun: a pending run is running, any other run is
/// as it was.
pub open spec fn begun(run: RunView) -> RunView {
    if run.status == RunStatus::Pending {
        RunView { status: RunStatus::Running, ..run }
    } else {
        run
    }
}

/// The run once its loop has ended: a running run has succeeded or failed,
/// any other run is as it was. A cancelled run stays cancelled.
pub open spec fn ended(run: RunView, succeeded: bool) -> RunView {
    if run.status == RunStatus::Running {
        RunView {
            status: if succeeded {
                RunStatus::Succeeded
            } else {
                RunStatus::Failed
            },
            ..run
        }
    } else {
        run
    }
}

/// The payload of the event that announces a reasoning step.
pub open spec fn cycle_label(cycle: nat) -> Seq<char> {
    "cycle "@ + decimal(cycle)
}

/// The run after it has taken note of the state that its loop reached: a
/// reasoning step or a dispatch is recorded, and the end of the loop is
/// recorded and ends the run.
pub open spec fn following(run: RunView, agent: LoopView) -> RunView {
    match agent.phase {
        LoopPhase::Reasoning => noted(run, RunEventType::Reasoning, cycle_label(agent.cycles)),
        LoopPhase::Dispatching => match agent.pending {
            Some((thought, call)) => noted(run, RunEventType::ToolDispatch, call.tool_id),
            None => run,
        },
        _ => ended(
            noted(run, RunEventType::Terminated, agent.content),
            agent.phase == LoopPhase::Succeeded,
        ),
    }
}

/// Whether the run of this id is cancelled.
pub open spec fn cancelled_in(runs: Seq<RunView>, run_id: RunId) -> bool {
    run_id < runs.len() && runs[run_id as int].status == RunStatus::Cancelled
}

/// The runs after the run of this id changed; no run changes under an id
/// that was never given out.
pub open spec fn with_run(runs: Seq<RunView>, run_id: RunId, run: RunView) -> Seq<RunView> {
    if run_id < runs.len() {
        runs.update(run_id as int, run)
    } else {
        runs
    }
}

/// The run of this id, for an id that was given out.
pub open spec fn run_of(runs: Seq<RunView>, run_id: RunId) -> RunView {
    runs[run_id as int]
}

/// The runs after the loop of a run was started.
pub open spec fn runs_after_start(runs: Seq<RunView>, run_id: RunId, agent: LoopView) -> Seq<
    RunView,
> {
    with_run(runs, run_id, following(begun(run_of(runs, run_id)), agent))
}

/// The runs after the loop of a run took the model's answer. A loop that
/// was not reasoning took nothing, and nothing is recorded for it.
pub open spec fn runs_after_reply(
    runs: Seq<RunView>,
    run_id: RunId,
    before: LoopView,
    agent: LoopView,
) -> Seq<RunView> {
    if before.phase != LoopPhase::Reasoning {
        runs
    } else {
        with_run(runs, run_id, following(run_of(runs, run_id), agent))
    }
}

/// The runs after the loop of a run took the result of its tool: the
/// result is recorded first, then what the loop does next. A loop without
/// a running tool took nothing, and nothing is recorded for it.
pub open spec fn runs_after_tool(
    runs: Seq<RunView>,
    run_id: RunId,
    before: LoopView,
    seen: ObservationView,
    agent: LoopView,
) -> Seq<RunView> {
    if before.phase != LoopPhase::Dispatching {
        runs
    } else {
        with_run(
            runs,
            run_id,
            following(noted(run_of(runs, run_id), RunEventType::Observation, seen.content), agent),
        )
    }
}

impl BackgroundExecutor {
    /// Takes note of the state that the loop of a run has reached.
    fn follow(&mut self, run_id: RunId, agent: &ReActLoop)
        requires
            run_id < old(self)@.len(),
        ensures
            final(self)@ == old(self)@.update(
                run_id as int,
                following(old(self)@[run_id as int], agent@),
            ),
    {
        let ghost before = self@;
        match agent.phase() {
            LoopPhase::Reasoning => {
                let cycle: u64 = agent.cycles() as u64;
                let payload = String::from_str("cycle ").concat(decimal_string(cycle).as_str());
                self.record(run_id, RunEventType::Reasoning, payload);
            },
            LoopPhase::Dispatching => {
                match agent.awaiting() {
                    crate::react::LoopAction::Dispatch(call) => {
                        self.record(run_id, RunEventType::ToolDispatch, call.tool_id);
                    },
                    _ => {
                        proof {
                            assert(before.update(run_id as int, before[run_id as int]) =~= before);
                        }
                    },
                }
            },
            _ => {
                self.record(run_id, RunEventType::Terminated, String::from_str(agent.content()));
                let ghost noted_runs = self@;
                let succeeded = agent.phase() == LoopPhase::Succeeded;
                let changed = self.complete(run_id, succeeded);
                proof {
                    if !changed {
                        assert(noted_runs.update(run_id as int, noted_runs[run_id as int])
                            =~= noted_runs);
                    }
                    assert(self@ =~= before.update(
                        run_id as int,
                        following(before[run_id as int], agent@),
                    ));
                }
            },
        }
    }

    /// Starts the loop of a run. The run begins, unless it was cancelled
    /// while it was pending; the first reasoning step is recorded, or the
    /// end of a loop that could not begin. Under an id that was never given
    /// out the loop starts unsupervised.
    pub fn start_loop(&mut self, run_id: RunId, task: String, max_cycles: usize) -> (res: ReActLoop)
        ensures
            res@ == started(task@, max_cycles as nat, cancelled_in(old(self)@, run_id)),
            final(self)@ == runs_after_start(old(self)@, run_id, res@),
    {
        let cancelled = self.is_cancelled(run_id);
        let agent = ReActLoop::start(task, max_cycles, cancelled);
        if run_id < self.len() as u64 {
            let ghost before = self@;
            let changed = self.start(run_id);
            proof {
                if !changed {
                    assert(before.update(run_id as int, before[run_id as int]) =~= before);
                }
                assert(self@ =~= before.update(run_id as int, begun(before[run_id as int])));
            }
            self.follow(run_id, &agent);
            proof {
                assert(self@ =~= runs_after_start(before, run_id, agent@));
            }
        }
        agent
    }

    /// Hands the model's answer to the loop of a run and records what the
    /// loop does next: a tool dispatch, or its end.
    pub fn after_model(&mut self, run_id: RunId, agent: ReActLoop, reply: ModelReply) -> (res:
        ReActLoop)
        ensures
            res@ == after_reply(agent@, reply@),
            final(self)@ == runs_after_reply(old(self)@, run_id, agent@, res@),
    {
        let took = agent.phase() == LoopPhase::Reasoning;
        let next = agent.on_model_reply(reply);
        if took && run_id < self.len() as u64 {
            self.follow(run_id, &next);
        }
        next
    }

    /// Hands the result of the running tool to the loop of a run. The
    /// result is recorded in full whatever the status of the run is. Then
    /// the run is asked whether it was cancelled: if so the loop ends
    /// before its next reasoning step, and otherwise that step is recorded.
    pub fn after_tool(&mut self, run_id: RunId, agent: ReActLoop, seen: Observation) -> (res:
        ReActLoop)
        ensures
            res@ == after_tool_result(agent@, seen@, cancelled_in(old(self)@, run_id)),
            final(self)@ == runs_after_tool(old(self)@, run_id, agent@, seen@, res@),
    {
        let took = agent.phase() == LoopPhase::Dispatching;
        let cancelled = self.is_cancelled(run_id);
        let supervised = run_id < self.len() as u64;
        if took && supervised {
            self.record(run_id, RunEventType::Observation, seen.content.clone());
        }
        let next = agent.on_tool_result(seen, cancelled);
        if took && supervised {
            self.follow(run_id, &next);
        }
        next
    }
}

/// Taking note of a loop only adds to the log of the run and moves its
/// status forward: the events that were there stay, and a run that was
/// over, or cancelled, keeps its status.
pub proof fn lemma_following_extends(run: RunView, agent: LoopView)
    ensures
        run.events.is_prefix_of(following(run, agent).events),
        is_terminal(run.status) ==> following(run, agent).status == run.status,
        following(run, agent).task == run.task,
{
    let after = following(run, agent);
    assert(after.events.subrange(0, run.events.len() as int) =~= run.events);
}

/// Cancelling a run stops its loop at the next boundary and loses nothing:
/// when the tool of a cancelled run finishes, its result is recorded as an
/// event and in the trace, the loop ends cancelled without another
/// reasoning step, and the run stays cancelled.
pub proof fn lemma_cancelled_run_finishes_its_tool(
    runs: Seq<RunView>,
    run_id: RunId,
    agent: LoopView,
    seen: ObservationView,
)
    requires
        crate::react::loop_inv(agent),
        agent.phase == LoopPhase::Dispatching,
        cancelled_in(runs, run_id),
    ensures
        ({
            let next = after_tool_result(agent, seen, cancelled_in(runs, run_id));
            let run = runs[run_id as int];
            let after = runs_after_tool(runs, run_id, agent, seen, next)[run_id as int];
            &&& next.phase == LoopPhase::Cancelled
            &&& next.cycles == agent.cycles
            &&& next.trace.last().observation == Some(seen)
            &&& after.status == RunStatus::Cancelled
            &&& after.events.len() == run.events.len() + 2
            &&& after.events[run.events.len() as int].kind == RunEventType::Observation
            &&& after.events[run.events.len() as int].payload == seen.content
            &&& after.events.last().kind == RunEventType::Terminated
            &&& run.events.is_prefix_of(after.events)
        }),
{
    let next = after_tool_result(agent, seen, true);
    let run = runs[run_id as int];
    let after = runs_after_tool(runs, run_id, agent, seen, next)[run_id as int];
    assert(after.events.subrange(0, run.events.len() as int) =~= run.events);
}

/// The status of a run follows its loop: when a loop that was reasoning
/// ends on the model's answer, a running run ends with it, in success
/// exactly when the loop succeeded.
pub proof fn lemma_run_ends_with_its_loop(
    runs: Seq<RunView>,
    run_id: RunId,
    agent: LoopView,
    reply: ModelReplyView,
)
    requires
        run_id < runs.len(),
        runs[run_id as int].status == RunStatus::Running,
        agent.phase == LoopPhase::Reasoning,
        crate::react::is_terminal(after_reply(agent, reply).phase),
    ensures
        ({
            let next = after_reply(agent, reply);
            let after = runs_after_reply(runs, run_id, agent, next)[run_id as int];
            &&& after.status == if next.phase == LoopPhase::Succeeded {
                RunStatus::Succeeded
            } else {
                RunStatus::Failed
            }
            &&& after.events.last().kind == RunEventType::Terminated
            &&& after.events.last().payload == next.content
        }),
{
}

} // verus!
