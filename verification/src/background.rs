//! Durable run tracking: loop executions that a host supervises out of band.
//!
//! A run is an event log with a status. Events carry sequence numbers that
//! count up from one within their run, so a consumer can poll with the last
//! number it saw and receive only what came after it. The status moves
//! forward only, and never out of a terminal state. Cancelling marks intent:
//! events can still be recorded afterwards, so that the result of a tool that
//! was running at that moment is not lost.

use vstd::prelude::*;
use vstd::string::*;

verus! {

/// Identifies a run within its executor.
pub type RunId = u64;

/// The sequence number of an event within its run.
pub type SeqId = u64;

/// The status of a run.
#[derive(Clone, Copy, Debug, PartialEq, Eq, Structural)]
pub enum RunStatus {
    /// Submitted, not yet started.
    Pending,
    /// The loop is being driven.
    Running,
    /// The loop ended with a final answer.
    Succeeded,
    /// The loop ended without one.
    Failed,
    /// The run was cancelled.
    Cancelled,
}

/// What an event records.
#[derive(Clone, Copy, Debug, PartialEq, Eq, Structural)]
pub enum RunEventType {
    /// A reasoning step.
    Reasoning,
    /// A tool was dispatched.
    ToolDispatch,
    /// The result of a tool.
    Observation,
    /// The loop ended.
    Terminated,
}

/// One event of a run.
#[derive(Debug)]
pub struct RunEvent {
    /// The position of the event in its run, counted from one.
    pub seq: SeqId,
    /// What the event records.
    pub kind: RunEventType,
    /// The text of the event.
    pub payload: String,
}

/// The mathematical value of a [`RunEvent`].
pub ghost struct RunEventView {
    pub seq: nat,
    pub kind: RunEventType,
    pub payload: Seq<char>,
}

impl View for RunEvent {
    type V = RunEventView;

    open spec fn view(&self) -> RunEventView {
        RunEventView { seq: self.seq as nat, kind: self.kind, payload: self.payload@ }
    }
}

impl Clone for RunEvent {
    fn clone(&self) -> (res: RunEvent)
        ensures
            res@ == self@,
    {
        RunEvent { seq: self.seq, kind: self.kind, payload: self.payload.clone() }
    }
}

/// The views of a list of events.
pub open spec fn event_views(events: Seq<RunEvent>) -> Seq<RunEventView> {
    events.map_values(|e: RunEvent| e@)
}

/// The events a poll returns, the cursor for the next poll, and the status
/// of the run at the time of the poll.
#[derive(Debug)]
pub struct PaginatedEvents {
    pub events: Vec<RunEvent>,
    pub next_cursor: SeqId,
    pub status: RunStatus,
}

/// A terminal status: the run is over.
pub open spec fn is_terminal(status: RunStatus) -> bool {
    status == RunStatus::Succeeded || status == RunStatus::Failed || status == RunStatus::Cancelled
}

/// The moves that a status can make.
pub open spec fn can_move(from: RunStatus, to: RunStatus) -> bool {
    match from {
        RunStatus::Pending => to == RunStatus::Running || to == RunStatus::Cancelled,
        RunStatus::Running => is_terminal(to),
        _ => false,
    }
}

/// How far a status is on its way: pending, then running, then over.
pub open spec fn progress(status: RunStatus) -> nat {
    match status {
        RunStatus::Pending => 0,
        RunStatus::Running => 1,
        _ => 2,
    }
}

/// The sequence numbers of a log count up from one without a gap.
pub open spec fn numbered(events: Seq<RunEventView>) -> bool {
    forall|i: int| 0 <= i < events.len() ==> (#[trigger] events[i]).seq == i + 1
}

/// The events after the cursor, at most `limit` of them, in log order.
pub open spec fn page_of(events: Seq<RunEventView>, after: nat, limit: nat) -> Seq<RunEventView> {
    let from = if after <= events.len() {
        after as int
    } else {
        events.len() as int
    };
    let to = if after + limit <= events.len() {
        (after + limit) as int
    } else {
        events.len() as int
    };
    events.subrange(from, to)
}

/// The cursor after a poll: the sequence number of the last event that the
/// poll returned, and the old cursor when it returned none.
pub open spec fn cursor_after(events: Seq<RunEventView>, after: nat, limit: nat) -> nat {
    after + page_of(events, after, limit).len()
}

/// The mathematical value of a run.
pub ghost struct RunView {
    pub task: Seq<char>,
    pub status: RunStatus,
    pub events: Seq<RunEventView>,
}

/// What the log keeps of an event. The sequence number of an event is its
/// position in the log, so it is not kept.
#[derive(Debug)]
pub struct LogEntry {
    kind: RunEventType,
    payload: String,
}

/// The events that a log holds: each entry under the number of its
/// position, counted from one.
pub closed spec fn numbered_log(entries: Seq<LogEntry>) -> Seq<RunEventView> {
    Seq::new(
        entries.len(),
        |i: int| RunEventView { seq: (i + 1) as nat, kind: entries[i].kind, payload: entries[i].payload@ },
    )
}

/// A loop execution under supervision.
#[derive(Debug)]
pub struct Run {
    task: String,
    status: RunStatus,
    entries: Vec<LogEntry>,
}

impl View for Run {
    type V = RunView;

    closed spec fn view(&self) -> RunView {
        RunView { task: self.task@, status: self.status, events: numbered_log(self.entries@) }
    }
}

impl Run {
    /// A run for a task: pending, with an empty log.
    pub fn new(task: String) -> (res: Run)
        ensures
            res@ == (RunView { task: task@, status: RunStatus::Pending, events: Seq::empty() }),
    {
        let entries: Vec<LogEntry> = Vec::new();
        proof {
            assert(numbered_log(entries@) =~= Seq::<RunEventView>::empty());
        }
        Run { task, status: RunStatus::Pending, entries }
    }

    /// The task of the run.
    pub fn task(&self) -> (res: &str)
        ensures
            res@ == self@.task,
    {
        self.task.as_str()
    }

    /// The status of the run.
    pub fn status(&self) -> (res: RunStatus)
        ensures
            res == self@.status,
    {
        self.status
    }

    /// Whether the run has been cancelled. A loop asks this between two
    /// cycles.
    pub fn is_cancelled(&self) -> (res: bool)
        ensures
            res == (self@.status == RunStatus::Cancelled),
    {
        self.status == RunStatus::Cancelled
    }

    /// The number of events in the log, which is also the sequence number
    /// of the newest of them. The numbers of a log count up from one.
    pub fn last_seq(&self) -> (res: SeqId)
        ensures
            res == self@.events.len(),
            numbered(self@.events),
    {
        self.entries.len() as u64
    }

    /// Starts a pending run. Returns whether the status changed.
    pub fn start(&mut self) -> (res: bool)
        ensures
            res == (old(self)@.status == RunStatus::Pending),
            res == can_move(old(self)@.status, final(self)@.status),
            final(self)@ == (RunView {
                status: if res {
                    RunStatus::Running
                } else {
                    old(self)@.status
                },
                ..old(self)@
            }),
    {
        if self.status == RunStatus::Pending {
            self.status = RunStatus::Running;
            true
        } else {
            false
        }
    }

    /// Ends a running run, in success or in failure. Returns whether the
    /// status changed: a run that is not running stays as it is.
    pub fn complete(&mut self, succeeded: bool) -> (res: bool)
        ensures
            res == (old(self)@.status == RunStatus::Running),
            res == can_move(old(self)@.status, final(self)@.status),
            final(self)@ == (RunView {
                status: if !res {
                    old(self)@.status
                } else if succeeded {
                    RunStatus::Succeeded
                } else {
                    RunStatus::Failed
                },
                ..old(self)@
            }),
    {
        if self.status == RunStatus::Running {
            self.status = if succeeded {
                RunStatus::Succeeded
            } else {
                RunStatus::Failed
            };
            true
        } else {
            false
        }
    }

    /// Cancels a run that is not over. Returns whether the status changed.
    /// The log is left alone, and stays open for what is still to come.
    pub fn cancel(&mut self) -> (res: bool)
        ensures
            res == !is_terminal(old(self)@.status),
            res == can_move(old(self)@.status, final(self)@.status),
            final(self)@ == (RunView {
                status: if res {
                    RunStatus::Cancelled
                } else {
                    old(self)@.status
                },
                ..old(self)@
            }),
    {
        if self.status == RunStatus::Pending || self.status == RunStatus::Running {
            self.status = RunStatus::Cancelled;
            true
        } else {
            false
        }
    }

    /// Appends an event to the log and returns its sequence number, which
    /// is one more than the number of events before it. The events before
    /// it and the status stay as they are.
    pub fn record(&mut self, kind: RunEventType, payload: String) -> (res: SeqId)
        ensures
            res == old(self)@.events.len() + 1,
            final(self)@ == (RunView {
                events: old(self)@.events.push(
                    RunEventView { seq: res as nat, kind, payload: payload@ },
                ),
                ..old(self)@
            }),
            numbered(final(self)@.events),
    {
        let ghost before = self.entries@;
        let entry = LogEntry { kind, payload };
        self.entries.push(entry);
        proof {
            assert(numbered_log(before.push(entry)) =~= numbered_log(before).push(
                RunEventView { seq: (before.len() + 1) as nat, kind, payload: payload@ },
            ));
        }
        self.entries.len() as u64
    }

    /// The events after the cursor, at most `limit` of them, with the
    /// cursor for the next poll and the status of the run. Polling changes
    /// nothing.
    pub fn poll(&self, after: SeqId, limit: usize) -> (res: PaginatedEvents)
        ensures
            event_views(res.events@) == page_of(self@.events, after as nat, limit as nat),
            res.next_cursor == cursor_after(self@.events, after as nat, limit as nat),
            res.status == self@.status,
    {
        let total: usize = self.entries.len();
        let ghost all = numbered_log(self.entries@);
        let mut page: Vec<RunEvent> = Vec::new();
        if after >= total as u64 || limit == 0 {
            proof {
                assert(event_views(page@) =~= page_of(all, after as nat, limit as nat));
            }
            return PaginatedEvents { events: page, next_cursor: after, status: self.status };
        }
        let from: usize = after as usize;
        let to: usize = if limit <= total - from {
            from + limit
        } else {
            total
        };
        let mut i: usize = from;
        proof {
            assert(event_views(page@) =~= all.subrange(from as int, from as int));
        }
        while i < to
            invariant
                from <= i <= to <= total,
                total == self.entries@.len(),
                all == numbered_log(self.entries@),
                event_views(page@) == all.subrange(from as int, i as int),
            decreases to - i,
        {
            let ghost before = page@;
            let entry = &self.entries[i];
            let seq: u64 = (i + 1) as u64;
            let event = RunEvent { seq, kind: entry.kind, payload: entry.payload.clone() };
            page.push(event);
            proof {
                assert(event_views(before.push(event)) =~= event_views(before).push(event@));
                assert(all.subrange(from as int, i as int).push(all[i as int]) =~= all.subrange(
                    from as int,
                    i as int + 1,
                ));
            }
            i = i + 1;
        }
        let next_cursor: u64 = to as u64;
        PaginatedEvents { events: page, next_cursor, status: self.status }
    }
}

/// The views of a list of runs.
pub open spec fn run_views(runs: Seq<Run>) -> Seq<RunView> {
    runs.map_values(|r: Run| r@)
}

/// The runs that a host supervises. A run's id is its position in the
/// order of submission; runs are never removed.
#[derive(Debug)]
pub struct BackgroundExecutor {
    runs: Vec<Run>,
}

impl View for BackgroundExecutor {
    type V = Seq<RunView>;

    closed spec fn view(&self) -> Seq<RunView> {
        run_views(self.runs@)
    }
}

impl BackgroundExecutor {
    /// An executor without runs.
    pub fn new() -> (res: BackgroundExecutor)
        ensures
            res@ == Seq::<RunView>::empty(),
    {
        let runs: Vec<Run> = Vec::new();
        proof {
            assert(run_views(runs@) =~= Seq::<RunView>::empty());
        }
        BackgroundExecutor { runs }
    }

    /// The number of runs submitted so far.
    pub fn len(&self) -> (res: usize)
        ensures
            res == self@.len(),
    {
        self.runs.len()
    }

    /// Submits a task for supervision and returns the id of its run, which
    /// is pending and has an empty log. The other runs stay as they are.
    pub fn submit(&mut self, task: String) -> (res: RunId)
        ensures
            res == old(self)@.len(),
            final(self)@ == old(self)@.push(
                RunView { task: task@, status: RunStatus::Pending, events: Seq::empty() },
            ),
    {
        let id: u64 = self.runs.len() as u64;
        let ghost before = self.runs@;
        let run = Run::new(task);
        self.runs.push(run);
        proof {
            assert(run_views(before.push(run)) =~= run_views(before).push(run@));
        }
        id
    }

    /// The status of a run; nothing for an id that was never given out.
    pub fn status(&self, run_id: RunId) -> (res: Option<RunStatus>)
        ensures
            res == if run_id < self@.len() {
                Some(self@[run_id as int].status)
            } else {
                None
            },
    {
        if run_id < self.runs.len() as u64 {
            Some(self.runs[run_id as usize].status())
        } else {
            None
        }
    }

    /// Whether a run has been cancelled. A loop asks this between two
    /// cycles, before it asks the model again.
    pub fn is_cancelled(&self, run_id: RunId) -> (res: bool)
        ensures
            res == (run_id < self@.len() && self@[run_id as int].status == RunStatus::Cancelled),
    {
        run_id < self.runs.len() as u64 && self.runs[run_id as usize].is_cancelled()
    }

    /// The events of a run after the cursor, at most `limit` of them, with
    /// the cursor for the next poll and the status of the run; nothing for
    /// an id that was never given out. Polling changes nothing, so any
    /// number of observers can follow a run.
    pub fn poll(&self, run_id: RunId, after: SeqId, limit: usize) -> (res: Option<PaginatedEvents>)
        ensures
            res is Some <==> run_id < self@.len(),
            res matches Some(page) ==> {
                &&& event_views(page.events@) == page_of(
                    self@[run_id as int].events,
                    after as nat,
                    limit as nat,
                )
                &&& page.next_cursor == cursor_after(
                    self@[run_id as int].events,
                    after as nat,
                    limit as nat,
                )
                &&& page.status == self@[run_id as int].status
            },
    {
        if run_id < self.runs.len() as u64 {
            Some(self.runs[run_id as usize].poll(after, limit))
        } else {
            None
        }
    }

    /// Starts a pending run. Returns whether the status changed. No other
    /// run is touched.
    pub fn start(&mut self, run_id: RunId) -> (res: bool)
        ensures
            res == (run_id < old(self)@.len() && old(self)@[run_id as int].status
                == RunStatus::Pending),
            res ==> final(self)@ == old(self)@.update(
                run_id as int,
                RunView { status: RunStatus::Running, ..old(self)@[run_id as int] },
            ),
            !res ==> final(self)@ == old(self)@,
    {
        if run_id >= self.runs.len() as u64 {
            return false;
        }
        let ghost before = self.runs@;
        let index: usize = run_id as usize;
        let changed = self.runs[index].start();
        proof {
            assert(run_views(self.runs@) =~= run_views(before).update(
                index as int,
                self.runs@[index as int]@,
            ));
            if !changed {
                assert(run_views(self.runs@) =~= run_views(before));
            }
        }
        changed
    }

    /// Ends a running run, in success or in failure. Returns whether the
    /// status changed. No other run is touched.
    pub fn complete(&mut self, run_id: RunId, succeeded: bool) -> (res: bool)
        ensures
            res == (run_id < old(self)@.len() && old(self)@[run_id as int].status
                == RunStatus::Running),
            res ==> final(self)@ == old(self)@.update(
                run_id as int,
                RunView {
                    status: if succeeded {
                        RunStatus::Succeeded
                    } else {
                        RunStatus::Failed
                    },
                    ..old(self)@[run_id as int]
                },
            ),
            !res ==> final(self)@ == old(self)@,
    {
        if run_id >= self.runs.len() as u64 {
            return false;
        }
        let ghost before = self.runs@;
        let index: usize = run_id as usize;
        let changed = self.runs[index].complete(succeeded);
        proof {
            assert(run_views(self.runs@) =~= run_views(before).update(
                index as int,
                self.runs@[index as int]@,
            ));
            if !changed {
                assert(run_views(self.runs@) =~= run_views(before));
            }
        }
        changed
    }

    /// Cancels a run that is not over. Returns whether the status changed.
    /// No other run is touched, and the log of the run stays open.
    pub fn cancel(&mut self, run_id: RunId) -> (res: bool)
        ensures
            res == (run_id < old(self)@.len() && !is_terminal(old(self)@[run_id as int].status)),
            res ==> final(self)@ == old(self)@.update(
                run_id as int,
                RunView { status: RunStatus::Cancelled, ..old(self)@[run_id as int] },
            ),
            !res ==> final(self)@ == old(self)@,
    {
        if run_id >= self.runs.len() as u64 {
            return false;
        }
        let ghost before = self.runs@;
        let index: usize = run_id as usize;
        let changed = self.runs[index].cancel();
        proof {
            assert(run_views(self.runs@) =~= run_views(before).update(
                index as int,
                self.runs@[index as int]@,
            ));
            if !changed {
                assert(run_views(self.runs@) =~= run_views(before));
            }
        }
        changed
    }

    /// Appends an event to the log of a run and returns its sequence
    /// number; nothing is recorded for an id that was never given out. No
    /// other run is touched.
    pub fn record(&mut self, run_id: RunId, kind: RunEventType, payload: String) -> (res: Option<
        SeqId,
    >)
        ensures
            res is Some <==> run_id < old(self)@.len(),
            res matches Some(seq) ==> {
                &&& seq == old(self)@[run_id as int].events.len() + 1
                &&& final(self)@ == old(self)@.update(
                    run_id as int,
                    RunView {
                        events: old(self)@[run_id as int].events.push(
                            RunEventView { seq: seq as nat, kind, payload: payload@ },
                        ),
                        ..old(self)@[run_id as int]
                    },
                )
            },
            res is None ==> final(self)@ == old(self)@,
    {
        if run_id >= self.runs.len() as u64 {
            return None;
        }
        let ghost before = self.runs@;
        let index: usize = run_id as usize;
        let seq = self.runs[index].record(kind, payload);
        proof {
            assert(run_views(self.runs@) =~= run_views(before).update(
                index as int,
                self.runs@[index as int]@,
            ));
        }
        Some(seq)
    }
}

/// Sequence numbers are strictly increasing within a run and never repeat:
/// of two events of one log the later has the larger number.
pub proof fn lemma_sequence_strictly_increases(events: Seq<RunEventView>, i: int, j: int)
    requires
        numbered(events),
        0 <= i < j < events.len(),
    ensures
        events[i].seq < events[j].seq,
{
}

/// Recording keeps the numbering: the new event gets a number that is
/// larger than every number in the log, and no event before it changes.
pub proof fn lemma_record_extends_numbering(
    events: Seq<RunEventView>,
    kind: RunEventType,
    payload: Seq<char>,
)
    requires
        numbered(events),
    ensures
        numbered(events.push(RunEventView { seq: events.len() + 1, kind, payload })),
        forall|i: int| 0 <= i < events.len() ==> (#[trigger] events[i]).seq < events.len() + 1,
        events.is_prefix_of(events.push(RunEventView { seq: events.len() + 1, kind, payload })),
{
    let after = events.push(RunEventView { seq: events.len() + 1, kind, payload });
    assert(after.subrange(0, events.len() as int) =~= events);
}

/// The status of a run only moves forward: every move makes progress, so
/// no status is ever reached twice, and a terminal status cannot be left.
pub proof fn lemma_status_moves_forward(from: RunStatus, to: RunStatus)
    requires
        can_move(from, to),
    ensures
        !is_terminal(from),
        progress(from) < progress(to),
{
}

/// A poll returns exactly the events whose numbers come after the cursor,
/// the oldest first, up to the limit; the new cursor is the number of the
/// last of them.
pub proof fn lemma_page_holds_what_follows(events: Seq<RunEventView>, after: nat, limit: nat)
    requires
        numbered(events),
    ensures
        page_of(events, after, limit).len() <= limit,
        forall|k: int|
            0 <= k < page_of(events, after, limit).len() ==> (#[trigger] page_of(
                events,
                after,
                limit,
            )[k]).seq == after + k + 1,
        page_of(events, after, limit).len() > 0 ==> page_of(events, after, limit).last().seq
            == cursor_after(events, after, limit),
        page_of(events, after, limit).len() < limit ==> cursor_after(events, after, limit)
            >= events.len(),
{
    let page = page_of(events, after, limit);
    assert forall|k: int| 0 <= k < page.len() implies (#[trigger] page[k]).seq == after + k + 1 by {
        assert(page[k] == events[after + k]);
    }
}

/// Polling can be resumed: a poll from the cursor that an earlier poll
/// returned continues exactly where that poll ended, so that two polls in
/// a row give what one poll with both limits gives.
pub proof fn lemma_poll_resumes(events: Seq<RunEventView>, after: nat, first: nat, second: nat)
    ensures
        page_of(events, after, first) + page_of(
            events,
            cursor_after(events, after, first),
            second,
        ) == page_of(events, after, first + second),
{
    assert(page_of(events, after, first) + page_of(
        events,
        cursor_after(events, after, first),
        second,
    ) =~= page_of(events, after, first + second));
}

/// What a poll returned stays true: events recorded later never change a
/// page that was already full, and otherwise only add to its end.
pub proof fn lemma_pages_are_stable(
    events: Seq<RunEventView>,
    more: Seq<RunEventView>,
    after: nat,
    limit: nat,
)
    ensures
        page_of(events, after, limit).is_prefix_of(page_of(events + more, after, limit)),
{
    let a = page_of(events, after, limit);
    let b = page_of(events + more, after, limit);
    assert(b.subrange(0, a.len() as int) =~= a);
}

/// Cancelling does not close the log: an event recorded after the run was
/// cancelled is appended like any other, and the run stays cancelled.
pub proof fn lemma_cancelled_run_still_records(
    run: RunView,
    kind: RunEventType,
    payload: Seq<char>,
)
    requires
        numbered(run.events),
        run.status == RunStatus::Cancelled,
    ensures
        ({
            let after = RunView {
                events: run.events.push(RunEventView { seq: run.events.len() + 1, kind, payload }),
                ..run
            };
            &&& after.status == RunStatus::Cancelled
            &&& after.events.len() == run.events.len() + 1
            &&& run.events.is_prefix_of(after.events)
            &&& numbered(after.events)
        }),
{
    lemma_record_extends_numbering(run.events, kind, payload);
}

} // verus!
