//! The handoff context: what the stages of a multi-agent session tell each
//! other.
//!
//! The context is an ordered log of observations. Each stage appends a
//! labelled summary of its own output before the next stage starts; later
//! stages read the log, in full or cut to a size budget. Entries are never
//! rewritten or removed. A stage that failed is recorded too, as a degraded
//! observation, so that the stages after it can still work on what there is.

use vstd::prelude::*;
use vstd::string::*;
use crate::react::{LoopPhase, LoopView, Observation, ObservationView, ReActLoop};
use crate::text::{join, joined, lemma_texts_push, texts};

verus! {

/// The mathematical value of a handoff context.
pub ghost struct HandoffView {
    /// What the session is about.
    pub task: Seq<char>,
    /// The observations, oldest first.
    pub entries: Seq<ObservationView>,
}

/// The shared log of one multi-agent session.
#[derive(Debug)]
pub struct HandoffContext {
    task: String,
    observations: Vec<Observation>,
}

/// The views of a list of observations.
pub open spec fn observation_views(v: Seq<Observation>) -> Seq<ObservationView> {
    v.map_values(|o: Observation| o@)
}

impl View for HandoffContext {
    type V = HandoffView;

    closed spec fn view(&self) -> HandoffView {
        HandoffView { task: self.task@, entries: observation_views(self.observations@) }
    }
}

/// The text of a labelled summary.
pub open spec fn labelled(label: Seq<char>, summary: Seq<char>) -> Seq<char> {
    "["@ + label + "] "@ + summary
}

/// The text that records the failure of a stage.
pub open spec fn stage_failure(stage: Seq<char>, reason: Seq<char>) -> Seq<char> {
    "stage "@ + stage + " failed: "@ + reason
}

/// The entry that records the outcome of a stage.
pub open spec fn stage_entry(stage: Seq<char>, agent: LoopView) -> ObservationView {
    if agent.phase == LoopPhase::Succeeded {
        ObservationView { content: labelled(stage, agent.content), success: true }
    } else {
        ObservationView { content: stage_failure(stage, agent.content), success: false }
    }
}

/// The contents of the observations, in order.
pub open spec fn contents_of(entries: Seq<ObservationView>) -> Seq<Seq<char>> {
    entries.map_values(|o: ObservationView| o.content)
}

/// The log as one text: the contents of its entries, one per line.
pub open spec fn log_text(entries: Seq<ObservationView>) -> Seq<char> {
    joined(contents_of(entries), "\n"@)
}

/// A text cut to a budget: the text itself when it fits, and otherwise its
/// first `budget` characters.
pub open spec fn cut_to(text: Seq<char>, budget: nat) -> Seq<char> {
    if text.len() <= budget {
        text
    } else {
        text.take(budget as int)
    }
}

impl HandoffContext {
    /// The context of a new session: the task, and an empty log.
    pub fn new(task: &str) -> (res: HandoffContext)
        ensures
            res@ == (HandoffView { task: task@, entries: Seq::empty() }),
    {
        let observations: Vec<Observation> = Vec::new();
        proof {
            assert(observation_views(observations@) =~= Seq::<ObservationView>::empty());
        }
        HandoffContext { task: String::from_str(task), observations }
    }

    /// The context with one more observation at the end of its log.
    pub fn with_observation(self, observation: Observation) -> (res: HandoffContext)
        ensures
            res@ == (HandoffView { entries: self@.entries.push(observation@), ..self@ }),
    {
        let ghost before = self.observations@;
        let mut observations = self.observations;
        observations.push(observation);
        proof {
            assert(observation_views(before.push(observation)) =~= observation_views(before).push(
                observation@,
            ));
        }
        HandoffContext { task: self.task, observations }
    }

    /// Appends the labelled summary of a stage's output.
    pub fn append(&mut self, label: &str, summary: &str)
        ensures
            final(self)@ == (HandoffView {
                entries: old(self)@.entries.push(
                    ObservationView { content: labelled(label@, summary@), success: true },
                ),
                ..old(self)@
            }),
    {
        let ghost before = self.observations@;
        let content = String::from_str("[").concat(label).concat("] ").concat(summary);
        let observation = Observation::new(content);
        self.observations.push(observation);
        proof {
            assert(observation_views(before.push(observation)) =~= observation_views(before).push(
                observation@,
            ));
        }
    }

    /// Records that a stage failed. The failure becomes an entry of the
    /// log like any other, marked as unsuccessful; the session goes on.
    pub fn record_failure(&mut self, stage: &str, reason: &str)
        ensures
            final(self)@ == (HandoffView {
                entries: old(self)@.entries.push(
                    ObservationView { content: stage_failure(stage@, reason@), success: false },
                ),
                ..old(self)@
            }),
    {
        let ghost before = self.observations@;
        let content = String::from_str("stage ").concat(stage).concat(" failed: ").concat(reason);
        let observation = Observation { content, success: false };
        self.observations.push(observation);
        proof {
            assert(observation_views(before.push(observation)) =~= observation_views(before).push(
                observation@,
            ));
        }
    }

    /// Records the outcome of a stage from the loop that ran it: the
    /// labelled answer of a loop that succeeded, and the failure of any
    /// other, with the reason that the loop gives.
    pub fn record_stage(&mut self, stage: &str, agent: &ReActLoop)
        ensures
            final(self)@ == (HandoffView {
                entries: old(self)@.entries.push(stage_entry(stage@, agent@)),
                ..old(self)@
            }),
    {
        if agent.phase() == LoopPhase::Succeeded {
            self.append(stage, agent.content());
        } else {
            self.record_failure(stage, agent.content());
        }
    }

    /// What the session is about.
    pub fn task(&self) -> (res: &str)
        ensures
            res@ == self@.task,
    {
        self.task.as_str()
    }

    /// The number of entries in the log.
    pub fn len(&self) -> (res: usize)
        ensures
            res == self@.entries.len(),
    {
        self.observations.len()
    }

    /// Whether the log is empty.
    pub fn is_empty(&self) -> (res: bool)
        ensures
            res == (self@.entries.len() == 0),
    {
        self.observations.len() == 0
    }

    /// The entries of the log, oldest first.
    pub fn observations(&self) -> (res: &Vec<Observation>)
        ensures
            observation_views(res@) == self@.entries,
    {
        &self.observations
    }

    /// The log as one text, one entry per line, cut to the budget when one
    /// is given. Reading leaves the log as it is.
    pub fn context_text(&self, budget: Option<usize>) -> (res: String)
        ensures
            res@ == match budget {
                Some(n) => cut_to(log_text(self@.entries), n as nat),
                None => log_text(self@.entries),
            },
    {
        let ghost entries = observation_views(self.observations@);
        let mut lines: Vec<String> = Vec::new();
        let mut i: usize = 0;
        while i < self.observations.len()
            invariant
                i <= self.observations.len(),
                entries == observation_views(self.observations@),
                texts(lines@) == contents_of(entries).take(i as int),
            decreases self.observations.len() - i,
        {
            let ghost before = lines@;
            let line = self.observations[i].content.clone();
            lines.push(line);
            proof {
                lemma_texts_push(before, line);
                assert(contents_of(entries).take(i as int + 1) =~= contents_of(entries).take(
                    i as int,
                ).push(entries[i as int].content));
            }
            i = i + 1;
        }
        proof {
            assert(contents_of(entries).take(entries.len() as int) =~= contents_of(entries));
        }
        let text = join(&lines, "\n");
        match budget {
            None => text,
            Some(n) => {
                if text.as_str().unicode_len() <= n {
                    text
                } else {
                    let cut = String::from_str(text.as_str().substring_char(0, n));
                    proof {
                        assert(text@.subrange(0, n as int) =~= text@.take(n as int));
                    }
                    cut
                }
            },
        }
    }
}

/// The log is append-only: after an entry was added, the entries that were
/// there are the first entries, unchanged and in their order.
pub proof fn lemma_log_is_append_only(entries: Seq<ObservationView>, added: ObservationView)
    ensures
        entries.is_prefix_of(entries.push(added)),
        entries.push(added).len() == entries.len() + 1,
        entries.push(added).last() == added,
{
    assert(entries.push(added).subrange(0, entries.len() as int) =~= entries);
}

/// A text cut to a budget never exceeds the budget and is a prefix of the
/// text; a text that fits is not cut at all.
pub proof fn lemma_cut_fits(text: Seq<char>, budget: nat)
    ensures
        cut_to(text, budget).len() <= budget,
        cut_to(text, budget).is_prefix_of(text),
        text.len() <= budget ==> cut_to(text, budget) == text,
{
    let cut = cut_to(text, budget);
    assert(text.subrange(0, cut.len() as int) =~= cut);
}

} // verus!
