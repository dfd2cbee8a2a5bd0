//! The registry: the tools found in one directory, each under a unique id.

use vstd::prelude::*;
use vstd::string::*;
use std::sync::Arc;
use tokio::sync::Semaphore;
use crate::security_tools::descriptor::{SecurityTool, SecurityToolView};

verus! {

/// A counting semaphore of the async runtime. Its inside is not modelled.
#[verifier::external_type_specification]
#[verifier::external_body]
pub struct ExSemaphore(Semaphore);

/// The number of permits a semaphore was created with.
pub uninterp spec fn initial_permits(sem: Semaphore) -> nat;

/// The largest number of permits a semaphore can be created with.
pub open spec fn max_permits() -> nat {
    (usize::MAX >> 3) as nat
}

/// Calls `Semaphore::new`, which panics above `Semaphore::MAX_PERMITS` and
/// otherwise creates a semaphore holding the given number of permits.
#[verifier::external_body]
pub(crate) fn new_semaphore(permits: usize) -> (res: Semaphore)
    requires
        permits <= max_permits(),
    ensures
        initial_permits(res) == permits,
{
    Semaphore::new(permits)
}

/// Calls `Arc::clone`: another handle to the same shared value.
#[verifier::external_body]
pub(crate) fn share<T>(shared: &Arc<T>) -> (res: Arc<T>)
    ensures
        res == *shared,
{
    Arc::clone(shared)
}

/// The views of a list of tools.
pub open spec fn tool_views(v: Seq<SecurityTool>) -> Seq<SecurityToolView> {
    v.map_values(|t: SecurityTool| t@)
}

/// The views of a list of borrowed tools.
pub open spec fn tool_ref_views(v: Seq<&SecurityTool>) -> Seq<SecurityToolView> {
    v.map_values(|t: &SecurityTool| t@)
}

/// The ids of a list of tools, in order.
pub open spec fn ids_of(tools: Seq<SecurityToolView>) -> Seq<Seq<char>> {
    tools.map_values(|t: SecurityToolView| t.id)
}

/// Some tool of the list has the id.
pub open spec fn has_id(tools: Seq<SecurityToolView>, id: Seq<char>) -> bool {
    exists|i: int| 0 <= i < tools.len() && (#[trigger] tools[i]).id == id
}

/// A position at which the list holds a tool with the id, when there is one.
pub open spec fn position_of(tools: Seq<SecurityToolView>, id: Seq<char>) -> int {
    choose|i: int| 0 <= i < tools.len() && (#[trigger] tools[i]).id == id
}

/// No id occurs twice in the list.
pub open spec fn distinct_ids(tools: Seq<SecurityToolView>) -> bool {
    forall|i: int, j: int|
        0 <= i < tools.len() && 0 <= j < tools.len() && i != j ==> (#[trigger] tools[i]).id != (
        #[trigger] tools[j]).id
}

/// The list after `tool` was registered: it takes the place of the tool that
/// had its id, or goes to the end when the id is new.
pub open spec fn with_tool(tools: Seq<SecurityToolView>, tool: SecurityToolView) -> Seq<
    SecurityToolView,
> {
    if has_id(tools, tool.id) {
        tools.update(position_of(tools, tool.id), tool)
    } else {
        tools.push(tool)
    }
}

/// Registering a tool keeps ids unique and leaves the tool in the list.
pub proof fn lemma_with_tool(tools: Seq<SecurityToolView>, tool: SecurityToolView)
    requires
        distinct_ids(tools),
    ensures
        distinct_ids(with_tool(tools, tool)),
        with_tool(tools, tool).contains(tool),
        has_id(tools, tool.id) ==> with_tool(tools, tool).len() == tools.len(),
        !has_id(tools, tool.id) ==> with_tool(tools, tool).len() == tools.len() + 1,
        forall|id: Seq<char>| has_id(with_tool(tools, tool), id) <==> (has_id(tools, id) || id == tool.id),
{
    let after = with_tool(tools, tool);
    if has_id(tools, tool.id) {
        let p = position_of(tools, tool.id);
        assert(after[p] == tool);
        assert forall|id: Seq<char>| has_id(after, id) <==> (has_id(tools, id) || id == tool.id) by {
            if has_id(after, id) {
                let k = choose|k: int| 0 <= k < after.len() && (#[trigger] after[k]).id == id;
                if k != p {
                    assert(tools[k].id == id);
                }
            }
            if has_id(tools, id) {
                let k = choose|k: int| 0 <= k < tools.len() && (#[trigger] tools[k]).id == id;
                if k == p {
                    assert(after[p].id == id);
                } else {
                    assert(after[k].id == id);
                }
            }
            if id == tool.id {
                assert(after[p].id == id);
            }
        }
        assert forall|i: int, j: int|
            0 <= i < after.len() && 0 <= j < after.len() && i != j implies (#[trigger] after[i]).id
            != (#[trigger] after[j]).id by {
            if i == p {
                assert(tools[j].id != tools[p].id);
            } else if j == p {
                assert(tools[i].id != tools[p].id);
            } else {
                assert(tools[i].id != tools[j].id);
            }
        }
    } else {
        let n = tools.len() as int;
        assert(after[n] == tool);
        assert forall|id: Seq<char>| has_id(after, id) <==> (has_id(tools, id) || id == tool.id) by {
            if has_id(after, id) {
                let k = choose|k: int| 0 <= k < after.len() && (#[trigger] after[k]).id == id;
                if k < n {
                    assert(tools[k].id == id);
                }
            }
            if has_id(tools, id) {
                let k = choose|k: int| 0 <= k < tools.len() && (#[trigger] tools[k]).id == id;
                assert(after[k].id == id);
            }
            if id == tool.id {
                assert(after[n].id == id);
            }
        }
        assert forall|i: int, j: int|
            0 <= i < after.len() && 0 <= j < after.len() && i != j implies (#[trigger] after[i]).id
            != (#[trigger] after[j]).id by {
            if i == n {
                assert(tools[j].id == after[j].id);
            } else if j == n {
                assert(tools[i].id == after[i].id);
            } else {
                assert(tools[i].id != tools[j].id);
            }
        }
    }
}

/// A copy of a list of tools.
pub fn copy_tools(items: &Vec<SecurityTool>) -> (res: Vec<SecurityTool>)
    ensures
        tool_views(res@) == tool_views(items@),
{
    let mut out: Vec<SecurityTool> = Vec::new();
    let mut i: usize = 0;
    while i < items.len()
        invariant
            i <= items.len(),
            tool_views(out@) == tool_views(items@).take(i as int),
        decreases items.len() - i,
    {
        let ghost before = out@;
        let item = items[i].clone();
        out.push(item);
        proof {
            assert(tool_views(before.push(item)) =~= tool_views(before).push(item@));
            assert(tool_views(items@).take(i as int + 1) =~= tool_views(items@).take(i as int).push(
                items@[i as int]@,
            ));
        }
        i = i + 1;
    }
    proof {
        assert(tool_views(items@).take(items@.len() as int) =~= tool_views(items@));
    }
    out
}

/// Registry of discovered security tools. The tools are fixed once the
/// registry has been built; only the concurrency limiter can be added.
#[derive(Debug)]
pub struct SecurityToolRegistry {
    tools_dir: String,
    tools: Vec<SecurityTool>,
    parallel_semaphore: Option<Arc<Semaphore>>,
}

impl View for SecurityToolRegistry {
    type V = Seq<SecurityToolView>;

    /// The registered tools, in registration order.
    closed spec fn view(&self) -> Seq<SecurityToolView> {
        tool_views(self.tools@)
    }
}

impl Clone for SecurityToolRegistry {
    /// A registry with the same directory and the same tools, which shares
    /// the concurrency limiter of this one.
    fn clone(&self) -> (res: SecurityToolRegistry)
        ensures
            res@ == self@,
            res.dir() == self.dir(),
            res.limiter() == self.limiter(),
            res.concurrency_limit() == self.concurrency_limit(),
    {
        proof {
            use_type_invariant(self);
        }
        SecurityToolRegistry {
            tools_dir: self.tools_dir.clone(),
            tools: copy_tools(&self.tools),
            parallel_semaphore: match &self.parallel_semaphore {
                Some(sem) => Some(share(sem)),
                None => None,
            },
        }
    }
}

impl SecurityToolRegistry {
    /// The invariant of a registry: no id is registered twice.
    #[verifier::type_invariant]
    spec fn unique_ids(&self) -> bool {
        distinct_ids(tool_views(self.tools@))
    }

    /// The directory that the registry was built from.
    pub closed spec fn dir(&self) -> Seq<char> {
        self.tools_dir@
    }

    /// The bound on concurrently running processes, if one is set.
    pub closed spec fn concurrency_limit(&self) -> Option<nat> {
        match self.parallel_semaphore {
            Some(sem) => Some(initial_permits(*sem)),
            None => None,
        }
    }

    /// The semaphore that enforces the bound, if one is set.
    pub closed spec fn limiter(&self) -> Option<Arc<Semaphore>> {
        self.parallel_semaphore
    }

    /// Registers `tool` in `tools`: a tool that is already there under the
    /// same id is replaced, so that of two entries the later one wins.
    pub(crate) fn register(tools: &mut Vec<SecurityTool>, tool: SecurityTool)
        requires
            distinct_ids(tool_views(old(tools)@)),
        ensures
            tool_views(final(tools)@) == with_tool(tool_views(old(tools)@), tool@),
            distinct_ids(tool_views(final(tools)@)),
    {
        let ghost before = tool_views(tools@);
        let mut i: usize = 0;
        let mut found: Option<usize> = None;
        while i < tools.len() && found.is_none()
            invariant
                i <= tools.len(),
                tool_views(tools@) == before,
                found is None ==> forall|k: int| 0 <= k < i ==> (#[trigger] before[k]).id != tool@.id,
                found matches Some(p) ==> p < tools.len() && before[p as int].id == tool@.id,
            decreases tools.len() - i + (if found is None { 1int } else { 0int }),
        {
            if tools[i].id == tool.id {
                found = Some(i);
            } else {
                i = i + 1;
            }
        }
        proof {
            lemma_with_tool(before, tool@);
        }
        match found {
            Some(p) => {
                proof {
                    assert(has_id(before, tool@.id));
                    let q = position_of(before, tool@.id);
                    assert(q == p as int) by {
                        if q != p as int {
                            assert(before[q].id != before[p as int].id);
                        }
                    }
                }
                tools.set(p, tool);
                proof {
                    assert(tool_views(tools@) =~= before.update(p as int, tool@));
                }
            },
            None => {
                proof {
                    assert(!has_id(before, tool@.id));
                }
                tools.push(tool);
                proof {
                    assert(tool_views(tools@) =~= before.push(tool@));
                }
            },
        }
    }

    /// Creates a registry of the given tools.
    pub(crate) fn from_parts(tools_dir: String, tools: Vec<SecurityTool>) -> (res:
        SecurityToolRegistry)
        requires
            distinct_ids(tool_views(tools@)),
        ensures
            res@ == tool_views(tools@),
            res.dir() == tools_dir@,
            res.concurrency_limit() is None,
            res.limiter() is None,
    {
        SecurityToolRegistry { tools_dir, tools, parallel_semaphore: None }
    }

    /// Enables parallel execution: from now on the registry owns a limiter
    /// with `max_concurrent` permits. The tools stay as they are.
    pub fn with_parallel_execution(self, max_concurrent: usize) -> (res: SecurityToolRegistry)
        requires
            max_concurrent <= max_permits(),
        ensures
            res@ == self@,
            res.dir() == self.dir(),
            res.concurrency_limit() == Some(max_concurrent as nat),
    {
        proof {
            use_type_invariant(&self);
        }
        let sem = new_semaphore(max_concurrent);
        SecurityToolRegistry {
            tools_dir: self.tools_dir,
            tools: self.tools,
            parallel_semaphore: Some(Arc::new(sem)),
        }
    }

    /// Whether the registry owns a concurrency limiter.
    pub fn is_parallel(&self) -> (res: bool)
        ensures
            res == (self.concurrency_limit() is Some),
    {
        self.parallel_semaphore.is_some()
    }

    /// Another handle to the registry's limiter, if it owns one.
    pub fn semaphore(&self) -> (res: Option<Arc<Semaphore>>)
        ensures
            res == self.limiter(),
            res matches Some(sem) ==> self.concurrency_limit() == Some(initial_permits(*sem)),
            res is None <==> self.concurrency_limit() is None,
    {
        match &self.parallel_semaphore {
            Some(sem) => Some(share(sem)),
            None => None,
        }
    }

    /// The directory that the registry was built from.
    pub fn tools_dir(&self) -> (res: &str)
        ensures
            res@ == self.dir(),
    {
        self.tools_dir.as_str()
    }

    /// The number of registered tools.
    pub fn len(&self) -> (res: usize)
        ensures
            res == self@.len(),
    {
        self.tools.len()
    }

    /// Whether no tool is registered.
    pub fn is_empty(&self) -> (res: bool)
        ensures
            res == (self@.len() == 0),
    {
        self.tools.len() == 0
    }

    /// All registered tools, in registration order. No two of them have
    /// the same id.
    pub fn tools(&self) -> (res: Vec<&SecurityTool>)
        ensures
            tool_ref_views(res@) == self@,
            distinct_ids(self@),
    {
        proof {
            use_type_invariant(self);
        }
        let mut out: Vec<&SecurityTool> = Vec::new();
        let mut i: usize = 0;
        while i < self.tools.len()
            invariant
                i <= self.tools.len(),
                tool_ref_views(out@) == self@.take(i as int),
            decreases self.tools.len() - i,
        {
            let ghost before = out@;
            let tool = &self.tools[i];
            out.push(tool);
            proof {
                assert(tool_ref_views(before.push(tool)) =~= tool_ref_views(before).push(tool@));
                assert(self@.take(i as int + 1) =~= self@.take(i as int).push(self@[i as int]));
            }
            i = i + 1;
        }
        proof {
            assert(self@.take(self@.len() as int) =~= self@);
        }
        out
    }

    /// The tool registered under `id`, if there is one. Ids are unique,
    /// so there is at most one.
    pub fn get(&self, id: &str) -> (res: Option<&SecurityTool>)
        ensures
            distinct_ids(self@),
            res is Some <==> has_id(self@, id@),
            res matches Some(tool) ==> tool@.id == id@ && self@.contains(tool@),
    {
        proof {
            use_type_invariant(self);
        }
        let mut i: usize = 0;
        while i < self.tools.len()
            invariant
                i <= self.tools.len(),
                distinct_ids(self@),
                forall|k: int| 0 <= k < i ==> (#[trigger] self@[k]).id != id@,
            decreases self.tools.len() - i,
        {
            if crate::text::same_text(self.tools[i].id.as_str(), id) {
                proof {
                    assert(self@[i as int] == self.tools@[i as int]@);
                }
                return Some(&self.tools[i]);
            }
            i = i + 1;
        }
        None
    }
}

} // verus!
