//! The two operations an agent is given over a registry: list and run.
//!
//! The plain tools show and run every registered tool. The tagged tools are
//! a capability view: a registry together with a set of tags, and both of
//! its operations recompute the visible tools from the tags on every call.
//! Running is therefore refused for a tool outside the view even when the
//! caller names an id that it was never shown.

use vstd::prelude::*;
use vstd::string::*;
use std::sync::Arc;
use serde_json::Value;
use crate::error::{Error, ErrorView};
use crate::json::{string_list_param, string_param, text_at, texts_at};
use crate::react::ToolCall;
use crate::security_tools::category::{category_named, SecurityCategory};
use crate::security_tools::descriptor::{
    launch_of, Launch, LaunchView, SecurityTool, SecurityToolView,
};
use crate::security_tools::dispatch::{
    bool_str, bool_text, dispatch_of, dispatch_view, tool_with_id,
};
use crate::security_tools::matching::{
    in_category, lemma_category_step, lemma_hidden_tool_not_visible, lemma_visible_tools_members,
    visible, visible_tools,
};
use crate::security_tools::registry::{
    distinct_ids, has_id, share, tool_ref_views, SecurityToolRegistry,
};
use crate::text::{
    copy_texts, debug_list, debug_list_text, decimal, decimal_string, join, joined, same_text,
    slice_texts, texts,
};
use crate::tools::{ToolOutput, ToolOutputView};

verus! {

/// What a tool call asks of the host: to hand a finished output back, or to
/// start a process and turn what it leaves behind into the output.
#[derive(Debug)]
pub enum ToolStep {
    /// The call is answered without running anything.
    Reply(ToolOutput),
    /// The call is answered by running this process.
    Launch(Launch),
}

/// The mathematical value of a [`ToolStep`].
pub ghost enum ToolStepView {
    Reply(ToolOutputView),
    Launch(LaunchView),
}

impl View for ToolStep {
    type V = ToolStepView;

    open spec fn view(&self) -> ToolStepView {
        match *self {
            ToolStep::Reply(output) => ToolStepView::Reply(output@),
            ToolStep::Launch(launch) => ToolStepView::Launch(launch@),
        }
    }
}

/// The views of the result of a run operation.
pub open spec fn step_view(res: Result<ToolStep, Error>) -> Result<ToolStepView, ErrorView> {
    match res {
        Ok(step) => Ok(step@),
        Err(e) => Err(e@),
    }
}

/// The successful output with the given content.
pub open spec fn success_with(content: Seq<char>) -> ToolOutputView {
    ToolOutputView { success: true, content, error: None }
}

/// The failed output with the given message and no content.
pub open spec fn failure_with(message: Seq<char>) -> ToolOutputView {
    ToolOutputView { success: false, content: Seq::empty(), error: Some(message) }
}

/// The line of a tool's tags in a listing; nothing for a tool without tags.
pub open spec fn tags_suffix(tags: Seq<Seq<char>>) -> Seq<char> {
    if tags.len() == 0 {
        Seq::empty()
    } else {
        "\n  Tags: "@ + joined(tags, ", "@)
    }
}

/// The entry of one tool in a listing, with or without its tags.
pub open spec fn listing_entry(tool: SecurityToolView, with_tags: bool) -> Seq<char> {
    "• "@ + tool.name + " (id: '"@ + tool.id + "')\n  Category: "@ + tool.category.label()
        + "\n  Description: "@ + tool.description + "\n  Sudo: "@ + bool_text(tool.requires_sudo) + (
    if with_tags {
        tags_suffix(tool.tags)
    } else {
        Seq::empty()
    }) + "\n\n"@
}

/// The entries of the tools of a list, one after another.
pub open spec fn listing_entries(tools: Seq<SecurityToolView>, with_tags: bool) -> Seq<char>
    decreases tools.len(),
{
    if tools.len() == 0 {
        Seq::empty()
    } else {
        listing_entries(tools.drop_last(), with_tags) + listing_entry(tools.last(), with_tags)
    }
}

/// The listing of a non-empty list of tools: how many there are, then
/// their entries.
pub open spec fn listing_text(tools: Seq<SecurityToolView>, with_tags: bool) -> Seq<char> {
    "Found "@ + decimal(tools.len()) + " security tools:\n\n"@ + listing_entries(tools, with_tags)
}

/// The tools left by an optional category filter.
pub open spec fn narrowed(tools: Seq<SecurityToolView>, category: Option<SecurityCategory>) -> Seq<
    SecurityToolView,
> {
    match category {
        Some(c) => in_category(tools, c),
        None => tools,
    }
}

/// The category that the parameters of a list call ask for: present when
/// the text under `category` is the label of a category.
pub open spec fn category_at(params: Value) -> Option<SecurityCategory> {
    match text_at(params, "category"@) {
        Some(label) => category_named(label),
        None => None,
    }
}

/// The output of the plain list operation.
pub open spec fn list_output(tools: Seq<SecurityToolView>, category: Option<SecurityCategory>) -> ToolOutputView {
    let shown = narrowed(tools, category);
    if shown.len() == 0 {
        success_with("No security tools found in the registry."@)
    } else {
        success_with(listing_text(shown, false))
    }
}

/// The output of the list operation of a capability view.
pub open spec fn tagged_list_output(
    tools: Seq<SecurityToolView>,
    wanted: Seq<Seq<char>>,
    category: Option<SecurityCategory>,
) -> ToolOutputView {
    let shown = narrowed(visible_tools(tools, wanted), category);
    if shown.len() == 0 {
        success_with("No security tools found matching tags: "@ + debug_list_text(wanted))
    } else {
        success_with(listing_text(shown, true))
    }
}

/// The error for a run call that names no tool.
pub open spec fn missing_tool_id() -> ErrorView {
    ErrorView::InvalidInput("Missing 'tool_id' parameter"@)
}

/// The result of the plain run operation: a call without a tool id is a
/// caller-input error, any other call is dispatched by id.
pub open spec fn run_of(
    tools: Seq<SecurityToolView>,
    tool_id: Option<Seq<char>>,
    args: Seq<Seq<char>>,
) -> Result<LaunchView, ErrorView> {
    match tool_id {
        None => Err(missing_tool_id()),
        Some(id) => dispatch_of(tools, id, args),
    }
}

/// The message with which a capability view refuses a tool outside it.
pub open spec fn not_available_message(id: Seq<char>, wanted: Seq<Seq<char>>) -> Seq<char> {
    "Tool '"@ + id + "' is not available with current tags: "@ + debug_list_text(wanted)
        + ". Use list_security_tools to see available tools."@
}

/// The result of the run operation of a capability view: a call without a
/// tool id is a caller-input error; a tool that is not visible under the
/// tags is refused with a failed output, registered or not; a visible tool
/// is run.
pub open spec fn tagged_run_of(
    tools: Seq<SecurityToolView>,
    wanted: Seq<Seq<char>>,
    tool_id: Option<Seq<char>>,
    args: Seq<Seq<char>>,
) -> Result<ToolStepView, ErrorView> {
    match tool_id {
        None => Err(missing_tool_id()),
        Some(id) => if has_id(visible_tools(tools, wanted), id) {
            Ok(ToolStepView::Launch(launch_of(tool_with_id(tools, id), args)))
        } else {
            Ok(ToolStepView::Reply(failure_with(not_available_message(id, wanted))))
        },
    }
}

/// Borrows the strings of a list.
pub fn as_strs(items: &Vec<String>) -> (res: Vec<&str>)
    ensures
        slice_texts(res@) == texts(items@),
{
    let mut out: Vec<&str> = Vec::new();
    let mut i: usize = 0;
    while i < items.len()
        invariant
            i <= items.len(),
            slice_texts(out@) == texts(items@).take(i as int),
        decreases items.len() - i,
    {
        let ghost before = out@;
        let item = items[i].as_str();
        out.push(item);
        proof {
            assert(slice_texts(before.push(item)) =~= slice_texts(before).push(item@));
            assert(texts(items@).take(i as int + 1) =~= texts(items@).take(i as int).push(
                items@[i as int]@,
            ));
        }
        i = i + 1;
    }
    proof {
        assert(texts(items@).take(items@.len() as int) =~= texts(items@));
    }
    out
}

/// Owned copies of the strings of a slice.
pub fn to_strings(items: &[&str]) -> (res: Vec<String>)
    ensures
        texts(res@) == slice_texts(items@),
{
    let mut out: Vec<String> = Vec::new();
    let mut i: usize = 0;
    while i < items.len()
        invariant
            i <= items.len(),
            texts(out@) == slice_texts(items@).take(i as int),
        decreases items.len() - i,
    {
        let ghost before = out@;
        let item = String::from_str(items[i]);
        out.push(item);
        proof {
            crate::text::lemma_texts_push(before, item);
            assert(slice_texts(items@).take(i as int + 1) =~= slice_texts(items@).take(
                i as int,
            ).push(items@[i as int]@));
        }
        i = i + 1;
    }
    proof {
        assert(slice_texts(items@).take(items@.len() as int) =~= slice_texts(items@));
    }
    out
}

/// Keeps the tools of a category.
fn keep_category<'a>(tools: Vec<&'a SecurityTool>, category: SecurityCategory) -> (res: Vec<
    &'a SecurityTool,
>)
    ensures
        tool_ref_views(res@) == in_category(tool_ref_views(tools@), category),
{
    let ghost views = tool_ref_views(tools@);
    let mut out: Vec<&SecurityTool> = Vec::new();
    let mut i: usize = 0;
    while i < tools.len()
        invariant
            i <= tools.len(),
            views == tool_ref_views(tools@),
            tool_ref_views(out@) == in_category(views.take(i as int), category),
        decreases tools.len() - i,
    {
        let ghost before = out@;
        let tool = tools[i];
        proof {
            lemma_category_step(views, category, i as int);
            assert(views[i as int] == tool@);
        }
        if tool.category == category {
            out.push(tool);
            proof {
                assert(tool_ref_views(before.push(tool)) =~= tool_ref_views(before).push(tool@));
            }
        }
        i = i + 1;
    }
    proof {
        assert(views.take(views.len() as int) =~= views);
    }
    out
}

/// Writes the entry of one tool in a listing.
fn listing_entry_string(tool: &SecurityTool, with_tags: bool) -> (res: String)
    ensures
        res@ == listing_entry(tool@, with_tags),
{
    let tags = if with_tags && tool.tags.len() > 0 {
        String::from_str("\n  Tags: ").concat(join(&tool.tags, ", ").as_str())
    } else {
        String::new()
    };
    String::from_str("• ").concat(tool.name.as_str()).concat(" (id: '").concat(
        tool.id.as_str(),
    ).concat("')\n  Category: ").concat(tool.category.as_str()).concat("\n  Description: ").concat(
        tool.description.as_str(),
    ).concat("\n  Sudo: ").concat(bool_str(tool.requires_sudo)).concat(tags.as_str()).concat("\n\n")
}

/// Writes the listing of a non-empty list of tools.
fn listing_string(tools: &Vec<&SecurityTool>, with_tags: bool) -> (res: String)
    ensures
        res@ == listing_text(tool_ref_views(tools@), with_tags),
{
    let ghost views = tool_ref_views(tools@);
    let count: u64 = tools.len() as u64;
    let mut out = String::from_str("Found ").concat(decimal_string(count).as_str()).concat(
        " security tools:\n\n",
    );
    let ghost head = out@;
    let mut i: usize = 0;
    proof {
        assert(views.take(0) =~= Seq::<SecurityToolView>::empty());
    }
    while i < tools.len()
        invariant
            i <= tools.len(),
            views == tool_ref_views(tools@),
            out@ == head + listing_entries(views.take(i as int), with_tags),
        decreases tools.len() - i,
    {
        let entry = listing_entry_string(tools[i], with_tags);
        out.append(entry.as_str());
        proof {
            assert(views.take(i as int + 1).drop_last() =~= views.take(i as int));
            assert(views.take(i as int + 1).last() == tools@[i as int]@);
            assert(head + listing_entries(views.take(i as int), with_tags) + entry@ =~= head
                + listing_entries(views.take(i as int + 1), with_tags));
        }
        i = i + 1;
    }
    proof {
        assert(views.take(views.len() as int) =~= views);
    }
    out
}

/// Tool that lets an agent list every registered security tool.
pub struct ListSecurityTools {
    registry: Arc<SecurityToolRegistry>,
}

impl ListSecurityTools {
    /// The tools that this operation lists.
    pub closed spec fn tools(&self) -> Seq<SecurityToolView> {
        (*self.registry)@
    }

    /// The list operation over a registry.
    pub fn new(registry: Arc<SecurityToolRegistry>) -> (res: ListSecurityTools)
        ensures
            res.tools() == (*registry)@,
    {
        ListSecurityTools { registry }
    }

    /// The id under which agents call this operation.
    pub fn id(&self) -> (res: &'static str)
        ensures
            res@ == "list_security_tools"@,
    {
        "list_security_tools"
    }

    /// The name of this operation.
    pub fn name(&self) -> (res: &'static str)
        ensures
            res@ == "List Security Tools"@,
    {
        "List Security Tools"
    }

    /// What this operation does, in words for the model.
    pub fn description(&self) -> (res: &'static str)
        ensures
            res@
                == "List all available security tools that can be executed. Returns tool names, IDs, descriptions, and categories."@,
    {
        "List all available security tools that can be executed. Returns tool names, IDs, descriptions, and categories."
    }

    /// Lists the registered tools, all of them or those of one category.
    pub fn list(&self, category: Option<SecurityCategory>) -> (res: ToolOutput)
        ensures
            res@ == list_output(self.tools(), category),
    {
        let tools = match category {
            Some(c) => self.registry.by_category(c),
            None => self.registry.tools(),
        };
        if tools.len() == 0 {
            return ToolOutput::success(String::from_str("No security tools found in the registry."));
        }
        ToolOutput::success(listing_string(&tools, false))
    }

    /// Answers a list call. The parameters may name a category under
    /// `category`; anything else there means no filter. Listing cannot fail.
    pub fn execute(&self, params: &Value) -> (res: Result<ToolOutput, Error>)
        ensures
            res matches Ok(output) && output@ == list_output(self.tools(), category_at(*params)),
    {
        let category = match string_param(params, "category") {
            Some(label) => SecurityCategory::parse(label.as_str()),
            None => None,
        };
        Ok(self.list(category))
    }
}

/// Tool that lets an agent run any registered security tool.
pub struct RunSecurityTool {
    registry: Arc<SecurityToolRegistry>,
}

impl RunSecurityTool {
    /// The tools that this operation runs.
    pub closed spec fn tools(&self) -> Seq<SecurityToolView> {
        (*self.registry)@
    }

    /// The run operation over a registry.
    pub fn new(registry: Arc<SecurityToolRegistry>) -> (res: RunSecurityTool)
        ensures
            res.tools() == (*registry)@,
    {
        RunSecurityTool { registry }
    }

    /// The id under which agents call this operation.
    pub fn id(&self) -> (res: &'static str)
        ensures
            res@ == "run_security_tool"@,
    {
        "run_security_tool"
    }

    /// The name of this operation.
    pub fn name(&self) -> (res: &'static str)
        ensures
            res@ == "Run Security Tool"@,
    {
        "Run Security Tool"
    }

    /// What this operation does, in words for the model.
    pub fn description(&self) -> (res: &'static str)
        ensures
            res@
                == "Execute a security tool from the registry by its ID. Use list_security_tools first to see available tools and their IDs."@,
    {
        "Execute a security tool from the registry by its ID. Use list_security_tools first to see available tools and their IDs."
    }

    /// Runs the tool registered under `tool_id` with the given arguments.
    pub fn run(&self, tool_id: Option<&str>, args: &[String]) -> (res: Result<Launch, Error>)
        ensures
            dispatch_view(res) == run_of(
                self.tools(),
                match tool_id {
                    Some(id) => Some(id@),
                    None => None,
                },
                texts(args@),
            ),
    {
        match tool_id {
            None => Err(Error::InvalidInput(String::from_str("Missing 'tool_id' parameter"))),
            Some(id) => self.registry.execute(id, args),
        }
    }

    /// Answers a run call. The parameters name the tool under `tool_id`
    /// and may hold its arguments, a list of strings, under `args`.
    pub fn execute(&self, params: &Value) -> (res: Result<Launch, Error>)
        ensures
            dispatch_view(res) == run_of(
                self.tools(),
                text_at(*params, "tool_id"@),
                texts_at(*params, "args"@),
            ),
    {
        let tool_id = string_param(params, "tool_id");
        let args = string_list_param(params, "args");
        match &tool_id {
            Some(id) => self.run(Some(id.as_str()), args.as_slice()),
            None => self.run(None, args.as_slice()),
        }
    }
}

/// List operation of a capability view.
pub struct TaggedListSecurityTools {
    registry: Arc<SecurityToolRegistry>,
    tags: Vec<String>,
}

impl TaggedListSecurityTools {
    /// The tools of the underlying registry.
    pub closed spec fn tools(&self) -> Seq<SecurityToolView> {
        (*self.registry)@
    }

    /// The tags of the view.
    pub closed spec fn wanted(&self) -> Seq<Seq<char>> {
        texts(self.tags@)
    }

    /// The list operation over a registry, scoped to the tags.
    pub fn new(registry: Arc<SecurityToolRegistry>, tags: Vec<String>) -> (res:
        TaggedListSecurityTools)
        ensures
            res.tools() == (*registry)@,
            res.wanted() == texts(tags@),
    {
        TaggedListSecurityTools { registry, tags }
    }

    /// The id under which agents call this operation.
    pub fn id(&self) -> (res: &'static str)
        ensures
            res@ == "list_security_tools"@,
    {
        "list_security_tools"
    }

    /// The name of this operation.
    pub fn name(&self) -> (res: &'static str)
        ensures
            res@ == "List Security Tools"@,
    {
        "List Security Tools"
    }

    /// What this operation does, in words for the model.
    pub fn description(&self) -> (res: &'static str)
        ensures
            res@
                == "List available security tools that can be executed. Returns tool names, IDs, descriptions, categories, and tags."@,
    {
        "List available security tools that can be executed. Returns tool names, IDs, descriptions, categories, and tags."
    }

    /// Lists the tools that are visible under the tags of the view, all of
    /// them or those of one category.
    pub fn list(&self, category: Option<SecurityCategory>) -> (res: ToolOutput)
        ensures
            res@ == tagged_list_output(self.tools(), self.wanted(), category),
    {
        let tag_refs = as_strs(&self.tags);
        let visible = self.registry.by_tags(tag_refs.as_slice());
        let tools = match category {
            Some(c) => keep_category(visible, c),
            None => visible,
        };
        if tools.len() == 0 {
            return ToolOutput::success(
                String::from_str("No security tools found matching tags: ").concat(
                    debug_list(&self.tags).as_str(),
                ),
            );
        }
        ToolOutput::success(listing_string(&tools, true))
    }

    /// Answers a list call. The parameters may name a category under
    /// `category`; anything else there means no filter. Listing cannot fail.
    pub fn execute(&self, params: &Value) -> (res: Result<ToolOutput, Error>)
        ensures
            res matches Ok(output) && output@ == tagged_list_output(
                self.tools(),
                self.wanted(),
                category_at(*params),
            ),
    {
        let category = match string_param(params, "category") {
            Some(label) => SecurityCategory::parse(label.as_str()),
            None => None,
        };
        Ok(self.list(category))
    }
}

/// Run operation of a capability view.
pub struct TaggedRunSecurityTool {
    registry: Arc<SecurityToolRegistry>,
    tags: Vec<String>,
}

impl TaggedRunSecurityTool {
    /// The tools of the underlying registry.
    pub closed spec fn tools(&self) -> Seq<SecurityToolView> {
        (*self.registry)@
    }

    /// The tags of the view.
    pub closed spec fn wanted(&self) -> Seq<Seq<char>> {
        texts(self.tags@)
    }

    /// The run operation over a registry, scoped to the tags.
    pub fn new(registry: Arc<SecurityToolRegistry>, tags: Vec<String>) -> (res:
        TaggedRunSecurityTool)
        ensures
            res.tools() == (*registry)@,
            res.wanted() == texts(tags@),
    {
        TaggedRunSecurityTool { registry, tags }
    }

    /// The id under which agents call this operation.
    pub fn id(&self) -> (res: &'static str)
        ensures
            res@ == "run_security_tool"@,
    {
        "run_security_tool"
    }

    /// The name of this operation.
    pub fn name(&self) -> (res: &'static str)
        ensures
            res@ == "Run Security Tool"@,
    {
        "Run Security Tool"
    }

    /// What this operation does, in words for the model.
    pub fn description(&self) -> (res: &'static str)
        ensures
            res@
                == "Execute a security tool from the registry by its ID. Use list_security_tools first to see available tools and their IDs."@,
    {
        "Execute a security tool from the registry by its ID. Use list_security_tools first to see available tools and their IDs."
    }

    /// Whether a tool with the id is visible under the tags of the view
    /// right now. The visible tools are computed anew on every call.
    pub fn allows(&self, tool_id: &str) -> (res: bool)
        ensures
            res == has_id(visible_tools(self.tools(), self.wanted()), tool_id@),
    {
        let tag_refs = as_strs(&self.tags);
        let allowed = self.registry.by_tags(tag_refs.as_slice());
        let ghost shown = tool_ref_views(allowed@);
        let mut i: usize = 0;
        while i < allowed.len()
            invariant
                i <= allowed.len(),
                shown == tool_ref_views(allowed@),
                shown == visible_tools(self.tools(), self.wanted()),
                forall|k: int| 0 <= k < i ==> (#[trigger] shown[k]).id != tool_id@,
            decreases allowed.len() - i,
        {
            proof {
                assert(shown[i as int] == allowed@[i as int]@);
            }
            if same_text(allowed[i].id.as_str(), tool_id) {
                return true;
            }
            i = i + 1;
        }
        false
    }

    /// Runs the tool registered under `tool_id` if the view allows it.
    pub fn run(&self, tool_id: Option<&str>, args: &[String]) -> (res: Result<ToolStep, Error>)
        ensures
            step_view(res) == tagged_run_of(
                self.tools(),
                self.wanted(),
                match tool_id {
                    Some(id) => Some(id@),
                    None => None,
                },
                texts(args@),
            ),
    {
        match tool_id {
            None => Err(Error::InvalidInput(String::from_str("Missing 'tool_id' parameter"))),
            Some(id) => {
                if !self.allows(id) {
                    let message = String::from_str("Tool '").concat(id).concat(
                        "' is not available with current tags: ",
                    ).concat(debug_list(&self.tags).as_str()).concat(
                        ". Use list_security_tools to see available tools.",
                    );
                    return Ok(ToolStep::Reply(ToolOutput::failure(message)));
                }
                proof {
                    lemma_visible_id_is_registered(self.tools(), self.wanted(), id@);
                }
                match self.registry.execute(id, args) {
                    Ok(launch) => Ok(ToolStep::Launch(launch)),
                    Err(e) => Err(e),
                }
            },
        }
    }

    /// Dispatches the tool call that a loop selected: the call goes through
    /// the view like any other, so a loop can run only what its view shows.
    pub fn dispatch(&self, call: &ToolCall) -> (res: Result<ToolStep, Error>)
        ensures
            step_view(res) == tagged_run_of(
                self.tools(),
                self.wanted(),
                Some(call@.tool_id),
                call@.args,
            ),
    {
        self.run(Some(call.tool_id.as_str()), call.args.as_slice())
    }

    /// Answers a run call. The parameters name the tool under `tool_id`
    /// and may hold its arguments, a list of strings, under `args`.
    pub fn execute(&self, params: &Value) -> (res: Result<ToolStep, Error>)
        ensures
            step_view(res) == tagged_run_of(
                self.tools(),
                self.wanted(),
                text_at(*params, "tool_id"@),
                texts_at(*params, "args"@),
            ),
    {
        let tool_id = string_param(params, "tool_id");
        let args = string_list_param(params, "args");
        match &tool_id {
            Some(id) => self.run(Some(id.as_str()), args.as_slice()),
            None => self.run(None, args.as_slice()),
        }
    }
}

/// A capability view: a registry and the tags that scope it. It holds no
/// copy of the tools; what is visible is computed from the tags on demand.
pub struct TaggedSecurityTools {
    registry: Arc<SecurityToolRegistry>,
    tags: Vec<String>,
}

impl TaggedSecurityTools {
    /// The tools of the underlying registry.
    pub closed spec fn tools(&self) -> Seq<SecurityToolView> {
        (*self.registry)@
    }

    /// The tags of the view.
    pub closed spec fn wanted(&self) -> Seq<Seq<char>> {
        texts(self.tags@)
    }

    /// A view of the registry under the tags. The reserved tag `all`
    /// makes every tool visible.
    pub fn new(registry: Arc<SecurityToolRegistry>, tags: &[&str]) -> (res: TaggedSecurityTools)
        ensures
            res.tools() == (*registry)@,
            res.wanted() == slice_texts(tags@),
    {
        TaggedSecurityTools { registry, tags: to_strings(tags) }
    }

    /// The tools that are visible under the tags of the view.
    pub fn filtered_tools(&self) -> (res: Vec<&SecurityTool>)
        ensures
            tool_ref_views(res@) == visible_tools(self.tools(), self.wanted()),
    {
        let tag_refs = as_strs(&self.tags);
        self.registry.by_tags(tag_refs.as_slice())
    }

    /// The two operations of the view, list and run, over the same
    /// registry and the same tags.
    pub fn create_tools(&self) -> (res: (TaggedListSecurityTools, TaggedRunSecurityTool))
        ensures
            res.0.tools() == self.tools(),
            res.0.wanted() == self.wanted(),
            res.1.tools() == self.tools(),
            res.1.wanted() == self.wanted(),
    {
        (
            TaggedListSecurityTools::new(share(&self.registry), copy_texts(&self.tags)),
            TaggedRunSecurityTool::new(share(&self.registry), copy_texts(&self.tags)),
        )
    }

    /// The tags of the view.
    pub fn tags(&self) -> (res: &[String])
        ensures
            texts(res@) == self.wanted(),
    {
        self.tags.as_slice()
    }
}

/// A tool that is visible under some tags is registered.
pub proof fn lemma_visible_id_is_registered(
    tools: Seq<SecurityToolView>,
    wanted: Seq<Seq<char>>,
    id: Seq<char>,
)
    requires
        has_id(visible_tools(tools, wanted), id),
    ensures
        has_id(tools, id),
{
    let shown = visible_tools(tools, wanted);
    let k = choose|k: int| 0 <= k < shown.len() && (#[trigger] shown[k]).id == id;
    assert(shown.contains(shown[k]));
    lemma_visible_tools_members(tools, wanted, shown[k]);
    let m = choose|m: int| 0 <= m < tools.len() && tools[m] == shown[k];
    assert(tools[m].id == id);
}

/// The list and the run operation of a view agree on membership: a tool
/// is run exactly when a tool with its id is among the visible tools, which
/// is what the list operation shows.
pub proof fn lemma_list_and_run_agree(
    tools: Seq<SecurityToolView>,
    wanted: Seq<Seq<char>>,
    id: Seq<char>,
    args: Seq<Seq<char>>,
)
    ensures
        tagged_run_of(tools, wanted, Some(id), args) matches Ok(ToolStepView::Launch(_)) <==> has_id(
            visible_tools(tools, wanted),
            id,
        ),
{
}

/// The capability boundary: running a registered tool whose tags are not
/// among the tags of the view is refused with a failed output, although its
/// id is valid and the registry holds it.
pub proof fn lemma_run_outside_view_is_refused(
    tools: Seq<SecurityToolView>,
    wanted: Seq<Seq<char>>,
    i: int,
    args: Seq<Seq<char>>,
)
    requires
        distinct_ids(tools),
        0 <= i < tools.len(),
        !visible(tools[i], wanted),
    ensures
        tagged_run_of(tools, wanted, Some(tools[i].id), args) == Ok::<ToolStepView, ErrorView>(
            ToolStepView::Reply(failure_with(not_available_message(tools[i].id, wanted))),
        ),
{
    lemma_hidden_tool_not_visible(tools, wanted, i);
}

} // verus!
