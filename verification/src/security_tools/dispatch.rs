//! Dispatch by id, and the description of a registry for a model.

use vstd::prelude::*;
use vstd::string::*;
use crate::error::{Error, ErrorView};
use crate::security_tools::category::SecurityCategory;
use crate::security_tools::descriptor::{
    launch_of, Launch, SecurityTool, SecurityToolView, ToolArg, ToolArgView,
};
use crate::security_tools::matching::in_category;
use crate::security_tools::registry::{
    has_id, ids_of, position_of, tool_ref_views, SecurityToolRegistry,
};
use crate::text::{debug_list, debug_list_text, join, joined, lemma_texts_push, texts};

verus! {

/// How a truth value is written.
pub open spec fn bool_text(b: bool) -> Seq<char> {
    if b {
        "true"@
    } else {
        "false"@
    }
}

/// How a truth value is written.
pub fn bool_str(b: bool) -> (res: &'static str)
    ensures
        res@ == bool_text(b),
{
    if b {
        "true"
    } else {
        "false"
    }
}

/// The line that describes one argument of a tool.
pub open spec fn arg_line(arg: ToolArgView) -> Seq<char> {
    "  - "@ + arg.name + (if arg.required {
        " (required): "@
    } else {
        " (optional): "@
    }) + arg.description
}

/// The lines that describe the arguments of a tool.
pub open spec fn arg_lines(args: Seq<ToolArgView>) -> Seq<Seq<char>> {
    args.map_values(|a: ToolArgView| arg_line(a))
}

/// The block that describes the arguments of a tool; nothing for a tool
/// without declared arguments.
pub open spec fn args_block(args: Seq<ToolArgView>) -> Seq<char> {
    if args.len() == 0 {
        Seq::empty()
    } else {
        "\n  Arguments:\n"@ + joined(arg_lines(args), "\n"@)
    }
}

/// The block that describes one tool.
pub open spec fn tool_block(tool: SecurityToolView) -> Seq<char> {
    "• "@ + tool.name + " (id: "@ + tool.id + ")\n  "@ + tool.description + args_block(tool.args)
        + "\n  Requires sudo: "@ + bool_text(tool.requires_sudo)
}

/// The blocks that describe the tools of a list.
pub open spec fn tool_blocks(tools: Seq<SecurityToolView>) -> Seq<Seq<char>> {
    tools.map_values(|t: SecurityToolView| tool_block(t))
}

/// The heading of a category's section.
pub open spec fn category_heading(category: SecurityCategory) -> Seq<char> {
    "\n=== "@ + category.label() + " Tools ==="@
}

/// The section of a category: its heading and the blocks of its tools, or
/// nothing when the category has no tool.
pub open spec fn category_section(tools: Seq<SecurityToolView>, category: SecurityCategory) -> Seq<
    Seq<char>,
> {
    let members = in_category(tools, category);
    if members.len() == 0 {
        Seq::empty()
    } else {
        seq![category_heading(category)] + tool_blocks(members)
    }
}

/// The pieces of the description of a registry: one section per category
/// that has tools, the categories in the order of their declaration.
pub open spec fn description_pieces(tools: Seq<SecurityToolView>) -> Seq<Seq<char>> {
    category_section(tools, SecurityCategory::Network) + category_section(
        tools,
        SecurityCategory::Process,
    ) + category_section(tools, SecurityCategory::Rootkit) + category_section(
        tools,
        SecurityCategory::Hardening,
    ) + category_section(tools, SecurityCategory::Filesystem) + category_section(
        tools,
        SecurityCategory::General,
    )
}

/// The description of a registry for a model.
pub open spec fn descriptions_text(tools: Seq<SecurityToolView>) -> Seq<char> {
    joined(description_pieces(tools), "\n"@)
}

/// The tool of the list that has the id. Meaningful when the list holds
/// such a tool; with unique ids there is only one.
pub open spec fn tool_with_id(tools: Seq<SecurityToolView>, id: Seq<char>) -> SecurityToolView {
    tools[position_of(tools, id)]
}

/// The message of the error for an id that is not registered: it names the
/// id and lists the ids that are.
pub open spec fn not_found_message(id: Seq<char>, known: Seq<Seq<char>>) -> Seq<char> {
    "Tool '"@ + id + "' not found. Available tools: "@ + debug_list_text(known)
}

/// What dispatching `id` with `args` gives: the process to start for the
/// tool registered under the id, or the error that names the known ids.
pub open spec fn dispatch_of(tools: Seq<SecurityToolView>, id: Seq<char>, args: Seq<Seq<char>>) -> Result<
    crate::security_tools::descriptor::LaunchView,
    ErrorView,
> {
    if has_id(tools, id) {
        Ok(launch_of(tool_with_id(tools, id), args))
    } else {
        Err(ErrorView::ToolExecution { tool_id: id, message: not_found_message(id, ids_of(tools)) })
    }
}

/// The views of a dispatch result.
pub open spec fn dispatch_view(res: Result<Launch, Error>) -> Result<
    crate::security_tools::descriptor::LaunchView,
    ErrorView,
> {
    match res {
        Ok(launch) => Ok(launch@),
        Err(e) => Err(e@),
    }
}

/// Writes the line that describes one argument of a tool.
fn arg_line_string(arg: &ToolArg) -> (res: String)
    ensures
        res@ == arg_line(arg@),
{
    let marker = if arg.required {
        " (required): "
    } else {
        " (optional): "
    };
    String::from_str("  - ").concat(arg.name.as_str()).concat(marker).concat(
        arg.description.as_str(),
    )
}

/// Writes the block that describes the arguments of a tool.
fn args_block_string(args: &Vec<ToolArg>) -> (res: String)
    ensures
        res@ == args_block(crate::security_tools::descriptor::arg_views(args@)),
{
    let ghost views = crate::security_tools::descriptor::arg_views(args@);
    if args.len() == 0 {
        return String::new();
    }
    let mut lines: Vec<String> = Vec::new();
    let mut i: usize = 0;
    while i < args.len()
        invariant
            i <= args.len(),
            views == crate::security_tools::descriptor::arg_views(args@),
            texts(lines@) == arg_lines(views).take(i as int),
        decreases args.len() - i,
    {
        let ghost before = lines@;
        let line = arg_line_string(&args[i]);
        lines.push(line);
        proof {
            lemma_texts_push(before, line);
            assert(arg_lines(views).take(i as int + 1) =~= arg_lines(views).take(i as int).push(
                arg_line(views[i as int]),
            ));
        }
        i = i + 1;
    }
    proof {
        assert(arg_lines(views).take(views.len() as int) =~= arg_lines(views));
    }
    String::from_str("\n  Arguments:\n").concat(join(&lines, "\n").as_str())
}

/// Writes the block that describes one tool.
fn tool_block_string(tool: &SecurityTool) -> (res: String)
    ensures
        res@ == tool_block(tool@),
{
    let args = args_block_string(&tool.args);
    String::from_str("• ").concat(tool.name.as_str()).concat(" (id: ").concat(
        tool.id.as_str(),
    ).concat(")\n  ").concat(tool.description.as_str()).concat(args.as_str()).concat(
        "\n  Requires sudo: ",
    ).concat(bool_str(tool.requires_sudo))
}

impl SecurityToolRegistry {
    /// Appends the section of one category to the pieces of a description.
    fn push_section(&self, category: SecurityCategory, pieces: &mut Vec<String>)
        ensures
            texts(final(pieces)@) == texts(old(pieces)@) + category_section(self@, category),
    {
        let ghost start = texts(pieces@);
        let members = self.by_category(category);
        let ghost views = tool_ref_views(members@);
        if members.len() == 0 {
            proof {
                assert(start + category_section(self@, category) =~= start);
            }
            return ;
        }
        let ghost before = pieces@;
        let heading = String::from_str("\n=== ").concat(category.as_str()).concat(" Tools ===");
        pieces.push(heading);
        proof {
            lemma_texts_push(before, heading);
        }
        let ghost headed = start.push(category_heading(category));
        let mut i: usize = 0;
        while i < members.len()
            invariant
                i <= members.len(),
                views == tool_ref_views(members@),
                texts(pieces@) == headed + tool_blocks(views).take(i as int),
            decreases members.len() - i,
        {
            let ghost before = pieces@;
            let block = tool_block_string(members[i]);
            pieces.push(block);
            proof {
                lemma_texts_push(before, block);
                assert(views[i as int] == members@[i as int]@);
                assert((headed + tool_blocks(views).take(i as int)).push(block@) =~= headed
                    + tool_blocks(views).take(i as int + 1));
            }
            i = i + 1;
        }
        proof {
            assert(tool_blocks(views).take(views.len() as int) =~= tool_blocks(views));
            assert(headed + tool_blocks(views) =~= start + (seq![category_heading(category)]
                + tool_blocks(views)));
        }
    }

    /// A description of all tools for a model: the tools grouped by
    /// category, each with its id, its description, its arguments and
    /// whether it needs elevated privilege.
    pub fn tool_descriptions(&self) -> (res: String)
        ensures
            res@ == descriptions_text(self@),
    {
        let mut pieces: Vec<String> = Vec::new();
        proof {
            assert(texts(pieces@) =~= Seq::<Seq<char>>::empty());
        }
        self.push_section(SecurityCategory::Network, &mut pieces);
        self.push_section(SecurityCategory::Process, &mut pieces);
        self.push_section(SecurityCategory::Rootkit, &mut pieces);
        self.push_section(SecurityCategory::Hardening, &mut pieces);
        self.push_section(SecurityCategory::Filesystem, &mut pieces);
        self.push_section(SecurityCategory::General, &mut pieces);
        proof {
            assert(texts(pieces@) =~= description_pieces(self@));
        }
        join(&pieces, "\n")
    }

    /// The ids of the registered tools, in registration order.
    pub fn ids(&self) -> (res: Vec<String>)
        ensures
            texts(res@) == ids_of(self@),
    {
        let all = self.tools();
        let mut out: Vec<String> = Vec::new();
        let mut i: usize = 0;
        while i < all.len()
            invariant
                i <= all.len(),
                tool_ref_views(all@) == self@,
                texts(out@) == ids_of(self@).take(i as int),
            decreases all.len() - i,
        {
            let ghost before = out@;
            let id = all[i].id.clone();
            out.push(id);
            proof {
                lemma_texts_push(before, id);
                assert(self@[i as int] == all@[i as int]@);
                assert(ids_of(self@).take(i as int + 1) =~= ids_of(self@).take(i as int).push(
                    self@[i as int].id,
                ));
            }
            i = i + 1;
        }
        proof {
            assert(ids_of(self@).take(self@.len() as int) =~= ids_of(self@));
        }
        out
    }

    /// Dispatches a tool by id: prepares the process to start for the tool
    /// registered under `tool_id`, with the caller's arguments passed on
    /// unchanged. An id that is not registered gives the error that names
    /// it and lists the ids that are.
    pub fn execute(&self, tool_id: &str, args: &[String]) -> (res: Result<Launch, Error>)
        ensures
            dispatch_view(res) == dispatch_of(self@, tool_id@, texts(args@)),
    {
        match self.get(tool_id) {
            Some(tool) => {
                proof {
                    let k = choose|k: int| 0 <= k < self@.len() && self@[k] == tool@;
                    let p = position_of(self@, tool_id@);
                    if p != k {
                        assert(self@[p].id != self@[k].id);
                    }
                }
                Ok(tool.execute(args))
            },
            None => {
                let known = self.ids();
                let message = String::from_str("Tool '").concat(tool_id).concat(
                    "' not found. Available tools: ",
                ).concat(debug_list(&known).as_str());
                Err(Error::tool_execution(tool_id, message))
            },
        }
    }
}

/// An id that is not registered is never dispatched: the result is the
/// error that names the id and lists the registered ids.
pub proof fn lemma_unknown_id_is_refused(
    tools: Seq<SecurityToolView>,
    id: Seq<char>,
    args: Seq<Seq<char>>,
)
    requires
        !has_id(tools, id),
    ensures
        dispatch_of(tools, id, args) == Err::<crate::security_tools::descriptor::LaunchView, ErrorView>(
            ErrorView::ToolExecution { tool_id: id, message: not_found_message(id, ids_of(tools)) },
        ),
{
}

} // verus!
