//! Tool descriptors: what is known of one tool once it has been discovered,
//! and the process that has to be started to run it.

use vstd::prelude::*;
use vstd::string::*;
use crate::security_tools::category::SecurityCategory;
use crate::text::{
    copy_opt_text, copy_texts, decimal, decimal_string, lemma_texts_push, opt_text, texts,
};

verus! {

/// Argument definition for a tool.
#[derive(Debug)]
pub struct ToolArg {
    pub name: String,
    pub description: String,
    pub required: bool,
    pub default: Option<String>,
}

/// The mathematical value of a [`ToolArg`].
pub ghost struct ToolArgView {
    pub name: Seq<char>,
    pub description: Seq<char>,
    pub required: bool,
    pub default: Option<Seq<char>>,
}

impl View for ToolArg {
    type V = ToolArgView;

    open spec fn view(&self) -> ToolArgView {
        ToolArgView {
            name: self.name@,
            description: self.description@,
            required: self.required,
            default: opt_text(self.default),
        }
    }
}

impl Clone for ToolArg {
    fn clone(&self) -> (res: ToolArg)
        ensures
            res@ == self@,
    {
        ToolArg {
            name: self.name.clone(),
            description: self.description.clone(),
            required: self.required,
            default: copy_opt_text(&self.default),
        }
    }
}

/// The views of a list of argument definitions.
pub open spec fn arg_views(v: Seq<ToolArg>) -> Seq<ToolArgView> {
    v.map_values(|a: ToolArg| a@)
}

/// A copy of a list of argument definitions.
pub fn copy_args(items: &Vec<ToolArg>) -> (res: Vec<ToolArg>)
    ensures
        arg_views(res@) == arg_views(items@),
{
    let mut out: Vec<ToolArg> = Vec::new();
    let mut i: usize = 0;
    while i < items.len()
        invariant
            i <= items.len(),
            arg_views(out@) == arg_views(items@).take(i as int),
        decreases items.len() - i,
    {
        let ghost before = out@;
        let item = items[i].clone();
        out.push(item);
        proof {
            assert(arg_views(before.push(item)) =~= arg_views(before).push(item@));
            assert(arg_views(items@).take(i as int + 1) =~= arg_views(items@).take(i as int).push(
                items@[i as int]@,
            ));
        }
        i = i + 1;
    }
    proof {
        assert(arg_views(items@).take(items@.len() as int) =~= arg_views(items@));
    }
    out
}

/// Metadata that a tool's sidecar file declares.
#[derive(Debug)]
pub struct ToolMetadata {
    pub name: String,
    pub description: String,
    pub category: SecurityCategory,
    pub tags: Vec<String>,
    pub args: Vec<ToolArg>,
    pub requires_sudo: bool,
    pub timeout_secs: Option<u64>,
}

/// The mathematical value of a [`ToolMetadata`].
pub ghost struct ToolMetadataView {
    pub name: Seq<char>,
    pub description: Seq<char>,
    pub category: SecurityCategory,
    pub tags: Seq<Seq<char>>,
    pub args: Seq<ToolArgView>,
    pub requires_sudo: bool,
    pub timeout_secs: Option<u64>,
}

impl View for ToolMetadata {
    type V = ToolMetadataView;

    open spec fn view(&self) -> ToolMetadataView {
        ToolMetadataView {
            name: self.name@,
            description: self.description@,
            category: self.category,
            tags: texts(self.tags@),
            args: arg_views(self.args@),
            requires_sudo: self.requires_sudo,
            timeout_secs: self.timeout_secs,
        }
    }
}

impl Clone for ToolMetadata {
    fn clone(&self) -> (res: ToolMetadata)
        ensures
            res@ == self@,
    {
        ToolMetadata {
            name: self.name.clone(),
            description: self.description.clone(),
            category: self.category,
            tags: copy_texts(&self.tags),
            args: copy_args(&self.args),
            requires_sudo: self.requires_sudo,
            timeout_secs: self.timeout_secs,
        }
    }
}

/// A discovered security tool.
#[derive(Debug)]
pub struct SecurityTool {
    /// Unique identifier, derived from the file or directory name.
    pub id: String,
    /// Human-readable name.
    pub name: String,
    /// Description shown to the model.
    pub description: String,
    /// Tool category.
    pub category: SecurityCategory,
    /// Tags for capability filtering.
    pub tags: Vec<String>,
    /// Path of the executable.
    pub command_path: String,
    /// Whether the tool runs through the privilege-elevation wrapper.
    pub requires_sudo: bool,
    /// Time limit in seconds.
    pub timeout_secs: Option<u64>,
    /// Argument definitions.
    pub args: Vec<ToolArg>,
}

/// The mathematical value of a [`SecurityTool`].
pub ghost struct SecurityToolView {
    pub id: Seq<char>,
    pub name: Seq<char>,
    pub description: Seq<char>,
    pub category: SecurityCategory,
    pub tags: Seq<Seq<char>>,
    pub command_path: Seq<char>,
    pub requires_sudo: bool,
    pub timeout_secs: Option<u64>,
    pub args: Seq<ToolArgView>,
}

impl View for SecurityTool {
    type V = SecurityToolView;

    open spec fn view(&self) -> SecurityToolView {
        SecurityToolView {
            id: self.id@,
            name: self.name@,
            description: self.description@,
            category: self.category,
            tags: texts(self.tags@),
            command_path: self.command_path@,
            requires_sudo: self.requires_sudo,
            timeout_secs: self.timeout_secs,
            args: arg_views(self.args@),
        }
    }
}

impl Clone for SecurityTool {
    fn clone(&self) -> (res: SecurityTool)
        ensures
            res@ == self@,
    {
        SecurityTool {
            id: self.id.clone(),
            name: self.name.clone(),
            description: self.description.clone(),
            category: self.category,
            tags: copy_texts(&self.tags),
            command_path: self.command_path.clone(),
            requires_sudo: self.requires_sudo,
            timeout_secs: self.timeout_secs,
            args: copy_args(&self.args),
        }
    }
}

/// A process to start: the program and its literal argument vector. The
/// arguments are never joined into a shell string.
#[derive(Debug)]
pub struct Launch {
    pub program: String,
    pub args: Vec<String>,
}

/// The mathematical value of a [`Launch`].
pub ghost struct LaunchView {
    pub program: Seq<char>,
    pub args: Seq<Seq<char>>,
}

impl View for Launch {
    type V = LaunchView;

    open spec fn view(&self) -> LaunchView {
        LaunchView { program: self.program@, args: texts(self.args@) }
    }
}

/// The process that runs `tool` on `args`. An elevated tool runs under
/// `sudo`, with `timeout` between the two when a time limit is declared, so
/// that the limit applies to the elevated process; a tool with only a time
/// limit runs under `timeout`; any other tool is started directly. The
/// caller's arguments follow the tool's path unchanged.
pub open spec fn launch_of(tool: SecurityToolView, args: Seq<Seq<char>>) -> LaunchView {
    if tool.requires_sudo {
        match tool.timeout_secs {
            Some(t) => LaunchView {
                program: "sudo"@,
                args: seq!["timeout"@, decimal(t as nat), tool.command_path] + args,
            },
            None => LaunchView { program: "sudo"@, args: seq![tool.command_path] + args },
        }
    } else {
        match tool.timeout_secs {
            Some(t) => LaunchView {
                program: "timeout"@,
                args: seq![decimal(t as nat), tool.command_path] + args,
            },
            None => LaunchView { program: tool.command_path, args: args },
        }
    }
}

impl SecurityTool {
    /// Prepares the execution of this tool with the given arguments: the
    /// process that the host has to start. What the process leaves behind
    /// becomes the tool's output through `ToolOutput::from_process`.
    pub fn execute(&self, args: &[String]) -> (res: Launch)
        ensures
            res@ == launch_of(self@, texts(args@)),
    {
        let mut argv: Vec<String> = Vec::new();
        let program = if self.requires_sudo {
            match self.timeout_secs {
                Some(t) => {
                    argv.push(String::from_str("timeout"));
                    argv.push(decimal_string(t));
                },
                None => {},
            }
            argv.push(self.command_path.clone());
            String::from_str("sudo")
        } else {
            match self.timeout_secs {
                Some(t) => {
                    argv.push(decimal_string(t));
                    argv.push(self.command_path.clone());
                    String::from_str("timeout")
                },
                None => self.command_path.clone(),
            }
        };
        let ghost head = texts(argv@);
        let mut i: usize = 0;
        while i < args.len()
            invariant
                i <= args.len(),
                texts(argv@) == head + texts(args@).take(i as int),
            decreases args.len() - i,
        {
            let ghost before = argv@;
            let item = args[i].clone();
            argv.push(item);
            proof {
                lemma_texts_push(before, item);
                assert(texts(args@).take(i as int + 1) =~= texts(args@).take(i as int).push(
                    args@[i as int]@,
                ));
                assert((head + texts(args@).take(i as int)).push(item@) =~= head + texts(
                    args@,
                ).take(i as int + 1));
            }
            i = i + 1;
        }
        proof {
            assert(texts(args@).take(args@.len() as int) =~= texts(args@));
            assert(head =~= launch_of(self@, Seq::empty()).args);
            assert(launch_of(self@, texts(args@)).args =~= launch_of(self@, Seq::empty()).args
                + texts(args@));
        }
        Launch { program, args: argv }
    }
}

/// The caller's arguments reach the tool as they are: they are the last
/// arguments of the process, in their order, and neither the program nor
/// what stands before them depends on them.
pub proof fn lemma_arguments_pass_unchanged(
    tool: SecurityToolView,
    args: Seq<Seq<char>>,
    other: Seq<Seq<char>>,
)
    ensures
        args.is_suffix_of(launch_of(tool, args).args),
        launch_of(tool, args).program == launch_of(tool, other).program,
        launch_of(tool, args).args.len() - args.len() == launch_of(tool, other).args.len()
            - other.len(),
        launch_of(tool, args).args == launch_of(tool, Seq::empty()).args + args,
{
    let full = launch_of(tool, args).args;
    assert(full.subrange(full.len() - args.len(), full.len() as int) =~= args);
    assert(full =~= launch_of(tool, Seq::empty()).args + args);
}

/// A time limit on an elevated tool bounds the elevated process: the
/// elevation wrapper starts the timeout enforcer, which starts the tool.
pub proof fn lemma_timeout_is_inside_elevation(tool: SecurityToolView, args: Seq<Seq<char>>)
    requires
        tool.requires_sudo,
        tool.timeout_secs is Some,
    ensures
        launch_of(tool, args).program == "sudo"@,
        launch_of(tool, args).args[0] == "timeout"@,
        launch_of(tool, args).args[1] == decimal(tool.timeout_secs.unwrap() as nat),
        launch_of(tool, args).args[2] == tool.command_path,
{
}

} // verus!
