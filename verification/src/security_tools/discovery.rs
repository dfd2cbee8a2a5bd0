//! Discovery: from what the host found in a tools directory to the registry.
//!
//! The host scans the directory without descending into it and reports each
//! entry as a [`ToolSource`]. Which entries are tools, under which id, and
//! with which descriptor is decided here. No entry can make discovery fail:
//! an entry that is no tool is passed over.

use vstd::prelude::*;
use vstd::string::*;
use crate::security_tools::category::SecurityCategory;
use crate::security_tools::descriptor::{
    arg_views, copy_args, SecurityTool, SecurityToolView, ToolArg, ToolArgView, ToolMetadata,
};
use crate::security_tools::registry::{
    distinct_ids, has_id, lemma_with_tool, tool_views, with_tool, SecurityToolRegistry,
};
use crate::text::{
    contains, copy_texts, ends_with, occurs_in, opt_text, replace_char, texts, trim_end_matches,
    with_char_replaced, without_trailing,
};

verus! {

/// A sub-directory of the tools directory, as the host found it.
#[derive(Debug)]
pub struct PackagedEntry {
    /// The path of the directory.
    pub path: String,
    /// The last component of the path, when it is valid Unicode.
    pub dir_name: Option<String>,
    /// Whether the directory holds a build manifest.
    pub has_manifest: bool,
    /// The sidecar metadata, when the file is there and could be read.
    pub metadata: Option<ToolMetadata>,
    /// The path of the release build output, when that file exists.
    pub release_binary: Option<String>,
    /// The path of the debug build output, when that file exists.
    pub debug_binary: Option<String>,
}

/// A regular file of the tools directory, as the host found it.
#[derive(Debug)]
pub struct ShellEntry {
    /// The path of the file.
    pub path: String,
    /// The last component of the path, when it is valid Unicode.
    pub file_name: Option<String>,
    /// The file name without its extension, when it is valid Unicode.
    pub file_stem: Option<String>,
    /// Whether the file can be executed on its own.
    pub executable: bool,
    /// The sidecar metadata, when the file is there and could be read.
    pub metadata: Option<ToolMetadata>,
}

/// One entry of the tools directory.
#[derive(Debug)]
pub enum ToolSource {
    /// A sub-directory, which may hold a packaged tool.
    Packaged(PackagedEntry),
    /// A regular file, which may be a shell tool.
    Shell(ShellEntry),
}

/// The name synthesized for a tool without metadata: its id with hyphens
/// and underscores turned into spaces.
pub open spec fn spaced(id: Seq<char>) -> Seq<char> {
    with_char_replaced(with_char_replaced(id, '-', " "@), '_', " "@)
}

/// The id of the packaged tool in a directory of the given name: the name
/// without its packaging suffix.
pub open spec fn packaged_id(dir_name: Seq<char>) -> Seq<char> {
    without_trailing(dir_name, "-mcp"@)
}

/// The descriptor of a tool with the given id and path: what the metadata
/// declares, and where there is none, defaults synthesized from the id and
/// the description prefix of the kind of tool.
pub open spec fn described(
    id: Seq<char>,
    command_path: Seq<char>,
    metadata: Option<ToolMetadata>,
    prefix: Seq<char>,
) -> SecurityToolView {
    match metadata {
        Some(m) => SecurityToolView {
            id,
            name: m@.name,
            description: m@.description,
            category: m@.category,
            tags: m@.tags,
            command_path,
            requires_sudo: m@.requires_sudo,
            timeout_secs: m@.timeout_secs,
            args: m@.args,
        },
        None => SecurityToolView {
            id,
            name: spaced(id),
            description: prefix + id,
            category: SecurityCategory::General,
            tags: Seq::empty(),
            command_path,
            requires_sudo: false,
            timeout_secs: None,
            args: Seq::empty(),
        },
    }
}

/// The runnable target of a packaged tool: the release build output, else the
/// debug build output, else the package directory itself.
pub open spec fn packaged_target(entry: PackagedEntry) -> Seq<char> {
    match entry.release_binary {
        Some(p) => p@,
        None => match entry.debug_binary {
            Some(p) => p@,
            None => entry.path@,
        },
    }
}

/// The packaged tool that a sub-directory holds, if it holds one: it must
/// carry a build manifest and a name in valid Unicode.
pub open spec fn packaged_tool(entry: PackagedEntry) -> Option<SecurityToolView> {
    if !entry.has_manifest {
        None
    } else {
        match entry.dir_name {
            None => None,
            Some(name) => Some(
                described(
                    packaged_id(name@),
                    packaged_target(entry),
                    entry.metadata,
                    "MCP security tool: "@,
                ),
            ),
        }
    }
}

/// File names that are never tools: setup scripts, markdown files and
/// metadata files.
pub open spec fn is_non_tool_name(file_name: Seq<char>) -> bool {
    ||| (".sh"@.is_suffix_of(file_name) && occurs_in("setup"@, file_name))
    ||| ".md"@.is_suffix_of(file_name)
    ||| ".json"@.is_suffix_of(file_name)
}

/// The shell tool that a file is, if it is one. Whether the file is
/// executable is not asked here.
pub open spec fn shell_tool(entry: ShellEntry) -> Option<SecurityToolView> {
    match entry.file_name {
        None => None,
        Some(name) => if is_non_tool_name(name@) {
            None
        } else {
            match entry.file_stem {
                None => None,
                Some(stem) => Some(
                    described(stem@, entry.path@, entry.metadata, "Security tool: "@),
                ),
            }
        },
    }
}

/// The tool that an entry of the tools directory contributes, if any.
pub open spec fn tool_of(source: ToolSource) -> Option<SecurityToolView> {
    match source {
        ToolSource::Packaged(entry) => packaged_tool(entry),
        ToolSource::Shell(entry) => if entry.executable {
            shell_tool(entry)
        } else {
            None
        },
    }
}

/// The tools registered after the entries were scanned in order.
pub open spec fn discovered(entries: Seq<ToolSource>) -> Seq<SecurityToolView>
    decreases entries.len(),
{
    if entries.len() == 0 {
        Seq::empty()
    } else {
        match tool_of(entries.last()) {
            Some(tool) => with_tool(discovered(entries.drop_last()), tool),
            None => discovered(entries.drop_last()),
        }
    }
}

/// Whether a Unix permission mode lets anyone execute the file.
pub fn mode_is_executable(mode: u32) -> (res: bool)
    ensures
        res == (mode & 0o111 != 0),
{
    mode & 0o111 != 0
}

/// Whether a file extension marks an executable where permission bits do
/// not exist.
pub fn extension_is_executable(extension: &str) -> (res: bool)
    ensures
        res == (extension@ == "exe"@ || extension@ == "bat"@ || extension@ == "cmd"@),
{
    crate::text::same_text(extension, "exe") || crate::text::same_text(extension, "bat")
        || crate::text::same_text(extension, "cmd")
}

impl SecurityToolRegistry {
    /// The id under which the packaged tool of a directory is registered.
    /// The host needs it to look for the tool's build outputs.
    pub fn packaged_tool_id(dir_name: &str) -> (res: String)
        ensures
            res@ == packaged_id(dir_name@),
    {
        proof {
            reveal_strlit("-mcp");
        }
        String::from_str(trim_end_matches(dir_name, "-mcp"))
    }

    /// Builds the descriptor of a tool from its id, its path and its
    /// metadata, if it has any.
    fn describe(id: String, command_path: String, metadata: &Option<ToolMetadata>, prefix: &str) -> (res:
        SecurityTool)
        ensures
            res@ == described(id@, command_path@, *metadata, prefix@),
    {
        match metadata {
            Some(m) => SecurityTool {
                id,
                name: m.name.clone(),
                description: m.description.clone(),
                category: m.category,
                tags: copy_texts(&m.tags),
                command_path,
                requires_sudo: m.requires_sudo,
                timeout_secs: m.timeout_secs,
                args: copy_args(&m.args),
            },
            None => {
                let hyphens_gone = replace_char(id.as_str(), '-', " ");
                let name = replace_char(hyphens_gone.as_str(), '_', " ");
                let description = String::from_str(prefix).concat(id.as_str());
                let tags: Vec<String> = Vec::new();
                let args: Vec<ToolArg> = Vec::new();
                proof {
                    assert(texts(tags@) =~= Seq::<Seq<char>>::empty());
                    assert(arg_views(args@) =~= Seq::<ToolArgView>::empty());
                }
                SecurityTool {
                    id,
                    name,
                    description,
                    category: SecurityCategory::General,
                    tags,
                    command_path,
                    requires_sudo: false,
                    timeout_secs: None,
                    args,
                }
            },
        }
    }

    /// Discovers the packaged tool of a sub-directory.
    pub fn discover_mcp_tool(entry: &PackagedEntry) -> (res: Option<SecurityTool>)
        ensures
            res is Some <==> packaged_tool(*entry) is Some,
            res matches Some(tool) ==> Some(tool@) == packaged_tool(*entry),
    {
        if !entry.has_manifest {
            return None;
        }
        match &entry.dir_name {
            None => None,
            Some(name) => {
                let id = SecurityToolRegistry::packaged_tool_id(name.as_str());
                let command_path = match &entry.release_binary {
                    Some(p) => p.clone(),
                    None => match &entry.debug_binary {
                        Some(p) => p.clone(),
                        None => entry.path.clone(),
                    },
                };
                Some(
                    SecurityToolRegistry::describe(
                        id,
                        command_path,
                        &entry.metadata,
                        "MCP security tool: ",
                    ),
                )
            },
        }
    }

    /// Whether a file of this name is passed over whatever it holds.
    pub fn is_non_tool_file(file_name: &str) -> (res: bool)
        ensures
            res == is_non_tool_name(file_name@),
    {
        (ends_with(file_name, ".sh") && contains(file_name, "setup")) || ends_with(file_name, ".md")
            || ends_with(file_name, ".json")
    }

    /// Discovers the shell tool that a file is.
    pub fn discover_shell_tool(entry: &ShellEntry) -> (res: Option<SecurityTool>)
        ensures
            res is Some <==> shell_tool(*entry) is Some,
            res matches Some(tool) ==> Some(tool@) == shell_tool(*entry),
    {
        match &entry.file_name {
            None => None,
            Some(name) => {
                if SecurityToolRegistry::is_non_tool_file(name.as_str()) {
                    return None;
                }
                match &entry.file_stem {
                    None => None,
                    Some(stem) => Some(
                        SecurityToolRegistry::describe(
                            stem.clone(),
                            entry.path.clone(),
                            &entry.metadata,
                            "Security tool: ",
                        ),
                    ),
                }
            },
        }
    }

    /// Builds the registry of a tools directory from its entries, scanned in
    /// the given order. Entries that are no tools are passed over; of two
    /// tools with one id the later one stays. The registry has no
    /// concurrency limiter.
    pub fn discover(tools_dir: &str, entries: &Vec<ToolSource>) -> (res: SecurityToolRegistry)
        ensures
            res@ == discovered(entries@),
            distinct_ids(res@),
            res.dir() == tools_dir@,
            res.concurrency_limit() is None,
    {
        let mut tools: Vec<SecurityTool> = Vec::new();
        let mut i: usize = 0;
        proof {
            assert(entries@.take(0) =~= Seq::<ToolSource>::empty());
            assert(tool_views(tools@) =~= Seq::<SecurityToolView>::empty());
        }
        while i < entries.len()
            invariant
                i <= entries.len(),
                tool_views(tools@) == discovered(entries@.take(i as int)),
                distinct_ids(tool_views(tools@)),
            decreases entries.len() - i,
        {
            proof {
                assert(entries@.take(i as int + 1).drop_last() =~= entries@.take(i as int));
                assert(entries@.take(i as int + 1).last() == entries@[i as int]);
            }
            let found = match &entries[i] {
                ToolSource::Packaged(entry) => SecurityToolRegistry::discover_mcp_tool(entry),
                ToolSource::Shell(entry) => if entry.executable {
                    SecurityToolRegistry::discover_shell_tool(entry)
                } else {
                    None
                },
            };
            match found {
                Some(tool) => {
                    SecurityToolRegistry::register(&mut tools, tool);
                },
                None => {},
            }
            i = i + 1;
        }
        proof {
            assert(entries@.take(entries@.len() as int) =~= entries@);
        }
        SecurityToolRegistry::from_parts(String::from_str(tools_dir), tools)
    }
}

/// Discovery keeps ids unique, whatever the entries are.
pub proof fn lemma_discovered_ids_distinct(entries: Seq<ToolSource>)
    ensures
        distinct_ids(discovered(entries)),
    decreases entries.len(),
{
    if entries.len() > 0 {
        lemma_discovered_ids_distinct(entries.drop_last());
        match tool_of(entries.last()) {
            Some(tool) => {
                lemma_with_tool(discovered(entries.drop_last()), tool);
            },
            None => {},
        }
    }
}

/// A directory without a single valid tool entry gives the empty registry.
pub proof fn lemma_no_tool_no_registration(entries: Seq<ToolSource>)
    requires
        forall|i: int| 0 <= i < entries.len() ==> tool_of(#[trigger] entries[i]) is None,
    ensures
        discovered(entries) == Seq::<SecurityToolView>::empty(),
    decreases entries.len(),
{
    if entries.len() > 0 {
        assert(tool_of(entries[entries.len() - 1]) is None);
        assert forall|i: int| 0 <= i < entries.drop_last().len() implies tool_of(
            #[trigger] entries.drop_last()[i],
        ) is None by {
            assert(entries.drop_last()[i] == entries[i]);
        }
        lemma_no_tool_no_registration(entries.drop_last());
    }
}

/// The registry holds a tool under an id exactly when some entry
/// contributed a tool with that id.
pub proof fn lemma_registered_ids(entries: Seq<ToolSource>, id: Seq<char>)
    ensures
        has_id(discovered(entries), id) <==> exists|i: int|
            0 <= i < entries.len() && tool_of(#[trigger] entries[i]) is Some && tool_of(
                entries[i],
            ).unwrap().id == id,
    decreases entries.len(),
{
    let contributed = |es: Seq<ToolSource>|
        exists|i: int|
            0 <= i < es.len() && tool_of(#[trigger] es[i]) is Some && tool_of(es[i]).unwrap().id
                == id;
    if entries.len() == 0 {
        assert(!has_id(discovered(entries), id));
    } else {
        let front = entries.drop_last();
        let n = entries.len() - 1;
        lemma_registered_ids(front, id);
        lemma_discovered_ids_distinct(front);
        if contributed(front) {
            let i = choose|i: int|
                0 <= i < front.len() && tool_of(#[trigger] front[i]) is Some && tool_of(
                    front[i],
                ).unwrap().id == id;
            assert(front[i] == entries[i]);
            assert(tool_of(entries[i]) is Some && tool_of(entries[i]).unwrap().id == id);
        }
        if contributed(entries) {
            let i = choose|i: int|
                0 <= i < entries.len() && tool_of(#[trigger] entries[i]) is Some && tool_of(
                    entries[i],
                ).unwrap().id == id;
            if i < n {
                assert(front[i] == entries[i]);
                assert(tool_of(front[i]) is Some && tool_of(front[i]).unwrap().id == id);
            }
        }
        match tool_of(entries.last()) {
            Some(tool) => {
                lemma_with_tool(discovered(front), tool);
                if tool.id == id {
                    assert(tool_of(entries[n]) is Some && tool_of(entries[n]).unwrap().id == id);
                }
            },
            None => {},
        }
    }
}

/// Of the entries that contribute a tool under one id the last one wins:
/// a tool that no later entry displaces is in the registry as it was found.
pub proof fn lemma_last_entry_wins(entries: Seq<ToolSource>, i: int)
    requires
        0 <= i < entries.len(),
        tool_of(entries[i]) is Some,
        forall|j: int|
            i < j < entries.len() && tool_of(#[trigger] entries[j]) is Some ==> tool_of(
                entries[j],
            ).unwrap().id != tool_of(entries[i]).unwrap().id,
    ensures
        discovered(entries).contains(tool_of(entries[i]).unwrap()),
    decreases entries.len(),
{
    let front = entries.drop_last();
    let n = entries.len() - 1;
    let kept = tool_of(entries[i]).unwrap();
    lemma_discovered_ids_distinct(front);
    if i == n {
        lemma_with_tool(discovered(front), kept);
    } else {
        assert(front[i] == entries[i]);
        assert forall|j: int| i < j < front.len() && tool_of(#[trigger] front[j]) is Some implies tool_of(
            front[j],
        ).unwrap().id != kept.id by {
            assert(front[j] == entries[j]);
        }
        lemma_last_entry_wins(front, i);
        let before = discovered(front);
        let k = choose|k: int| 0 <= k < before.len() && before[k] == kept;
        match tool_of(entries.last()) {
            Some(tool) => {
                assert(tool.id != kept.id);
                lemma_with_tool(before, tool);
                let after = with_tool(before, tool);
                if has_id(before, tool.id) {
                    assert(after[k] == kept);
                } else {
                    assert(after[k] == kept);
                }
            },
            None => {},
        }
    }
}

} // verus!
