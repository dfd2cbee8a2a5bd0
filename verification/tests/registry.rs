use spai::error::Error;
use spai::security_tools::discovery::{extension_is_executable, mode_is_executable};
use spai::security_tools::{
    PackagedEntry, SecurityCategory, SecurityTool, SecurityToolRegistry, ShellEntry, ToolArg,
    ToolMetadata, ToolSource,
};

fn shell(path: &str, name: &str, stem: &str, metadata: Option<ToolMetadata>) -> ToolSource {
    ToolSource::Shell(ShellEntry {
        path: path.to_string(),
        file_name: Some(name.to_string()),
        file_stem: Some(stem.to_string()),
        executable: true,
        metadata,
    })
}

fn meta(name: &str, category: SecurityCategory, tags: &[&str]) -> ToolMetadata {
    ToolMetadata {
        name: name.to_string(),
        description: format!("{} description", name),
        category,
        tags: tags.iter().map(|t| t.to_string()).collect(),
        args: Vec::new(),
        requires_sudo: false,
        timeout_secs: None,
    }
}

fn ids(tools: &[&SecurityTool]) -> Vec<String> {
    tools.iter().map(|t| t.id.clone()).collect()
}

fn sample() -> SecurityToolRegistry {
    let entries = vec![
        shell(
            "/t/portlist",
            "portlist",
            "portlist",
            Some(meta("Port List", SecurityCategory::Network, &["security_tools", "Net"])),
        ),
        shell(
            "/t/gcc.sh",
            "gcc.sh",
            "gcc",
            Some(meta("Compiler", SecurityCategory::General, &["dev_tools"])),
        ),
        shell("/t/plain", "plain", "plain", None),
        shell(
            "/t/chk",
            "chk",
            "chk",
            Some(meta("Check", SecurityCategory::Rootkit, &["security_tools", "net"])),
        ),
    ];
    SecurityToolRegistry::discover("/t", &entries)
}

#[test]
fn test_registry_empty_dir() {
    let registry = SecurityToolRegistry::discover("/nonexistent/path", &Vec::new());
    assert!(registry.is_empty());
}

#[test]
fn entries_that_are_no_tools_give_an_empty_registry() {
    let entries = vec![
        ToolSource::Packaged(PackagedEntry {
            path: "/t/docs".to_string(),
            dir_name: Some("docs".to_string()),
            has_manifest: false,
            metadata: None,
            release_binary: None,
            debug_binary: None,
        }),
        shell("/t/README.md", "README.md", "README", None),
        shell("/t/tool.json", "tool.json", "tool", None),
        shell("/t/setup_env.sh", "setup_env.sh", "setup_env", None),
        ToolSource::Shell(ShellEntry {
            path: "/t/notes".to_string(),
            file_name: Some("notes".to_string()),
            file_stem: Some("notes".to_string()),
            executable: false,
            metadata: None,
        }),
        ToolSource::Shell(ShellEntry {
            path: "/t/odd".to_string(),
            file_name: None,
            file_stem: None,
            executable: true,
            metadata: None,
        }),
    ];
    let registry = SecurityToolRegistry::discover("/t", &entries);
    assert!(registry.is_empty());
    assert_eq!(registry.len(), 0);
    assert_eq!(registry.tools_dir(), "/t");
    assert!(!registry.is_parallel());
}

#[test]
fn shell_tool_without_metadata_gets_synthesized_defaults() {
    let registry = SecurityToolRegistry::discover(
        "/t",
        &vec![shell("/t/port-scan_fast.sh", "port-scan_fast.sh", "port-scan_fast", None)],
    );
    let tool = registry.get("port-scan_fast").unwrap();
    assert_eq!(tool.id, "port-scan_fast");
    assert_eq!(tool.name, "port scan fast");
    assert_eq!(tool.description, "Security tool: port-scan_fast");
    assert_eq!(tool.category, SecurityCategory::General);
    assert!(tool.tags.is_empty());
    assert_eq!(tool.command_path, "/t/port-scan_fast.sh");
    assert!(!tool.requires_sudo);
    assert_eq!(tool.timeout_secs, None);
    assert!(tool.args.is_empty());
}

#[test]
fn shell_tool_with_metadata_takes_its_fields() {
    let mut m = meta("Scanner", SecurityCategory::Network, &["a", "b"]);
    m.requires_sudo = true;
    m.timeout_secs = Some(30);
    m.args = vec![ToolArg {
        name: "target".to_string(),
        description: "host".to_string(),
        required: true,
        default: Some("localhost".to_string()),
    }];
    let registry =
        SecurityToolRegistry::discover("/t", &vec![shell("/t/scan", "scan", "scan", Some(m))]);
    let tool = registry.get("scan").unwrap();
    assert_eq!(tool.name, "Scanner");
    assert_eq!(tool.description, "Scanner description");
    assert_eq!(tool.category, SecurityCategory::Network);
    assert_eq!(tool.tags, vec!["a", "b"]);
    assert!(tool.requires_sudo);
    assert_eq!(tool.timeout_secs, Some(30));
    assert_eq!(tool.args.len(), 1);
    assert_eq!(tool.args[0].name, "target");
    assert_eq!(tool.args[0].default, Some("localhost".to_string()));
}

#[test]
fn setup_scripts_markdown_and_json_are_skipped() {
    assert!(SecurityToolRegistry::is_non_tool_file("setup.sh"));
    assert!(SecurityToolRegistry::is_non_tool_file("my_setup_env.sh"));
    assert!(SecurityToolRegistry::is_non_tool_file("notes.md"));
    assert!(SecurityToolRegistry::is_non_tool_file("tool.json"));
    assert!(!SecurityToolRegistry::is_non_tool_file("scan.sh"));
    assert!(!SecurityToolRegistry::is_non_tool_file("setup"));
    assert!(!SecurityToolRegistry::is_non_tool_file("setup.py"));
    assert!(!SecurityToolRegistry::is_non_tool_file("md"));
}

#[test]
fn packaged_tool_id_strips_the_suffix() {
    assert_eq!(SecurityToolRegistry::packaged_tool_id("nmap-mcp"), "nmap");
    assert_eq!(SecurityToolRegistry::packaged_tool_id("nmap"), "nmap");
    assert_eq!(SecurityToolRegistry::packaged_tool_id("a-mcp-mcp"), "a");
    assert_eq!(SecurityToolRegistry::packaged_tool_id("-mcp"), "");
    assert_eq!(SecurityToolRegistry::packaged_tool_id("mcp-tool"), "mcp-tool");
}

fn package(release: Option<&str>, debug: Option<&str>) -> PackagedEntry {
    PackagedEntry {
        path: "/t/file-reader-mcp".to_string(),
        dir_name: Some("file-reader-mcp".to_string()),
        has_manifest: true,
        metadata: None,
        release_binary: release.map(|s| s.to_string()),
        debug_binary: debug.map(|s| s.to_string()),
    }
}

#[test]
fn packaged_tool_prefers_release_then_debug_then_directory() {
    let rel = "/t/file-reader-mcp/target/release/file-reader";
    let dbg = "/t/file-reader-mcp/target/debug/file-reader";
    let both = SecurityToolRegistry::discover_mcp_tool(&package(Some(rel), Some(dbg))).unwrap();
    assert_eq!(both.command_path, rel);
    let debug_only = SecurityToolRegistry::discover_mcp_tool(&package(None, Some(dbg))).unwrap();
    assert_eq!(debug_only.command_path, dbg);
    let neither = SecurityToolRegistry::discover_mcp_tool(&package(None, None)).unwrap();
    assert_eq!(neither.command_path, "/t/file-reader-mcp");
    assert_eq!(neither.id, "file-reader");
    assert_eq!(neither.name, "file reader");
    assert_eq!(neither.description, "MCP security tool: file-reader");
}

#[test]
fn directory_without_manifest_or_name_is_no_tool() {
    let mut no_manifest = package(None, None);
    no_manifest.has_manifest = false;
    assert!(SecurityToolRegistry::discover_mcp_tool(&no_manifest).is_none());
    let mut no_name = package(None, None);
    no_name.dir_name = None;
    assert!(SecurityToolRegistry::discover_mcp_tool(&no_name).is_none());
}

#[test]
fn shell_tool_needs_name_and_stem() {
    let entry = ShellEntry {
        path: "/t/x".to_string(),
        file_name: Some("x".to_string()),
        file_stem: None,
        executable: true,
        metadata: None,
    };
    assert!(SecurityToolRegistry::discover_shell_tool(&entry).is_none());
}

#[test]
fn of_two_entries_with_one_id_the_later_wins() {
    let entries = vec![
        shell("/t/scan.sh", "scan.sh", "scan", None),
        shell("/t/other", "other", "other", None),
        shell("/t/scan.py", "scan.py", "scan", Some(meta("Second", SecurityCategory::Process, &[]))),
    ];
    let registry = SecurityToolRegistry::discover("/t", &entries);
    assert_eq!(registry.len(), 2);
    let tool = registry.get("scan").unwrap();
    assert_eq!(tool.name, "Second");
    assert_eq!(tool.command_path, "/t/scan.py");
    assert_eq!(registry.ids(), vec!["scan", "other"]);
}

#[test]
fn executable_bits_and_extensions() {
    assert!(mode_is_executable(0o755));
    assert!(mode_is_executable(0o100));
    assert!(mode_is_executable(0o001));
    assert!(!mode_is_executable(0o644));
    assert!(!mode_is_executable(0));
    assert!(extension_is_executable("exe"));
    assert!(extension_is_executable("bat"));
    assert!(extension_is_executable("cmd"));
    assert!(!extension_is_executable("sh"));
    assert!(!extension_is_executable("EXE"));
}

#[test]
fn get_finds_by_exact_id() {
    let registry = sample();
    assert_eq!(registry.len(), 4);
    assert!(!registry.is_empty());
    assert_eq!(registry.get("gcc").unwrap().name, "Compiler");
    assert!(registry.get("GCC").is_none());
    assert!(registry.get("nothing").is_none());
}

#[test]
fn tools_come_in_registration_order() {
    let registry = sample();
    assert_eq!(ids(&registry.tools()), vec!["portlist", "gcc", "plain", "chk"]);
}

#[test]
fn by_category_keeps_the_tools_of_the_category() {
    let registry = sample();
    assert_eq!(ids(&registry.by_category(SecurityCategory::General)), vec!["gcc", "plain"]);
    assert_eq!(ids(&registry.by_category(SecurityCategory::Network)), vec!["portlist"]);
    assert!(registry.by_category(SecurityCategory::Hardening).is_empty());
}

#[test]
fn by_tags_matches_any_shared_tag() {
    let registry = sample();
    assert_eq!(ids(&registry.by_tags(&["security_tools"])), vec!["portlist", "chk"]);
    assert_eq!(ids(&registry.by_tags(&["dev_tools", "net"])), vec!["portlist", "gcc", "chk"]);
    assert!(registry.by_tags(&["web_tools"]).is_empty());
    assert!(registry.by_tags(&[]).is_empty());
}

#[test]
fn by_tags_ignores_ascii_case() {
    let registry = sample();
    assert_eq!(ids(&registry.by_tags(&["Dev_Tools"])), vec!["gcc"]);
    assert_eq!(ids(&registry.by_tags(&["NET"])), vec!["portlist", "chk"]);
}

#[test]
fn all_tag_shows_every_tool() {
    let registry = sample();
    let everything = vec!["portlist", "gcc", "plain", "chk"];
    assert_eq!(ids(&registry.by_tags(&["all"])), everything);
    assert_eq!(ids(&registry.by_tags(&["ALL"])), everything);
    assert_eq!(ids(&registry.by_tags(&["web_tools", "All"])), everything);
}

#[test]
fn all_tags_are_sorted_and_unique() {
    let registry = sample();
    assert_eq!(registry.all_tags(), vec!["Net", "dev_tools", "net", "security_tools"]);
    let empty = SecurityToolRegistry::discover("/t", &Vec::new());
    assert!(empty.all_tags().is_empty());
}

#[test]
fn has_tag_ignores_case_and_unknown_tools() {
    let registry = sample();
    assert!(registry.has_tag("gcc", "dev_tools"));
    assert!(registry.has_tag("gcc", "DEV_TOOLS"));
    assert!(!registry.has_tag("gcc", "security_tools"));
    assert!(!registry.has_tag("plain", "dev_tools"));
    assert!(!registry.has_tag("missing", "dev_tools"));
}

fn tool(sudo: bool, timeout: Option<u64>) -> SecurityTool {
    SecurityTool {
        id: "scan".to_string(),
        name: "Scan".to_string(),
        description: "scans".to_string(),
        category: SecurityCategory::Network,
        tags: Vec::new(),
        command_path: "/t/scan".to_string(),
        requires_sudo: sudo,
        timeout_secs: timeout,
        args: Vec::new(),
    }
}

#[test]
fn plain_tool_is_started_directly() {
    let launch = tool(false, None).execute(&["-v".to_string(), "a b; rm -rf /".to_string()]);
    assert_eq!(launch.program, "/t/scan");
    assert_eq!(launch.args, vec!["-v", "a b; rm -rf /"]);
}

#[test]
fn timeout_wraps_the_tool() {
    let launch = tool(false, Some(30)).execute(&["x".to_string()]);
    assert_eq!(launch.program, "timeout");
    assert_eq!(launch.args, vec!["30", "/t/scan", "x"]);
}

#[test]
fn sudo_wraps_the_tool() {
    let launch = tool(true, None).execute(&[]);
    assert_eq!(launch.program, "sudo");
    assert_eq!(launch.args, vec!["/t/scan"]);
}

#[test]
fn sudo_wraps_the_timeout_that_wraps_the_tool() {
    let launch = tool(true, Some(0)).execute(&["x".to_string(), "y".to_string()]);
    assert_eq!(launch.program, "sudo");
    assert_eq!(launch.args, vec!["timeout", "0", "/t/scan", "x", "y"]);
    let long = tool(true, Some(u64::MAX)).execute(&[]);
    assert_eq!(long.args, vec!["timeout", "18446744073709551615", "/t/scan"]);
}

#[test]
fn execute_dispatches_a_registered_tool() {
    let registry = sample();
    let launch = registry.execute("gcc", &["-o".to_string(), "hello".to_string()]).unwrap();
    assert_eq!(launch.program, "/t/gcc.sh");
    assert_eq!(launch.args, vec!["-o", "hello"]);
}

#[test]
fn execute_names_the_known_ids_for_an_unknown_one() {
    let registry = sample();
    match registry.execute("nmap", &[]) {
        Err(Error::ToolExecution { tool_id, message }) => {
            assert_eq!(tool_id, "nmap");
            assert_eq!(
                message,
                "Tool 'nmap' not found. Available tools: [\"portlist\", \"gcc\", \"plain\", \"chk\"]"
            );
        }
        other => panic!("unexpected result: {:?}", other),
    }
    let empty = SecurityToolRegistry::discover("/t", &Vec::new());
    match empty.execute("x", &[]) {
        Err(Error::ToolExecution { message, .. }) => {
            assert_eq!(message, "Tool 'x' not found. Available tools: []");
        }
        other => panic!("unexpected result: {:?}", other),
    }
}

#[test]
fn tool_descriptions_group_by_category() {
    let mut m = meta("Port List", SecurityCategory::Network, &[]);
    m.requires_sudo = true;
    m.args = vec![
        ToolArg {
            name: "host".to_string(),
            description: "target host".to_string(),
            required: true,
            default: None,
        },
        ToolArg {
            name: "fast".to_string(),
            description: "quick scan".to_string(),
            required: false,
            default: None,
        },
    ];
    let entries = vec![
        shell("/t/plain", "plain", "plain", None),
        shell("/t/portlist", "portlist", "portlist", Some(m)),
        shell("/t/other", "other", "other", None),
    ];
    let registry = SecurityToolRegistry::discover("/t", &entries);
    let expected = "\n=== network Tools ===\n\
        • Port List (id: portlist)\n  Port List description\n  Arguments:\n  \
        - host (required): target host\n  - fast (optional): quick scan\n  Requires sudo: true\n\
        \n=== general Tools ===\n\
        • plain (id: plain)\n  Security tool: plain\n  Requires sudo: false\n\
        • other (id: other)\n  Security tool: other\n  Requires sudo: false";
    assert_eq!(registry.tool_descriptions(), expected);
    let empty = SecurityToolRegistry::discover("/t", &Vec::new());
    assert_eq!(empty.tool_descriptions(), "");
}

#[test]
fn parallel_execution_sets_the_limiter() {
    let registry = sample();
    assert!(!registry.is_parallel());
    assert!(registry.semaphore().is_none());
    let registry = registry.with_parallel_execution(3);
    assert!(registry.is_parallel());
    let sem = registry.semaphore().unwrap();
    assert_eq!(sem.available_permits(), 3);
    assert_eq!(registry.len(), 4);
    assert_eq!(registry.tools_dir(), "/t");
    let permit = sem.try_acquire().unwrap();
    assert_eq!(registry.semaphore().unwrap().available_permits(), 2);
    drop(permit);
    assert_eq!(registry.semaphore().unwrap().available_permits(), 3);
}
