use cortex_core::permissions::{Permission, PermissionPolicy};
use cortex_core::sandbox::{cut_to_bytes, Sandbox, SandboxOutput};
use cortex_core::tools::bash::{BashPlan, BashTool};
use cortex_core::tools::file::{FileReadTool, FileWriteTool, WritePlan, MAX_READ_SIZE};
use cortex_core::tools::tree::{sort_by_name, FileTreeTool, JsonLevel, TreeEntry};
use cortex_core::tools::script::ScriptTool;
use cortex_core::tools::{ToolError, ToolIndex, ToolOutput};

fn file(name: &str, size: u64) -> TreeEntry {
    TreeEntry { name: name.to_string(), is_dir: false, size, children: None }
}

fn dir(name: &str, children: Option<Vec<TreeEntry>>) -> TreeEntry {
    TreeEntry { name: name.to_string(), is_dir: true, size: 0, children }
}

#[test]
fn sandbox_default_limits() {
    let s = Sandbox::default();
    assert_eq!(s.timeout(), 30);
    assert_eq!(s.max_output(), 524288);
    let t = Sandbox::new(5, 100);
    assert_eq!(t.timeout(), 5);
    assert_eq!(t.max_output(), 100);
}

#[test]
fn sandbox_truncates_long_output() {
    let s = Sandbox::new(30, 5);
    let out = s.finish(Some(0), "hello world", "errors here");
    assert_eq!(out.stdout, "hello\n[OUTPUT TRUNCATED]");
    assert_eq!(out.stderr, "error");
    assert_eq!(out.exit_code, 0);
    assert!(!out.timed_out);
    let short = s.finish(Some(3), "hi", "");
    assert_eq!(short.stdout, "hi");
    assert_eq!(short.stderr, "");
    assert_eq!(short.exit_code, 3);
}

#[test]
fn sandbox_killed_process_has_exit_code_minus_one() {
    let s = Sandbox::new(30, 100);
    assert_eq!(s.finish(None, "", "").exit_code, -1);
}

#[test]
fn sandbox_timeout_message() {
    let s = Sandbox::new(7, 100);
    let out = s.timed_out_output();
    assert!(out.timed_out);
    assert_eq!(out.exit_code, -1);
    assert_eq!(out.stdout, "");
    assert_eq!(out.stderr, "Command timed out after 7s");
}

#[test]
fn cut_keeps_whole_characters() {
    assert_eq!(cut_to_bytes("héllo", 3), "hé");
    assert_eq!(cut_to_bytes("abcdef", 2), "ab");
}

#[test]
fn bash_plan_runs_allowed_command() {
    let policy = PermissionPolicy::new(Permission::WriteWorkspace, ".");
    match BashTool::plan(r#"{"command":"ls -la"}"#, &policy).unwrap() {
        BashPlan::Run(c) => assert_eq!(c, "ls -la"),
        BashPlan::Denied(_) => panic!("ls denied"),
    }
}

#[test]
fn bash_plan_denies_destructive_command() {
    let policy = PermissionPolicy::new(Permission::WriteWorkspace, ".");
    match BashTool::plan(r#"{"command":"sudo reboot"}"#, &policy).unwrap() {
        BashPlan::Denied(o) => {
            assert!(!o.success);
            assert_eq!(o.content, "");
            assert_eq!(
                o.error.unwrap(),
                "Destructive command blocked: 'sudo reboot'. Requires Full permission."
            );
        }
        BashPlan::Run(_) => panic!("sudo allowed"),
    }
}

#[test]
fn bash_plan_needs_command() {
    let policy = PermissionPolicy::full();
    let e = BashTool::plan(r#"{"cmd":"ls"}"#, &policy).unwrap_err();
    assert_eq!(e, ToolError::MissingArgument("command".to_string()));
    assert_eq!(e.message(), "Missing 'command' argument");
    assert!(BashTool::plan("not json", &policy).is_err());
}

#[test]
fn bash_finish_reports_exit_code_and_stderr() {
    let ok = BashTool::finish(SandboxOutput {
        exit_code: 0,
        stdout: "out".to_string(),
        stderr: String::new(),
        timed_out: false,
    });
    assert!(ok.success);
    assert_eq!(ok.content, "out");
    assert_eq!(ok.error, None);
    let bad = BashTool::finish(SandboxOutput {
        exit_code: 2,
        stdout: "partial".to_string(),
        stderr: "boom".to_string(),
        timed_out: false,
    });
    assert!(!bad.success);
    assert_eq!(bad.content, "partial");
    assert_eq!(bad.error.unwrap(), "boom");
    let late = BashTool::finish(Sandbox::new(3, 10).timed_out_output());
    assert!(!late.success);
    assert_eq!(late.error.unwrap(), "Command timed out after 3s");
}

#[test]
fn bash_tool_keeps_its_sandbox() {
    let t = BashTool::new(Sandbox::new(9, 11));
    assert_eq!(t.sandbox().timeout(), 9);
    assert_eq!(t.name(), "bash");
}

#[test]
fn file_read_checks() {
    assert_eq!(FileReadTool::path_arg(r#"{"path":"a.txt"}"#).unwrap(), "a.txt");
    assert_eq!(
        FileReadTool::path_arg("{}").unwrap_err(),
        ToolError::MissingArgument("path".to_string())
    );
    let m = FileReadTool::missing("x.txt");
    assert!(!m.success);
    assert_eq!(m.error.unwrap(), "File does not exist: x.txt");
    assert!(FileReadTool::check_size(MAX_READ_SIZE).is_none());
    let big = FileReadTool::check_size(MAX_READ_SIZE + 1).unwrap();
    assert_eq!(big.error.unwrap(), "File too large: 10485761 bytes (max 10485760)");
}

#[test]
fn file_read_contents_and_binary_detection() {
    let text = FileReadTool::contents("hello\nworld".as_bytes());
    assert!(text.success);
    assert_eq!(text.content, "hello\nworld");
    let bin = FileReadTool::contents(&[1, 2, 0, 3]);
    assert!(!bin.success);
    assert_eq!(bin.error.unwrap(), "Binary file detected — refusing to read");
    let mut late_nul = vec![b'a'; 9000];
    late_nul[8500] = 0;
    assert!(FileReadTool::contents(&late_nul).success);
    let lossy = FileReadTool::contents(&[b'a', 0xff, b'b']);
    assert_eq!(lossy.content, "a\u{FFFD}b");
}

#[test]
fn file_write_plans() {
    let ws = PermissionPolicy::new(Permission::WriteWorkspace, "/work");
    match FileWriteTool::plan(r#"{"path":"/work/a.txt","content":"hi"}"#, &ws).unwrap() {
        WritePlan::Write { path, content } => {
            assert_eq!(path, "/work/a.txt");
            assert_eq!(content, "hi");
        }
        WritePlan::Denied(_) => panic!("write inside workspace denied"),
    }
    match FileWriteTool::plan(r#"{"path":"/etc/x","content":"hi"}"#, &ws).unwrap() {
        WritePlan::Denied(o) => assert_eq!(o.error.unwrap(), "Write denied for path: /etc/x"),
        WritePlan::Write { .. } => panic!("write outside workspace allowed"),
    }
    assert_eq!(
        FileWriteTool::plan(r#"{"path":"/work/a"}"#, &ws).unwrap_err(),
        ToolError::MissingArgument("content".to_string())
    );
    assert_eq!(
        FileWriteTool::plan(r#"{"content":"x"}"#, &ws).unwrap_err(),
        ToolError::MissingArgument("path".to_string())
    );
    let w = FileWriteTool::written("/work/a.txt", "héllo");
    assert!(w.success);
    assert_eq!(w.content, "Written /work/a.txt (6 bytes)");
}

#[test]
fn tool_output_constructors() {
    let f = ToolOutput::failed("bad".to_string());
    assert!(!f.success);
    assert_eq!(f.content, "");
    assert_eq!(f.error.unwrap(), "bad");
    let s = ToolOutput::succeeded("good".to_string());
    assert!(s.success);
    assert_eq!(s.content, "good");
    assert!(s.error.is_none());
}

#[test]
fn script_output_replaces_invalid_bytes() {
    assert_eq!(ScriptTool::finish(true, b"plain", b"").content, "plain");
    assert_eq!(ScriptTool::finish(false, b"", &[0xe2, 0x82]).error.as_deref(), Some("\u{FFFD}"));
}

#[test]
fn tree_sorts_by_name() {
    let sorted = sort_by_name(vec![file("b", 1), file("a", 2), file("B", 3), file("ab", 4), file("", 5)]);
    let names: Vec<&str> = sorted.iter().map(|e| e.name.as_str()).collect();
    assert_eq!(names, vec!["", "B", "a", "ab", "b"]);
}

#[test]
fn tree_text_draws_entries_in_order() {
    let listing = vec![
        file("zeta.txt", 3),
        dir("src", Some(vec![file("main.rs", 10), file("lib.rs", 20)])),
        dir("target", Some(vec![file("junk", 1)])),
        file("Cargo.toml", 5),
    ];
    let text = FileTreeTool::text_tree(".", Some(listing), 3);
    assert_eq!(
        text,
        "File Tree for: .\n\
         ├── Cargo.toml\n\
         ├── src\n\
         │   ├── lib.rs\n\
         │   └── main.rs\n\
         └── zeta.txt\n"
    );
}

#[test]
fn tree_text_counts_skipped_entries_when_drawing_corners() {
    // the last entry of the listing is skipped, so no drawn entry gets the corner
    let listing = vec![file("a", 1), dir("target", None)];
    assert_eq!(FileTreeTool::text_tree(".", Some(listing), 2), "File Tree for: .\n├── a\n");
}

#[test]
fn tree_text_marks_max_depth() {
    let listing = vec![dir("a", Some(vec![dir("b", Some(vec![file("c", 1)]))]))];
    let text = FileTreeTool::text_tree("root", Some(listing), 1);
    assert_eq!(
        text,
        "File Tree for: root\n\
         └── a\n    \
         └── b\n        \
         └── ... (max depth reached)\n"
    );
    assert_eq!(FileTreeTool::text_tree("gone", None, 3), "File Tree for: gone\n");
}

#[test]
fn tree_json_level() {
    let listing = vec![file("x", 1), dir(".git", None), dir("d", None)];
    match FileTreeTool::json_level(Some(listing), 0, 2) {
        JsonLevel::Entries(v) => {
            let names: Vec<&str> = v.iter().map(|e| e.name.as_str()).collect();
            assert_eq!(names, vec!["x", "d"]);
        }
        JsonLevel::MaxDepth => panic!("max depth at 0"),
    }
    assert!(matches!(FileTreeTool::json_level(Some(vec![]), 3, 2), JsonLevel::MaxDepth));
    match FileTreeTool::json_level(None, 1, 2) {
        JsonLevel::Entries(v) => assert!(v.is_empty()),
        JsonLevel::MaxDepth => panic!("max depth at 1"),
    }
    assert_eq!(FileTreeTool.name(), "file_tree");
}

#[test]
fn tree_request_defaults_and_values() {
    let d = FileTreeTool::request("{}");
    assert_eq!(d.path, ".");
    assert_eq!(d.max_depth, 3);
    assert!(!d.json);
    let r = FileTreeTool::request(r#"{"path":"src","max_depth":1,"format":"json"}"#);
    assert_eq!(r.path, "src");
    assert_eq!(r.max_depth, 1);
    assert!(r.json);
    assert_eq!(FileTreeTool::request(r#"{"max_depth":"deep"}"#).max_depth, 3);
    assert!(!FileTreeTool::request(r#"{"format":"text"}"#).json);
}

#[test]
fn tree_json_encodes_levels() {
    let listing = vec![
        file("a.txt", 12),
        dir("node_modules", None),
        dir("src", Some(vec![dir("deep", Some(vec![file("x", 1)]))])),
    ];
    let text = FileTreeTool::json_tree(Some(listing), 1).unwrap();
    let v: serde_json::Value = serde_json::from_str(&text).unwrap();
    let expected: serde_json::Value = serde_json::from_str(
        r#"[
            { "name": "a.txt", "type": "file", "size": 12 },
            { "name": "src", "type": "directory", "children": [
                { "name": "deep", "type": "directory", "children": "... (max depth reached)" }
            ] }
        ]"#,
    )
    .unwrap();
    assert_eq!(v, expected);
    assert_eq!(text, serde_json::to_string_pretty(&expected).unwrap());
    assert_eq!(FileTreeTool::json_tree(None, 2).unwrap(), "[]");
}

#[test]
fn tree_text_at_the_largest_depth() {
    let listing = vec![dir("a", Some(vec![file("b", 1)]))];
    let text = FileTreeTool::text_tree(".", Some(listing), u64::MAX);
    assert_eq!(text, "File Tree for: .\n└── a\n    └── b\n");
}

#[test]
fn tool_index_finds_registered_tools() {
    let mut index = ToolIndex::new();
    assert_eq!(index.register("bash"), 0);
    assert_eq!(index.register("file_read"), 1);
    assert_eq!(index.register("bash"), 0);
    assert_eq!(index.list(), vec!["bash".to_string(), "file_read".to_string()]);
    assert_eq!(index.lookup("file_read"), Ok(1));
    assert_eq!(index.lookup("nope"), Err("Unknown tool: nope".to_string()));
}

#[test]
fn written_text_reads_back() {
    let text = "naïve — 日本語 ✓\nline two";
    let out = FileReadTool::contents(text.as_bytes());
    assert!(out.success);
    assert_eq!(out.content, text);
    assert_eq!(out.error, None);
}
