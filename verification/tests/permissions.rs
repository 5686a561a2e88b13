use cortex_core::permissions::{Permission, PermissionPolicy, PermissionVerdict};

#[test]
fn readonly_never_writes_and_runs_only_harmless_bash() {
    let p = PermissionPolicy::new(Permission::ReadOnly, "/work");
    assert!(!p.can_write("/work/a.txt"));
    assert!(p.can_exec_bash());
    assert!(matches!(p.check_bash("ls -la"), PermissionVerdict::Allowed));
    match p.check_bash("rm -rf /work") {
        PermissionVerdict::Denied(m) => {
            assert_eq!(m, "Destructive command blocked: 'rm -rf /work'. Requires Full permission.")
        }
        PermissionVerdict::Allowed => panic!("read-only ran a destructive command"),
    }
}

#[test]
fn workspace_writes_inside_root_only() {
    let p = PermissionPolicy::new(Permission::WriteWorkspace, "/work");
    assert!(p.can_write("/work/a.txt"));
    assert!(p.can_write("/work"));
    assert!(p.can_write("/work/sub/dir/file"));
    assert!(!p.can_write("/workshop/a.txt"));
    assert!(!p.can_write("/etc/passwd"));
    assert!(!p.can_write("/work/../etc/passwd"));
    assert!(!p.can_write("/work/a..b"));
}

#[test]
fn workspace_paths_compare_by_component() {
    let p = PermissionPolicy::new(Permission::WriteWorkspace, "./ws");
    assert!(p.can_write("./ws//file"));
    assert!(p.can_write("./ws/./file"));
    // as with std::path::Path::starts_with, a leading `.` is a component of its own
    assert!(!p.can_write("ws/file"));
    assert_eq!(
        p.can_write("ws/file"),
        std::path::Path::new("ws/file").starts_with("./ws")
    );
    assert!(!p.can_write("wsx/file"));
    let q = PermissionPolicy::new(Permission::WriteWorkspace, "/a/b/");
    assert!(q.can_write("/a/b"));
    assert!(q.can_write("/a//b/c"));
    assert!(!q.can_write("a/b/c"));
}

#[test]
fn full_allows_everything() {
    let p = PermissionPolicy::full();
    assert!(p.can_write("/etc/passwd"));
    assert!(p.can_write("../x"));
    assert!(p.can_exec_bash());
    assert!(matches!(p.check_bash("rm -rf /"), PermissionVerdict::Allowed));
    assert_eq!(p.level_exec(), Permission::Full);
}

#[test]
fn destructive_commands_are_recognised_case_insensitively() {
    assert!(PermissionPolicy::is_destructive_command("rm -rf /tmp/x"));
    assert!(PermissionPolicy::is_destructive_command("SUDO apt install"));
    assert!(PermissionPolicy::is_destructive_command("chmod 777 f"));
    assert!(!PermissionPolicy::is_destructive_command("ls -la"));
    assert!(!PermissionPolicy::is_destructive_command("echo hello"));
}

#[test]
fn workspace_blocks_destructive_bash_with_message() {
    let p = PermissionPolicy::new(Permission::WriteWorkspace, ".");
    match p.check_bash("rm -rf build") {
        PermissionVerdict::Denied(m) => {
            assert_eq!(m, "Destructive command blocked: 'rm -rf build'. Requires Full permission.")
        }
        PermissionVerdict::Allowed => panic!("destructive command allowed"),
    }
    assert!(matches!(p.check_bash("cargo build"), PermissionVerdict::Allowed));
}

#[test]
fn permission_names() {
    assert_eq!(Permission::from_name("readonly"), Permission::ReadOnly);
    assert_eq!(Permission::from_name("workspace"), Permission::WriteWorkspace);
    assert_eq!(Permission::from_name("full"), Permission::Full);
    assert_eq!(Permission::from_name("anything"), Permission::Full);
}
