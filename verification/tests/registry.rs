use cortex_core::registry::{
    is_script_file, AgentConfig, AgentDirListing, AgentRegistry, FolderListing, McpConfig, ToolFile,
};
use cortex_core::squad::{ActiveSquad, ActiveSquadAgent, Squad, SquadAgentDef};
use cortex_core::swarm::{parse_delegation, prepare_agent_tools, script_tool, status_reply, SwarmAgent, SwarmState};

fn mcp(name: &str, command: &str) -> McpConfig {
    McpConfig { name: name.to_string(), command: command.to_string(), args: vec!["-y".to_string()] }
}

fn config(role: &str, spec: &str, mcps: Option<Vec<McpConfig>>) -> AgentConfig {
    AgentConfig {
        role: role.to_string(),
        specialization: spec.to_string(),
        tools: vec!["bash".to_string()],
        mcp_servers: mcps,
        discovered_scripts: vec![],
    }
}

fn tool_file(path: &str, name: &str) -> ToolFile {
    ToolFile { path: path.to_string(), name: name.to_string() }
}

fn squad(name: &str, roles: &[&str]) -> Squad {
    Squad {
        name: name.to_string(),
        description: None,
        agents: roles
            .iter()
            .map(|r| SquadAgentDef {
                role: r.to_string(),
                goal: format!("do {r}"),
                name: None,
                specialization: None,
            })
            .collect(),
    }
}

fn listing() -> FolderListing {
    FolderListing {
        agent_dirs: vec![
            AgentDirListing {
                config: Some(config("coder", "writes code", Some(vec![mcp("fs", "npx"), mcp("git", "git-mcp")]))),
                tool_files: vec![
                    tool_file("agents/coder/tools/build.sh", "build.sh"),
                    tool_file("agents/coder/tools/notes.txt", "notes.txt"),
                    tool_file("agents/coder/tools/lint.py", "lint.py"),
                    tool_file("agents/coder/tools/.sh", ".sh"),
                ],
            },
            AgentDirListing { config: None, tool_files: vec![] },
            AgentDirListing {
                config: Some(config("tester", "checks code", Some(vec![mcp("fs", "other"), mcp("web", "web-mcp")]))),
                tool_files: vec![],
            },
            AgentDirListing { config: Some(config("coder", "second coder", None)), tool_files: vec![] },
        ],
        squads: vec![Some(squad("alpha", &["coder", "tester"])), None, Some(squad("beta", &["coder"]))],
    }
}

#[test]
fn new_registry_is_empty() {
    let r = AgentRegistry::new();
    assert!(r.list_roles().is_empty());
    assert!(r.get_config("coder").is_none());
    assert!(r.global_mcps().is_empty());
}

#[test]
fn scan_loads_configs_later_folders_win() {
    let mut r = AgentRegistry::new();
    r.scan_folder(&listing());
    let coder = r.get_config("coder").unwrap();
    assert_eq!(coder.specialization, "second coder");
    let tester = r.get_config("tester").unwrap();
    assert_eq!(tester.specialization, "checks code");
    let mut roles = r.list_roles();
    roles.sort();
    assert_eq!(roles, vec!["coder".to_string(), "tester".to_string()]);
    assert!(r.get_config("ghost").is_none());
}

#[test]
fn scan_discovers_scripts() {
    let mut r = AgentRegistry::new();
    let mut l = listing();
    l.agent_dirs.truncate(1);
    r.scan_folder(&l);
    let coder = r.get_config("coder").unwrap();
    assert_eq!(
        coder.discovered_scripts,
        vec!["agents/coder/tools/build.sh".to_string(), "agents/coder/tools/lint.py".to_string()]
    );
}

#[test]
fn scan_keeps_first_global_mcp_of_each_name() {
    let mut r = AgentRegistry::new();
    r.scan_folder(&listing());
    let names: Vec<(String, String)> = r.global_mcps().into_iter().map(|m| (m.name, m.command)).collect();
    assert_eq!(
        names,
        vec![
            ("fs".to_string(), "npx".to_string()),
            ("git".to_string(), "git-mcp".to_string()),
            ("web".to_string(), "web-mcp".to_string()),
        ]
    );
}

#[test]
fn scan_loads_squads_and_replaces_old_state() {
    let mut r = AgentRegistry::new();
    r.scan_folder(&listing());
    assert_eq!(r.get_squad("alpha").unwrap().agents.len(), 2);
    assert!(r.get_squad("beta").is_some());
    r.scan_folder(&FolderListing { agent_dirs: vec![], squads: vec![] });
    assert!(r.get_squad("alpha").is_none());
    assert!(r.list_roles().is_empty());
}

#[test]
fn script_extensions() {
    assert!(is_script_file("a.sh"));
    assert!(is_script_file("x.y.py"));
    assert!(is_script_file("b.js"));
    assert!(!is_script_file("c.rs"));
    assert!(!is_script_file(".sh"));
    assert!(!is_script_file("noext"));
}

#[test]
fn script_tools_are_named_after_the_file() {
    let t = script_tool("agents/coder/tools/build.sh");
    assert_eq!(t.name(), "sc_build");
    assert_eq!(t.description(), "Custom Shell script: build");
    let p = script_tool("tools/lint.py");
    assert_eq!(p.name(), "sc_lint");
    assert_eq!(p.description(), "Custom Python script: lint");
    let j = script_tool("run.js");
    assert_eq!(j.description(), "Custom Node.js script: run");
}

#[test]
fn agent_tools_combine_global_and_role_servers() {
    let mut r = AgentRegistry::new();
    let mut l = listing();
    l.agent_dirs[2].config.as_mut().unwrap().mcp_servers = Some(vec![mcp("fs", "other"), mcp("web", "web-mcp")]);
    r.scan_folder(&l);
    let plan = prepare_agent_tools(&r, "tester");
    let names: Vec<String> = plan.mcp_tools.iter().map(|t| t.name().to_string()).collect();
    // every global server, then the role's own servers that are not global already
    assert_eq!(names, vec!["fs".to_string(), "git".to_string(), "web".to_string()]);
    assert_eq!(plan.mcp_tools[0].description(), "Global MCP Tool: fs");
    assert_eq!(plan.specialization.as_deref(), Some("checks code"));
    assert!(plan.script_tools.is_empty());
    let none = prepare_agent_tools(&r, "nobody");
    assert!(none.specialization.is_none());
    assert_eq!(none.mcp_tools.len(), 3);
}

#[test]
fn swarm_register_and_finish() {
    let mut s = SwarmState::new();
    let a = s.register_agent("coder");
    let b = s.register_agent("tester");
    assert_ne!(a, b);
    let active = s.list_active();
    assert_eq!(active.len(), 2);
    s.finish_agent(a);
    let active = s.list_active();
    assert_eq!(active.len(), 1);
    assert_eq!(active[0].id, b);
    assert_eq!(active[0].role, "tester");
    s.finish_agent(a);
    assert_eq!(s.list_active().len(), 1);
}

#[test]
fn swarm_squad_status_updates_one_agent() {
    let mut s = SwarmState::new();
    let id = s.start_squad(&squad("alpha", &["coder", "tester"]));
    let snap = s.squads_snapshot();
    assert_eq!(snap.len(), 1);
    assert_eq!(snap[0].id, id);
    assert_eq!(snap[0].name, "alpha");
    assert!(snap[0].agents.iter().all(|a| a.status == "starting"));
    assert_eq!(snap[0].agents[1].goal, "do tester");
    let mut tasks = s.member_tasks(id);
    assert_eq!(tasks.len(), 2);
    assert!(s.member_tasks(id.wrapping_add(1)).is_empty());
    let (role, goal) = tasks[1].start(&mut s);
    assert_eq!((role.as_str(), goal.as_str()), ("tester", "do tester"));
    let snap = s.squads_snapshot();
    assert_eq!(snap[0].agents[0].status, "starting");
    assert_eq!(snap[0].agents[1].status, "running");
}

#[test]
fn delegation_payloads() {
    assert_eq!(
        parse_delegation(r#"{"role":"coder","task":"fix it"}"#),
        Some(("coder".to_string(), "fix it".to_string()))
    );
    assert_eq!(parse_delegation(r#"{"task":"t"}"#), Some(("default".to_string(), "t".to_string())));
    assert_eq!(parse_delegation(r#"{}"#), Some(("default".to_string(), String::new())));
    assert_eq!(parse_delegation("garbage"), None);
}

#[test]
fn swarm_status_reply_lists_agents_and_squads() {
    let agents = vec![SwarmAgent { id: 0x0123456789abcdef0011223344556677, role: "coder".to_string() }];
    let squads = vec![ActiveSquad {
        id: 1,
        name: "alpha".to_string(),
        agents: vec![ActiveSquadAgent {
            id: 0xff,
            role: "tester".to_string(),
            goal: "do \"it\"".to_string(),
            status: "starting".to_string(),
        }],
    }];
    let reply = status_reply(&agents, &squads).unwrap();
    assert_eq!(
        reply,
        [
            r#"{"agents":[{"id":"01234567-89ab-cdef-0011-223344556677","role":"coder"}],"count":1,"#,
            r#""squads":[{"agents":[{"goal":"do \"it\"","id":"00000000-0000-0000-0000-0000000000ff","#,
            r#""role":"tester","status":"starting"}],"id":"00000000-0000-0000-0000-000000000001","name":"alpha"}]}"#,
        ]
        .concat()
    );
    assert_eq!(status_reply(&Vec::new(), &Vec::new()).unwrap(), r#"{"agents":[],"count":0,"squads":[]}"#);
}

#[test]
fn squad_agent_status_moves_forward() {
    let mut s = SwarmState::new();
    let id = s.start_squad(&squad("beta", &["coder"]));
    let mut task = s.member_tasks(id).remove(0);
    assert_eq!(s.squads_snapshot()[0].agents[0].status, "starting");
    let (role, _goal) = task.start(&mut s);
    assert_eq!(role, "coder");
    assert_eq!(s.squads_snapshot()[0].agents[0].status, "running");
    task.on_run_returned(&mut s);
    assert_eq!(s.squads_snapshot()[0].agents[0].status, "finished");
    assert_eq!(s.squads_snapshot()[0].agents.len(), 1);
    assert!(s
        .squads_snapshot()
        .iter()
        .all(|q| q.agents.iter().all(|a| ["starting", "running", "finished"].contains(&a.status.as_str()))));
}
