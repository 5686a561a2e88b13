use cortex_core::gateway::{adapter_index, route_reply, think_request_payload, IncomingMessage, RateLimiter, RATE_LIMIT_MAX, RATE_LIMIT_WINDOW_NANOS};
use cortex_core::agent::{AgentError, AgentResult, AgentStep};
use cortex_core::nats_bus::{TaskResult, TaskStatus};
use cortex_core::repl::{
    agent_report, parse_line, recall_display, recall_report, recall_report_checked, remember_report, think_report,
    tool_report, RecallLine, ReplCommand,
};
use cortex_core::tools::ToolOutput;
use cortex_core::tui::{remove_all, DashboardState, Key, Tab, MAX_LOG_LINES};

fn message(platform: &str, channel: &str) -> IncomingMessage {
    IncomingMessage {
        platform: platform.to_string(),
        channel_id: channel.to_string(),
        user_id: "u1".to_string(),
        text: "hello".to_string(),
    }
}

#[test]
fn rate_limiter_allows_ten_per_window() {
    let mut r = RateLimiter::new();
    let t0 = 1_000_000_000u64;
    for i in 0..RATE_LIMIT_MAX {
        assert!(r.allow_message("alice", t0 + i));
    }
    assert!(!r.allow_message("alice", t0 + 100));
    assert!(!r.allow_message("alice", t0 + RATE_LIMIT_WINDOW_NANOS));
    // another user has a window of their own
    assert!(r.allow_message("bob", t0 + 100));
    // once the window has passed, the count starts again
    assert!(r.allow_message("alice", t0 + RATE_LIMIT_WINDOW_NANOS + 1));
    assert!(r.allow_message("alice", t0 + RATE_LIMIT_WINDOW_NANOS + 2));
}

#[test]
fn rate_limiter_tolerates_a_clock_going_back() {
    let mut r = RateLimiter::new();
    assert!(r.allow_message("carol", 500));
    assert!(r.allow_message("carol", 100));
}

#[test]
fn replies_go_where_the_metadata_says() {
    let msg = message("discord", "c1");
    let out = r#"{"response":"hi there","metadata":{"platform":"telegram","channel_id":"42"}}"#;
    let reply = route_reply(out, &msg).unwrap();
    assert_eq!(reply.platform, "telegram");
    assert_eq!(reply.channel_id, "42");
    assert_eq!(reply.text, "hi there");
}

#[test]
fn replies_default_to_the_message_route() {
    let msg = message("discord", "c1");
    let out = r#"{"metadata":{}}"#;
    let reply = route_reply(out, &msg).unwrap();
    assert_eq!(reply.platform, "discord");
    assert_eq!(reply.channel_id, "c1");
    assert_eq!(reply.text, out);
    assert!(route_reply(r#"{"response":"x"}"#, &msg).is_none());
    assert!(route_reply("plain text", &msg).is_none());
}

#[test]
fn dashboard_tabs_cycle() {
    let mut d = DashboardState::new("started".to_string());
    assert_eq!(d.active_tab(), Tab::Agents);
    assert_eq!(d.tab_position(), 0);
    d.next_tab();
    assert_eq!(d.active_tab(), Tab::Memory);
    d.next_tab();
    d.next_tab();
    assert_eq!(d.active_tab(), Tab::Config);
    assert_eq!(d.tab_position(), 3);
    d.next_tab();
    assert_eq!(d.active_tab(), Tab::Agents);
}

#[test]
fn dashboard_log_is_bounded() {
    let mut d = DashboardState::new("line 0".to_string());
    for i in 1..MAX_LOG_LINES {
        d.push_log(format!("line {i}"));
    }
    assert_eq!(d.log_lines().len(), MAX_LOG_LINES);
    d.push_log("one more".to_string());
    let lines = d.log_lines();
    assert_eq!(lines.len(), MAX_LOG_LINES + 1 - 100);
    assert_eq!(lines[0], "line 100");
    assert_eq!(lines.last().unwrap(), "one more");
}

#[test]
fn dashboard_spinner() {
    let mut d = DashboardState::new(String::new());
    d.tick();
    assert_eq!(d.thinking_step(), 0);
    d.set_thinking(true);
    for _ in 0..5 {
        d.tick();
    }
    assert_eq!(d.thinking_step(), 1);
    d.set_thinking(false);
    d.tick();
    assert_eq!(d.thinking_step(), 1);
}

#[test]
fn repl_commands() {
    assert!(matches!(parse_line("   "), ReplCommand::Empty));
    assert!(matches!(parse_line(" exit "), ReplCommand::Exit));
    assert!(matches!(parse_line("quit"), ReplCommand::Exit));
    assert!(matches!(parse_line("tools"), ReplCommand::Tools));
    match parse_line("bash ls -la") {
        ReplCommand::Tool { name, args } => {
            assert_eq!(name, "bash");
            assert_eq!(args, r#"{"command":"ls -la"}"#);
        }
        other => panic!("unexpected {:?}", other),
    }
    match parse_line("file_write notes.txt hello world") {
        ReplCommand::Tool { name, args } => {
            assert_eq!(name, "file_write");
            assert_eq!(args, r#"{"content":"hello world","path":"notes.txt"}"#);
        }
        other => panic!("unexpected {:?}", other),
    }
    match parse_line("tree") {
        ReplCommand::Tool { name, args } => {
            assert_eq!(name, "file_tree");
            assert_eq!(args, r#"{"path":"."}"#);
        }
        other => panic!("unexpected {:?}", other),
    }
    assert!(matches!(parse_line("think why"), ReplCommand::Think(p) if p == "why"));
    assert!(matches!(parse_line("remember the milk"), ReplCommand::Remember(p) if p == "the milk"));
    assert!(matches!(parse_line("recall milk"), ReplCommand::Recall(p) if p == "milk"));
    assert!(matches!(parse_line("agent ship it"), ReplCommand::Agent(p) if p == "ship it"));
    assert!(matches!(parse_line("think"), ReplCommand::Usage(u) if u == "  Usage: think <prompt>"));
    assert!(matches!(
        parse_line("file_write only-path"),
        ReplCommand::Usage(u) if u == "  Usage: file_write <path> <content>"
    ));
    assert!(matches!(parse_line("dance now"), ReplCommand::Unknown(c) if c == "dance"));
}

#[test]
fn recall_display_cuts_long_memories() {
    assert_eq!(recall_display("short"), "short");
    let long = "x".repeat(130);
    assert_eq!(recall_display(&long), format!("{}...", "x".repeat(120)));
    let exact = "y".repeat(120);
    assert_eq!(recall_display(&exact), exact);
}

fn reply(output: &str) -> Result<TaskResult, String> {
    Ok(TaskResult { id: "1".to_string(), status: TaskStatus::Success, output: output.to_string(), error: None })
}

fn failed_reply(error: Option<&str>) -> Result<TaskResult, String> {
    Ok(TaskResult {
        id: "1".to_string(),
        status: TaskStatus::Error,
        output: String::new(),
        error: error.map(|e| e.to_string()),
    })
}

#[test]
fn tool_report_lines() {
    let ok = ToolOutput { success: true, content: "out".to_string(), error: None };
    assert_eq!(tool_report(&ok).as_deref(), Some("out"));
    let bad = ToolOutput { success: false, content: String::new(), error: Some("nope".to_string()) };
    assert_eq!(tool_report(&bad).as_deref(), Some("  [ERROR] nope"));
    let silent = ToolOutput { success: false, content: String::new(), error: None };
    assert_eq!(tool_report(&silent), None);
}

#[test]
fn think_report_lines() {
    assert_eq!(
        think_report(reply(r#"{"response":"Hi","model":"m1"}"#)),
        vec!["  Hi".to_string(), "\n  ─── model: m1 ───".to_string()]
    );
    assert_eq!(think_report(reply(r#"{"other":1}"#)), vec![r#"  {"other":1}"#.to_string()]);
    assert_eq!(think_report(reply("plain")), vec!["  plain".to_string()]);
    assert_eq!(think_report(failed_reply(Some("down"))), vec!["  [ERROR] down".to_string()]);
    assert!(think_report(failed_reply(None)).is_empty());
    assert_eq!(
        think_report(Err("timeout".to_string())),
        vec!["  [ERROR] Brain unavailable: timeout".to_string()]
    );
}

#[test]
fn remember_report_lines() {
    assert_eq!(
        remember_report(reply(r#"{"ingested":3}"#)),
        vec!["  ✓ Memory stored.".to_string(), "  (3 chunk(s) ingested)".to_string()]
    );
    assert_eq!(remember_report(reply("ok")), vec!["  ✓ Memory stored.".to_string()]);
    assert_eq!(
        remember_report(Err("down".to_string())),
        vec!["  [ERROR] Memory service unavailable: down".to_string()]
    );
}

#[test]
fn recall_report_lines() {
    let lines = recall_report(
        "milk",
        reply(r#"{"results":[{"content":"buy milk","score":0.91},{"score":"high"},{"content":"x"}]}"#),
    );
    assert_eq!(lines.len(), 4);
    assert!(matches!(&lines[0], RecallLine::Text(t) if t == "  Found 3 memories:\n"));
    match &lines[1] {
        RecallLine::Hit { number, score, display } => {
            assert_eq!(*number, 1);
            assert_eq!(score.as_deref(), Some("0.91"));
            assert_eq!(display, "buy milk");
        }
        other => panic!("unexpected {:?}", other),
    }
    assert!(matches!(&lines[2], RecallLine::Hit { number: 2, display, .. } if display == "???"));
    assert!(matches!(&lines[3], RecallLine::Hit { score: None, .. }));
    let none = recall_report("tea", reply(r#"{"results":[]}"#));
    assert!(matches!(&none[0], RecallLine::Text(t) if t == "  No memories found for: \"tea\""));
    let raw = recall_report("tea", reply("raw text"));
    assert!(matches!(&raw[0], RecallLine::Text(t) if t == "  raw text"));
}

#[test]
fn recall_report_cuts_long_contents() {
    let long = "a".repeat(150);
    let out = format!(r#"{{"results":[{{"content":"{long}"}}]}}"#);
    let lines = recall_report_checked("q", reply(&out)).unwrap();
    assert!(matches!(&lines[1], RecallLine::Hit { display, .. } if *display == format!("{}...", "a".repeat(120))));
    // a cut inside a multi-byte character is refused
    let bad = format!("{}é{}", "a".repeat(119), "b".repeat(10));
    let out = format!(r#"{{"results":[{{"content":"{bad}"}}]}}"#);
    assert!(recall_report_checked("q", reply(&out)).is_none());
}

#[test]
fn agent_report_lines() {
    let ok: Result<AgentResult, AgentError> = Ok(AgentResult {
        final_answer: "42".to_string(),
        steps: vec![AgentStep { thought: "42".to_string(), action: None, observation: None }],
    });
    let lines = agent_report(&ok);
    assert_eq!(lines[3], "  42");
    assert_eq!(lines[4], "\n  Steps taken: 1");
    let err: Result<AgentResult, AgentError> = Err(AgentError::Bus("no bus".to_string()));
    assert_eq!(agent_report(&err), vec!["\n  [ERROR] Agent failed: no bus".to_string()]);
}

#[test]
fn dashboard_keys() {
    let mut d = DashboardState::new("start".to_string());
    for c in "search cats".chars() {
        d.on_key(Key::Char { c, control: false }, true);
    }
    assert_eq!(d.input_text(), "search cats");
    assert_eq!(d.prompt_line(), "  cortex > search cats_");
    d.on_key(Key::Backspace, true);
    d.on_key(Key::Char { c: 's', control: false }, true);
    d.on_key(Key::Enter, true);
    assert_eq!(d.input_text(), "");
    let logs = d.log_lines();
    assert_eq!(logs[1], "▸ search cats");
    assert_eq!(logs[2], "[MEMORY] Searching for: cats");
    d.on_key(Key::Enter, true);
    assert_eq!(d.log_lines().len(), 3);
    d.on_key(Key::Tab, true);
    assert_eq!(d.active_tab(), Tab::Memory);
    assert_eq!(d.active_tab().label(), "Memory");
    assert!(!d.should_quit());
    d.on_key(Key::Char { c: 'c', control: false }, true);
    assert!(!d.should_quit());
    d.on_key(Key::Char { c: 'c', control: true }, true);
    assert!(d.should_quit());
}

#[test]
fn dashboard_search_without_bus_only_logs_the_line() {
    let mut d = DashboardState::new("start".to_string());
    for c in "search dogs".chars() {
        d.on_key(Key::Char { c, control: false }, false);
    }
    d.on_key(Key::Enter, false);
    assert_eq!(d.log_lines().len(), 2);
    let mut q = DashboardState::new(String::new());
    q.on_key(Key::Char { c: 'q', control: false }, false);
    assert!(q.should_quit());
    assert_eq!(q.input_text(), "");
}

#[test]
fn dashboard_status_text() {
    let mut d = DashboardState::new(String::new());
    assert_eq!(d.status(), "IDLE");
    d.set_thinking(true);
    assert_eq!(d.status(), "⠋ Thinking...");
    d.tick();
    assert_eq!(d.status(), "⠙ Thinking...");
}

#[test]
fn remove_all_takes_out_every_occurrence() {
    let s: Vec<char> = "search search x search".chars().collect();
    let p: Vec<char> = "search ".chars().collect();
    assert_eq!(remove_all(&s, &p).into_iter().collect::<String>(), "x search");
    assert_eq!(
        remove_all(&s, &p).into_iter().collect::<String>(),
        "search search x search".replace("search ", "")
    );
    let e: Vec<char> = vec![];
    assert_eq!(remove_all(&s, &e), s);
}

#[test]
fn gateway_think_request_carries_the_route() {
    let mut msg = message("discord", "c9");
    msg.text = "what \"now\"?".to_string();
    let payload = think_request_payload(&msg).unwrap();
    let v: serde_json::Value = serde_json::from_str(&payload).unwrap();
    assert_eq!(v["prompt"], "what \"now\"?");
    assert_eq!(v["include_memory"], true);
    assert_eq!(v["stream"], false);
    assert_eq!(v["metadata"]["platform"], "discord");
    assert_eq!(v["metadata"]["channel_id"], "c9");
    assert_eq!(v["metadata"]["user_id"], "u1");
}

#[test]
fn gateway_adapter_choice_ignores_case() {
    let names = vec!["Telegram".to_string(), "Discord".to_string()];
    assert_eq!(adapter_index(&names, "discord"), Some(1));
    assert_eq!(adapter_index(&names, "TELEGRAM"), Some(0));
    assert_eq!(adapter_index(&names, "slack"), None);
}
