use cortex_core::tools::delegation::{error_reply, reply_output, request_payload};
use cortex_core::tools::mcp::McpTool;
use cortex_core::tools::script::ScriptTool;
use cortex_core::tools::web::{http_failure, page_output, read_url, request_failure, search_query, search_results};

fn mcp_tool() -> McpTool {
    McpTool {
        name: "read_file".to_string(),
        description: "Role MCP Tool: fs".to_string(),
        command: "npx".to_string(),
        args: vec!["-y".to_string(), "server-fs".to_string()],
    }
}

#[test]
fn mcp_request_line_is_a_json_rpc_call() {
    let line = mcp_tool().request_line(r#"{"path": "/tmp/x"}"#).unwrap();
    assert!(line.ends_with('\n'));
    let v: serde_json::Value = serde_json::from_str(line.trim_end()).unwrap();
    assert_eq!(v["jsonrpc"], "2.0");
    assert_eq!(v["id"], 1);
    assert_eq!(v["method"], "tools/call");
    assert_eq!(v["params"]["name"], "read_file");
    assert_eq!(v["params"]["arguments"]["path"], "/tmp/x");
    assert!(!line.trim_end().contains('\n'));
    assert!(mcp_tool().request_line("not json").is_none());
}

#[test]
fn mcp_reply_content_is_joined() {
    let reply = r#"{"jsonrpc":"2.0","id":1,"result":{"content":[{"type":"text","text":"one"},{"type":"image"},{"text":"two"}]}}"#;
    let out = McpTool::read_reply(Some(reply)).unwrap();
    assert!(out.success);
    assert_eq!(out.content, "one\n\ntwo");
    let empty = McpTool::read_reply(Some(r#"{"result":{}}"#)).unwrap();
    assert!(empty.success);
    assert_eq!(empty.content, "");
}

#[test]
fn mcp_reply_errors() {
    let failed = McpTool::read_reply(Some(r#"{"error":{"code":-32601,"message":"no such tool"}}"#)).unwrap();
    assert!(!failed.success);
    let err: serde_json::Value = serde_json::from_str(&failed.error.unwrap()).unwrap();
    assert_eq!(err["code"], -32601);
    assert_eq!(
        McpTool::read_reply(Some(r#"{"id":1}"#)).unwrap_err(),
        "Missing result in MCP response"
    );
    assert_eq!(McpTool::read_reply(None).unwrap_err(), "MCP server closed unexpectedly");
    let expected = serde_json::from_str::<serde_json::Value>("garbage").unwrap_err().to_string();
    assert_eq!(McpTool::read_reply(Some("garbage")).unwrap_err(), expected);
}

fn script(interpreter: Option<&str>) -> ScriptTool {
    ScriptTool {
        name: "sc_build".to_string(),
        description: "Custom Shell script: build".to_string(),
        script_path: "tools/build.sh".to_string(),
        interpreter: interpreter.map(|s| s.to_string()),
    }
}

#[test]
fn script_command_uses_the_interpreter() {
    let (program, argv) = script(Some("python3")).command();
    assert_eq!(program, "python3");
    assert_eq!(argv, vec!["tools/build.sh".to_string()]);
    let (program, argv) = script(None).command();
    assert_eq!(program, "tools/build.sh");
    assert!(argv.is_empty());
}

#[test]
fn script_environment() {
    let env = ScriptTool::env_vars(r#"{"target": "release", "jobs": 4, "flags": ["a"]}"#).unwrap();
    assert_eq!(env[0].0, "CORTEX_TOOL_ARGS");
    let whole: serde_json::Value = serde_json::from_str(&env[0].1).unwrap();
    assert_eq!(whole["jobs"], 4);
    assert!(!env[0].1.contains(": "));
    let rest: Vec<(String, String)> = env[1..].to_vec();
    assert!(rest.contains(&("ARG_TARGET".to_string(), "release".to_string())));
    assert!(rest.contains(&("ARG_JOBS".to_string(), "4".to_string())));
    assert!(rest.contains(&("ARG_FLAGS".to_string(), r#"["a"]"#.to_string())));
    assert_eq!(rest.len(), 3);
    let only = ScriptTool::env_vars("[1,2]").unwrap();
    assert_eq!(only, vec![("CORTEX_TOOL_ARGS".to_string(), "[1,2]".to_string())]);
    assert!(ScriptTool::env_vars("{oops").is_none());
}

#[test]
fn script_outcome() {
    let ok = ScriptTool::finish(true, b"done\n", b"warning");
    assert!(ok.success);
    assert_eq!(ok.content, "done\n");
    assert!(ok.error.is_none());
    let bad = ScriptTool::finish(false, b"", b"boom");
    assert!(!bad.success);
    assert_eq!(bad.error.as_deref(), Some("boom"));
}

#[test]
fn web_read_arguments_and_failures() {
    assert_eq!(read_url(r#"{"url":"https://a.example"}"#).unwrap(), "https://a.example");
    let missing = read_url("{}").unwrap_err();
    assert_eq!(missing.error.as_deref(), Some("Missing 'url' argument"));
    assert_eq!(http_failure("404 Not Found").error.as_deref(), Some("HTTP error: 404 Not Found"));
    assert_eq!(request_failure("dns").error.as_deref(), Some("Request failed: dns"));
}

#[test]
fn web_read_renders_page_text() {
    let body = b"<html><body><h1>Title</h1><p>Hello <b>world</b></p></body></html>";
    let out = page_output(body).unwrap();
    assert!(out.success);
    assert_eq!(out.content, html2text::from_read(&body[..], 80));
    assert!(out.content.contains("Hello"));
    assert!(!out.content.contains("<p>"));
}

#[test]
fn web_search_is_simulated() {
    assert_eq!(search_query(r#"{"query":"rust"}"#).unwrap(), "rust");
    assert_eq!(search_query("{}").unwrap_err().error.as_deref(), Some("Missing 'query' argument"));
    let out = search_results("rust").unwrap();
    assert!(out.success);
    let v: serde_json::Value = serde_json::from_str(&out.content).unwrap();
    assert_eq!(v[0]["title"], "Search result for: rust");
    assert_eq!(v[0]["url"], "https://example.com/search");
    assert!(out.content.contains("\n  "));
}

#[test]
fn delegation_payload_and_reply() {
    let payload = request_payload("devops", "deploy");
    let v: serde_json::Value = serde_json::from_str(&payload).unwrap();
    assert_eq!(v["role"], "devops");
    assert_eq!(v["task"], "deploy");
    let ok = reply_output("devops", Ok(br#"{"final_answer":"deployed","steps":[]}"#.to_vec())).unwrap();
    assert!(ok.success);
    assert_eq!(ok.content, "Result from devops: deployed");
    let none = reply_output("devops", Ok(br#"{"status":"error"}"#.to_vec())).unwrap();
    assert_eq!(none.content, "Result from devops: No answer provided");
    let failed = reply_output("devops", Err("no responders".to_string())).unwrap();
    assert!(!failed.success);
    assert_eq!(failed.error.as_deref(), Some("Delegation failed: no responders"));
    assert!(reply_output("devops", Ok(b"\xff".to_vec())).is_err());
    let e: serde_json::Value = serde_json::from_str(&error_reply("boom")).unwrap();
    assert_eq!(e["status"], "error");
    assert_eq!(e["error"], "boom");
}
