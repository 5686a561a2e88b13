use cortex_core::agent::{AgentAction, AgentError, AgentRun, Phase};
use cortex_core::health::{reply_is_healthy, CircuitBreaker, HealthAction, MAX_CONSECUTIVE_FAILURES};
use cortex_core::nats_bus::{default_limit, default_top_k, default_true, TaskRequest, TaskResult, TaskStatus};
use cortex_core::tools::ToolOutput;
use cortex_core::workflow::{Workflow, WorkflowAction, WorkflowRun, WorkflowStep};

fn brain(output: &str) -> Result<TaskResult, String> {
    Ok(TaskResult {
        id: "t1".to_string(),
        status: TaskStatus::Success,
        output: output.to_string(),
        error: None,
    })
}

fn ok_tool(content: &str) -> Result<ToolOutput, String> {
    Ok(ToolOutput { success: true, content: content.to_string(), error: None })
}

#[test]
fn agent_runs_a_tool_then_answers() {
    let mut run = AgentRun::new("list files", 3);
    assert_eq!(run.phase(), Phase::Idle);
    match run.start() {
        AgentAction::Think(req) => {
            assert_eq!(req.prompt, "list files");
            assert!(req.model.is_none());
            assert!(req.include_memory);
            assert!(!req.stream);
        }
        other => panic!("unexpected {:?}", other),
    }
    assert_eq!(run.phase(), Phase::AwaitingBrain);
    let reply = r#"{"response":"I will list","tool_call":{"tool":"bash","args":{"command":"ls"}}}"#;
    match run.on_brain_reply(brain(reply)) {
        AgentAction::RunTool { tool, args } => {
            assert_eq!(tool, "bash");
            assert_eq!(args, r#"{"command":"ls"}"#);
        }
        other => panic!("unexpected {:?}", other),
    }
    assert_eq!(run.phase(), Phase::AwaitingTool);
    match run.on_tool_result(ok_tool("a.txt b.txt")) {
        AgentAction::Think(req) => {
            assert_eq!(req.prompt, "list files\n\n[OBSERVATION from bash]\na.txt b.txt")
        }
        other => panic!("unexpected {:?}", other),
    }
    match run.on_brain_reply(brain(r#"{"response":"Two files.","tool_call":null}"#)) {
        AgentAction::Done(result) => {
            assert_eq!(result.final_answer, "Two files.");
            assert_eq!(result.steps.len(), 2);
            assert_eq!(result.steps[0].thought, "I will list");
            assert_eq!(result.steps[0].action.as_deref(), Some(r#"bash({"command":"ls"})"#));
            assert_eq!(result.steps[0].observation.as_deref(), Some("a.txt b.txt"));
            assert_eq!(result.steps[1].thought, "Two files.");
            assert!(result.steps[1].action.is_none());
        }
        other => panic!("unexpected {:?}", other),
    }
    assert_eq!(run.phase(), Phase::Finished);
}

#[test]
fn agent_stops_at_the_step_budget() {
    let mut run = AgentRun::new("loop", 1);
    assert!(matches!(run.start(), AgentAction::Think(_)));
    let reply = r#"{"response":"again","tool_call":{"tool":"bash","args":{"command":"true"}}}"#;
    assert!(matches!(run.on_brain_reply(brain(reply)), AgentAction::RunTool { .. }));
    match run.on_tool_result(ok_tool("")) {
        AgentAction::Done(result) => {
            assert_eq!(result.final_answer, "again");
            assert_eq!(result.steps.len(), 1);
        }
        other => panic!("unexpected {:?}", other),
    }
}

#[test]
fn agent_with_no_budget_answers_nothing() {
    let mut run = AgentRun::new("x", 0);
    match run.start() {
        AgentAction::Done(result) => {
            assert_eq!(result.final_answer, "");
            assert!(result.steps.is_empty());
        }
        other => panic!("unexpected {:?}", other),
    }
}

#[test]
fn agent_tool_failure_becomes_observation() {
    let mut run = AgentRun::new("p", 5);
    run.start();
    let reply = r#"{"response":"try","tool_call":{"tool":"file_read"}}"#;
    match run.on_brain_reply(brain(reply)) {
        AgentAction::RunTool { tool, args } => {
            assert_eq!(tool, "file_read");
            assert_eq!(args, "{}");
        }
        other => panic!("unexpected {:?}", other),
    }
    let failed = Ok(ToolOutput { success: false, content: String::new(), error: None });
    match run.on_tool_result(failed) {
        AgentAction::Think(req) => assert_eq!(req.prompt, "p\n\n[OBSERVATION from file_read]\nUnknown error"),
        other => panic!("unexpected {:?}", other),
    }
}

#[test]
fn agent_tool_that_could_not_run_ends_the_run() {
    let mut run = AgentRun::new("p", 5);
    run.start();
    let reply = r#"{"response":"go","tool_call":{"tool":"nope","args":{}}}"#;
    run.on_brain_reply(brain(reply));
    match run.on_tool_result(Err("Tool not found: nope".to_string())) {
        AgentAction::Done(result) => {
            assert_eq!(result.final_answer, "go");
            assert_eq!(result.steps[0].observation.as_deref(), Some("Error: Tool not found: nope"));
        }
        other => panic!("unexpected {:?}", other),
    }
}

#[test]
fn agent_errors() {
    let mut run = AgentRun::new("p", 2);
    run.start();
    assert!(matches!(
        run.on_brain_reply(Err("no responders".to_string())),
        AgentAction::Failed(AgentError::Bus(m)) if m == "no responders"
    ));
    let mut run = AgentRun::new("p", 2);
    run.start();
    let failed = Ok(TaskResult {
        id: "t".to_string(),
        status: TaskStatus::Error,
        output: String::new(),
        error: Some("model down".to_string()),
    });
    assert!(matches!(
        run.on_brain_reply(failed),
        AgentAction::Failed(AgentError::BrainFailed(Some(m))) if m == "model down"
    ));
    let mut run = AgentRun::new("p", 2);
    run.start();
    match run.on_brain_reply(brain("not json")) {
        AgentAction::Failed(e) => {
            assert!(matches!(e, AgentError::BadBrainOutput(_)));
            let expected = serde_json::from_str::<serde_json::Value>("not json").unwrap_err().to_string();
            assert_eq!(e.message(), expected);
        }
        other => panic!("unexpected {:?}", other),
    }
    assert_eq!(run.phase(), Phase::Finished);
}

#[test]
fn agent_reply_without_response_has_empty_thought() {
    let mut run = AgentRun::new("p", 2);
    run.start();
    match run.on_brain_reply(brain(r#"{"other":1}"#)) {
        AgentAction::Done(result) => assert_eq!(result.final_answer, ""),
        other => panic!("unexpected {:?}", other),
    }
}

fn step(name: &str, tool: &str) -> WorkflowStep {
    WorkflowStep { name: name.to_string(), tool: tool.to_string(), args: "{}".to_string(), description: None }
}

#[test]
fn workflow_runs_every_step_when_all_succeed() {
    let wf = Workflow {
        name: "build".to_string(),
        version: "1".to_string(),
        steps: vec![step("one", "bash"), step("two", "file_read")],
    };
    let mut run = WorkflowRun::new(wf);
    let mut seen = Vec::new();
    loop {
        match run.next() {
            WorkflowAction::RunStep { name, tool, .. } => {
                seen.push((name, tool));
                run.on_step_outcome(ok_tool("fine"));
            }
            WorkflowAction::Done(report) => {
                assert!(report.success);
                assert_eq!(report.workflow_name, "build");
                assert_eq!(report.step_results.len(), 2);
                assert_eq!(report.step_results[1].name, "two");
                assert_eq!(report.step_results[1].content, "fine");
                break;
            }
        }
    }
    assert_eq!(
        seen,
        vec![("one".to_string(), "bash".to_string()), ("two".to_string(), "file_read".to_string())]
    );
}

#[test]
fn workflow_halts_at_the_first_failure() {
    let wf = Workflow {
        name: "w".to_string(),
        version: "1".to_string(),
        steps: vec![step("a", "bash"), step("b", "bash"), step("c", "bash")],
    };
    let mut run = WorkflowRun::new(wf);
    assert!(matches!(run.next(), WorkflowAction::RunStep { .. }));
    run.on_step_outcome(ok_tool("x"));
    assert!(matches!(run.next(), WorkflowAction::RunStep { .. }));
    run.on_step_outcome(Err("Tool not found: bash".to_string()));
    match run.next() {
        WorkflowAction::Done(report) => {
            assert!(!report.success);
            assert_eq!(report.step_results.len(), 2);
            assert!(!report.step_results[1].success);
            assert_eq!(report.step_results[1].error.as_deref(), Some("Tool not found: bash"));
            assert_eq!(report.step_results[1].content, "");
        }
        WorkflowAction::RunStep { .. } => panic!("ran a step after a failure"),
    }
}

#[test]
fn empty_workflow_succeeds() {
    let run = WorkflowRun::new(Workflow { name: "e".to_string(), version: "0".to_string(), steps: vec![] });
    match run.next() {
        WorkflowAction::Done(report) => {
            assert!(report.success);
            assert!(report.step_results.is_empty());
        }
        WorkflowAction::RunStep { .. } => panic!("no steps"),
    }
}

#[test]
fn task_results_from_tool_outcomes() {
    let ok = TaskResult::from_tool_outcome("a".to_string(), ok_tool("out"));
    assert_eq!(ok.status, TaskStatus::Success);
    assert_eq!(ok.output, "out");
    let err = TaskResult::from_tool_outcome("b".to_string(), Err("gone".to_string()));
    assert_eq!(err.status, TaskStatus::Error);
    assert_eq!(err.output, "");
    assert_eq!(err.error.as_deref(), Some("gone"));
    assert_eq!(err.id, "b");
}

#[test]
fn task_request_defaults_to_bash() {
    let req = TaskRequest { id: "1".to_string(), prompt: "echo hi".to_string(), tool: None, args: None };
    let (tool, args) = req.tool_call();
    assert_eq!(tool, "bash");
    assert_eq!(args, r#"{"command":"echo hi"}"#);
    let req = TaskRequest {
        id: "2".to_string(),
        prompt: "p".to_string(),
        tool: Some("file_read".to_string()),
        args: Some(r#"{"path":"x"}"#.to_string()),
    };
    assert_eq!(req.tool_call(), ("file_read".to_string(), r#"{"path":"x"}"#.to_string()));
}

#[test]
fn bus_defaults() {
    assert_eq!(default_top_k(), 5);
    assert_eq!(default_limit(), 50);
    assert!(default_true());
}

#[test]
fn breaker_trips_after_consecutive_failures() {
    let mut b = CircuitBreaker::new();
    for _ in 0..MAX_CONSECUTIVE_FAILURES - 1 {
        assert_eq!(b.on_check(false), HealthAction::Wait);
        assert!(!b.tripped());
    }
    assert_eq!(b.on_check(false), HealthAction::Trip);
    assert!(b.tripped());
}

#[test]
fn breaker_resets_on_success() {
    let mut b = CircuitBreaker::new();
    for _ in 0..4 {
        b.on_check(false);
    }
    assert_eq!(b.on_check(true), HealthAction::Wait);
    for _ in 0..4 {
        assert_eq!(b.on_check(false), HealthAction::Wait);
    }
    assert_eq!(b.on_check(false), HealthAction::Trip);
}

#[test]
fn health_reply_text() {
    assert!(reply_is_healthy(br#"{"status":"ok"}"#));
    assert!(reply_is_healthy(b"healthy"));
    assert!(!reply_is_healthy(b"degraded"));
    assert!(!reply_is_healthy(b""));
}

#[test]
fn agent_error_messages() {
    assert_eq!(AgentError::Bus("timed out".to_string()).message(), "timed out");
    assert_eq!(AgentError::BrainFailed(None).message(), "Brain failed: None");
    assert_eq!(
        AgentError::BrainFailed(Some("model \"x\" down".to_string())).message(),
        "Brain failed: Some(\"model \\\"x\\\" down\")"
    );
}
