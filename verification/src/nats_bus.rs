//! Messages that flow over the bus between the runtime, its front ends and the
//! memory/brain service.

use vstd::prelude::*;
use crate::json::{field_views, json_object, json_object_text};
use crate::text::opt_view;
use crate::tools::{ToolOutput, ToolOutputView};

verus! {

/// A task request flowing through the bus. `args` holds the tool arguments as
/// JSON text.
#[derive(Debug, Clone)]
pub struct TaskRequest {
    pub id: String,
    pub prompt: String,
    pub tool: Option<String>,
    pub args: Option<String>,
}

/// A task result flowing back through the bus.
#[derive(Debug, Clone)]
pub struct TaskResult {
    pub id: String,
    pub status: TaskStatus,
    pub output: String,
    pub error: Option<String>,
}

pub struct TaskResultView {
    pub id: Seq<char>,
    pub status: TaskStatus,
    pub output: Seq<char>,
    pub error: Option<Seq<char>>,
}

impl View for TaskResult {
    type V = TaskResultView;

    open spec fn view(&self) -> TaskResultView {
        TaskResultView { id: self.id@, status: self.status, output: self.output@, error: opt_view(self.error) }
    }
}

#[derive(Debug, Clone, Copy, PartialEq, Eq, Structural)]
pub enum TaskStatus {
    Success,
    Error,
    Denied,
}

/// Request to store a memory via cortex.memory.store; `metadata` is JSON text.
#[derive(Debug, Clone)]
pub struct MemoryStoreRequest {
    pub content: String,
    pub wing: String,
    pub room: String,
    pub metadata: Option<String>,
}

/// Request to search memory via cortex.memory.search
#[derive(Debug, Clone)]
pub struct MemorySearchRequest {
    pub query: String,
    pub top_k: usize,
    pub wing: Option<String>,
}

/// Request to ingest text via cortex.memory.ingest; `metadata` is JSON text.
#[derive(Debug, Clone)]
pub struct MemoryIngestRequest {
    pub text: String,
    pub wing: String,
    pub room: String,
    pub metadata: Option<String>,
}

/// Request to list memories via cortex.memory.list
#[derive(Debug, Clone)]
pub struct MemoryListRequest {
    pub wing: Option<String>,
    pub room: Option<String>,
    pub limit: usize,
}

/// Request to delete a memory via cortex.memory.delete
#[derive(Debug, Clone)]
pub struct MemoryDeleteRequest {
    pub memory_id: String,
}

/// Request LLM thinking via cortex.brain.think
#[derive(Debug, Clone)]
pub struct BrainThinkRequest {
    pub prompt: String,
    pub model: Option<String>,
    pub include_memory: bool,
    pub stream: bool,
}

/// The number of search hits asked for when a request names none.
pub fn default_top_k() -> (k: usize)
    ensures
        k == 5,
{
    5
}

/// The number of memories listed when a request names no limit.
pub fn default_limit() -> (l: usize)
    ensures
        l == 50,
{
    50
}

/// Whether memory is included when a request does not say.
pub fn default_true() -> (b: bool)
    ensures
        b,
{
    true
}

/// The result a task's tool run reports: success exactly when the tool
/// succeeded, with its content and error; a tool that could not run is an
/// error with its message and no output.
pub open spec fn task_result_of(id: Seq<char>, outcome: Result<ToolOutputView, Seq<char>>) -> TaskResultView {
    match outcome {
        Ok(o) => TaskResultView {
            id,
            status: if o.success { TaskStatus::Success } else { TaskStatus::Error },
            output: o.content,
            error: o.error,
        },
        Err(e) => TaskResultView { id, status: TaskStatus::Error, output: Seq::empty(), error: Some(e) },
    }
}

pub open spec fn outcome_view(r: Result<ToolOutput, String>) -> Result<ToolOutputView, Seq<char>> {
    match r {
        Ok(t) => Ok(t@),
        Err(e) => Err(e@),
    }
}

impl TaskResult {
    /// The result of a task from its tool's outcome.
    pub fn from_tool_outcome(id: String, outcome: Result<ToolOutput, String>) -> (r: TaskResult)
        ensures
            r@ == task_result_of(id@, outcome_view(outcome)),
            r.status == TaskStatus::Success <==> (outcome matches Ok(o) && o.success),
            r.status != TaskStatus::Success ==> r.status == TaskStatus::Error,
            r.id@ == id@,
    {
        match outcome {
            Ok(o) => TaskResult {
                id,
                status: if o.success { TaskStatus::Success } else { TaskStatus::Error },
                output: o.content,
                error: o.error,
            },
            Err(e) => TaskResult { id, status: TaskStatus::Error, output: String::new(), error: Some(e) },
        }
    }
}

impl TaskRequest {
    /// The tool a task runs and its JSON arguments: by default `bash`, with the
    /// prompt as the command.
    pub fn tool_call(&self) -> (r: (String, String))
        ensures
            r.0@ == match self.tool { Some(t) => t@, None => "bash"@ },
            r.1@ == match self.args { Some(a) => a@, None => json_object_text(seq![("command"@, self.prompt@)]) },
    {
        let tool = match &self.tool {
            Some(t) => t.clone(),
            None => "bash".to_owned(),
        };
        let args = match &self.args {
            Some(a) => a.clone(),
            None => {
                let mut fields: Vec<(String, String)> = Vec::new();
                fields.push(("command".to_owned(), self.prompt.clone()));
                assert(field_views(fields@) =~= seq![("command"@, self.prompt@)]);
                json_object(&fields)
            },
        };
        (tool, args)
    }
}

/// A task is reported as a success exactly when its tool ran and its output
/// says it succeeded; every other outcome, a failed output or a tool that could
/// not run, is reported as an error. The id is kept, and the output and error
/// are the tool's (the message of a tool that could not run as the error).
pub proof fn lemma_task_status_follows_tool(id: Seq<char>, outcome: Result<ToolOutputView, Seq<char>>)
    ensures
        task_result_of(id, outcome).status == TaskStatus::Success <==> (outcome matches Ok(o) && o.success),
        task_result_of(id, outcome).status != TaskStatus::Success ==> task_result_of(id, outcome).status
            == TaskStatus::Error,
        task_result_of(id, outcome).id == id,
        outcome matches Ok(o) ==> task_result_of(id, outcome).output == o.content && task_result_of(id, outcome).error
            == o.error,
        outcome matches Err(e) ==> task_result_of(id, outcome).output.len() == 0 && task_result_of(id, outcome).error
            == Some(e),
{
}

} // verus!
