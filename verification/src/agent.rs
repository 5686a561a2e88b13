//! The Think-Act-Observe loop of an autonomous agent, as a state machine: the
//! caller performs each action it asks for (a brain request, a tool run) and
//! hands the outcome back.

use vstd::prelude::*;
use crate::json::{json_error_of, json_field, json_field_of, json_parse_error, JsonField, JsonFieldView};
use crate::nats_bus::{BrainThinkRequest, TaskResult, TaskResultView, TaskStatus};
use crate::text::{concat, opt_view};
use crate::tools::{ToolOutput, ToolOutputView};

verus! {

/// An entry in the agent's short-term history.
#[derive(Debug)]
pub struct AgentStep {
    pub thought: String,
    pub action: Option<String>,
    pub observation: Option<String>,
}

pub struct AgentStepView {
    pub thought: Seq<char>,
    pub action: Option<Seq<char>>,
    pub observation: Option<Seq<char>>,
}

impl View for AgentStep {
    type V = AgentStepView;

    open spec fn view(&self) -> AgentStepView {
        AgentStepView { thought: self.thought@, action: opt_view(self.action), observation: opt_view(self.observation) }
    }
}

impl AgentStep {
    pub fn copy(&self) -> (r: Self)
        ensures
            r@ == self@,
    {
        AgentStep {
            thought: self.thought.clone(),
            action: crate::text::clone_opt_string(&self.action),
            observation: crate::text::clone_opt_string(&self.observation),
        }
    }
}

/// What a finished run produced: the last thought and every step taken.
#[derive(Debug)]
pub struct AgentResult {
    pub final_answer: String,
    pub steps: Vec<AgentStep>,
}

pub open spec fn step_views(v: Seq<AgentStep>) -> Seq<AgentStepView> {
    Seq::new(v.len(), |i: int| v[i]@)
}

/// Why a run stopped without a result.
#[derive(Debug)]
pub enum AgentError {
    /// The request to the brain failed; the message says why.
    Bus(String),
    /// The brain answered with a status other than success; its error, if any.
    BrainFailed(Option<String>),
    /// The brain's output is not JSON; the parser's message.
    BadBrainOutput(String),
}

pub enum AgentErrorView {
    Bus(Seq<char>),
    BrainFailed(Option<Seq<char>>),
    BadBrainOutput(Seq<char>),
}

/// The `Debug` text of an optional string, such as `Some("x")` or `None`.
pub uninterp spec fn debug_text_of(o: Option<Seq<char>>) -> Seq<char>;

/// Formats an optional string with `{:?}`. The contract names the result
/// `debug_text_of` of the string's characters, and states that nothing is
/// written `None`; how `Some` escapes the string is not stated.
#[verifier::external_body]
fn debug_text(o: &Option<String>) -> (r: String)
    ensures
        r@ == debug_text_of(opt_view(*o)),
        o is None ==> r@ == "None"@,
{
    format!("{:?}", o)
}

/// The message of a run's failure.
pub open spec fn error_message(e: AgentErrorView) -> Seq<char> {
    match e {
        AgentErrorView::Bus(m) => m,
        AgentErrorView::BrainFailed(m) => "Brain failed: "@ + debug_text_of(m),
        AgentErrorView::BadBrainOutput(m) => m,
    }
}

impl View for AgentError {
    type V = AgentErrorView;

    open spec fn view(&self) -> AgentErrorView {
        match self {
            AgentError::Bus(m) => AgentErrorView::Bus(m@),
            AgentError::BrainFailed(m) => AgentErrorView::BrainFailed(opt_view(*m)),
            AgentError::BadBrainOutput(m) => AgentErrorView::BadBrainOutput(m@),
        }
    }
}

impl AgentError {
    /// The failure's message.
    pub fn message(&self) -> (m: String)
        ensures
            m@ == error_message(self@),
    {
        match self {
            AgentError::Bus(m) => m.clone(),
            AgentError::BrainFailed(m) => concat("Brain failed: ", debug_text(m).as_str()),
            AgentError::BadBrainOutput(m) => m.clone(),
        }
    }
}

/// What the loop asks its driver to do next.
#[derive(Debug)]
pub enum AgentAction {
    /// Send this request to the brain and hand the reply to `on_brain_reply`.
    Think(BrainThinkRequest),
    /// Run this tool with these JSON arguments and hand the outcome to `on_tool_result`.
    RunTool { tool: String, args: String },
    /// The run is over.
    Done(AgentResult),
    /// The run failed.
    Failed(AgentError),
}

pub enum AgentActionView {
    Think { prompt: Seq<char>, model: Option<Seq<char>>, include_memory: bool, stream: bool },
    RunTool { tool: Seq<char>, args: Seq<char> },
    Done { final_answer: Seq<char>, steps: Seq<AgentStepView> },
    Failed(AgentErrorView),
}

impl View for AgentAction {
    type V = AgentActionView;

    open spec fn view(&self) -> AgentActionView {
        match self {
            AgentAction::Think(r) => AgentActionView::Think {
                prompt: r.prompt@,
                model: opt_view(r.model),
                include_memory: r.include_memory,
                stream: r.stream,
            },
            AgentAction::RunTool { tool, args } => AgentActionView::RunTool { tool: tool@, args: args@ },
            AgentAction::Done(res) => AgentActionView::Done {
                final_answer: res.final_answer@,
                steps: step_views(res.steps@),
            },
            AgentAction::Failed(e) => AgentActionView::Failed(e@),
        }
    }
}

/// Where a run stands.
#[derive(Debug, Clone, Copy, PartialEq, Eq, Structural)]
pub enum Phase {
    /// Not started.
    Idle,
    /// Waiting for the brain's reply.
    AwaitingBrain,
    /// Waiting for a tool's outcome.
    AwaitingTool,
    /// Over.
    Finished,
}

pub struct AgentRunView {
    pub prompt: Seq<char>,
    pub current_prompt: Seq<char>,
    pub history: Seq<AgentStepView>,
    pub steps_taken: nat,
    pub max_steps: nat,
    pub phase: Phase,
    pub pending: Option<AgentStepView>,
    pub pending_tool: Seq<char>,
}

// ───────────────────────── specification ─────────────────────────

/// The thought of the last step, or nothing.
pub open spec fn final_answer(history: Seq<AgentStepView>) -> Seq<char> {
    if history.len() > 0 {
        history.last().thought
    } else {
        Seq::empty()
    }
}

/// The brain's output is a JSON document.
pub open spec fn reply_parses(output: Seq<char>) -> bool {
    json_error_of(output) is None
}

/// The `response` string of the brain's output, or nothing.
pub open spec fn reply_thought(output: Seq<char>) -> Seq<char> {
    match json_field_of(output, "response"@) {
        JsonFieldView::Present(v) => match v.as_str {
            Some(s) => s,
            None => Seq::empty(),
        },
        _ => Seq::empty(),
    }
}

/// The tool name of a tool call, or nothing.
pub open spec fn call_tool(call: Seq<char>) -> Seq<char> {
    match json_field_of(call, "tool"@) {
        JsonFieldView::Present(v) => match v.as_str {
            Some(s) => s,
            None => Seq::empty(),
        },
        _ => Seq::empty(),
    }
}

/// The JSON text of a tool call's arguments, `{}` when it has none.
pub open spec fn call_args(call: Seq<char>) -> Seq<char> {
    match json_field_of(call, "args"@) {
        JsonFieldView::Present(v) => v.text,
        _ => "{}"@,
    }
}

/// The tool call of the brain's output (tool name and arguments), if it holds
/// a `tool_call` that is not null.
pub open spec fn reply_call(output: Seq<char>) -> Option<(Seq<char>, Seq<char>)> {
    match json_field_of(output, "tool_call"@) {
        JsonFieldView::Present(v) => if v.is_null {
            None
        } else {
            Some((call_tool(v.text), call_args(v.text)))
        },
        _ => None,
    }
}

/// The action text recorded for a tool call: `tool(args)`.
pub open spec fn action_text(tool: Seq<char>, args: Seq<char>) -> Seq<char> {
    tool + "("@ + args + ")"@
}

/// What a tool's outcome contributes as observation.
pub open spec fn observation(o: ToolOutputView) -> Seq<char> {
    if o.success {
        o.content
    } else {
        match o.error {
            Some(e) => e,
            None => "Unknown error"@,
        }
    }
}

/// The prompt of the next think step, after a tool's observation.
pub open spec fn observed_prompt(prompt: Seq<char>, tool: Seq<char>, obs: Seq<char>) -> Seq<char> {
    prompt + "\n\n[OBSERVATION from "@ + tool + "]\n"@ + obs
}

/// The end of a run with this history.
pub open spec fn done(v: AgentRunView) -> (AgentRunView, AgentActionView) {
    (
        AgentRunView { phase: Phase::Finished, pending: None, ..v },
        AgentActionView::Done { final_answer: final_answer(v.history), steps: v.history },
    )
}

/// The next step: ask the brain again unless the step budget is spent.
pub open spec fn advance(v: AgentRunView) -> (AgentRunView, AgentActionView) {
    if v.steps_taken >= v.max_steps {
        done(v)
    } else {
        (
            AgentRunView { steps_taken: v.steps_taken + 1, phase: Phase::AwaitingBrain, ..v },
            AgentActionView::Think { prompt: v.current_prompt, model: None, include_memory: true, stream: false },
        )
    }
}

/// The run's answer to the brain's reply (or to the failure to get one).
pub open spec fn on_brain(v: AgentRunView, reply: Result<TaskResultView, Seq<char>>) -> (AgentRunView, AgentActionView) {
    let fin = AgentRunView { phase: Phase::Finished, ..v };
    match reply {
        Err(e) => (fin, AgentActionView::Failed(AgentErrorView::Bus(e))),
        Ok(r) => if r.status != TaskStatus::Success {
            (fin, AgentActionView::Failed(AgentErrorView::BrainFailed(r.error)))
        } else if !reply_parses(r.output) {
            (fin, AgentActionView::Failed(AgentErrorView::BadBrainOutput(json_error_of(r.output)->0)))
        } else {
            let thought = reply_thought(r.output);
            match reply_call(r.output) {
                None => done(
                    AgentRunView {
                        history: v.history.push(AgentStepView { thought, action: None, observation: None }),
                        ..v
                    },
                ),
                Some((tool, args)) => (
                    AgentRunView {
                        phase: Phase::AwaitingTool,
                        pending: Some(
                            AgentStepView { thought, action: Some(action_text(tool, args)), observation: None },
                        ),
                        pending_tool: tool,
                        ..v
                    },
                    AgentActionView::RunTool { tool, args },
                ),
            }
        },
    }
}

/// The run's answer to a tool's outcome (or to its failure to run).
pub open spec fn on_tool(v: AgentRunView, res: Result<ToolOutputView, Seq<char>>) -> (AgentRunView, AgentActionView) {
    let step = match v.pending {
        Some(p) => p,
        None => AgentStepView { thought: Seq::empty(), action: None, observation: None },
    };
    match res {
        Ok(o) => {
            let obs = observation(o);
            advance(
                AgentRunView {
                    history: v.history.push(AgentStepView { observation: Some(obs), ..step }),
                    current_prompt: observed_prompt(v.prompt, v.pending_tool, obs),
                    pending: None,
                    ..v
                },
            )
        },
        Err(e) => done(
            AgentRunView {
                history: v.history.push(AgentStepView { observation: Some("Error: "@ + e), ..step }),
                ..v
            },
        ),
    }
}

/// What holds of a run in every state: the step budget is respected, every
/// finished step was counted, and a run that waits on an outcome has counted
/// the step in progress.
pub open spec fn run_inv(v: AgentRunView) -> bool {
    &&& v.steps_taken <= v.max_steps
    &&& v.history.len() <= v.steps_taken
    &&& (v.phase == Phase::Idle ==> v.steps_taken == 0 && v.history.len() == 0)
    &&& (v.phase == Phase::AwaitingBrain || v.phase == Phase::AwaitingTool ==> v.history.len() + 1 == v.steps_taken)
    &&& (v.phase == Phase::AwaitingTool <==> v.pending is Some)
}

pub open spec fn result_view(r: Result<TaskResult, String>) -> Result<TaskResultView, Seq<char>> {
    match r {
        Ok(t) => Ok(t@),
        Err(e) => Err(e@),
    }
}

pub open spec fn outcome_view(r: Result<ToolOutput, String>) -> Result<ToolOutputView, Seq<char>> {
    match r {
        Ok(t) => Ok(t@),
        Err(e) => Err(e@),
    }
}

/// An agent run in progress.
pub struct AgentRun {
    prompt: String,
    current_prompt: String,
    history: Vec<AgentStep>,
    steps_taken: usize,
    max_steps: usize,
    phase: Phase,
    pending: Option<AgentStep>,
    pending_tool: String,
}

impl AgentRun {
    pub closed spec fn view(&self) -> AgentRunView {
        AgentRunView {
            prompt: self.prompt@,
            current_prompt: self.current_prompt@,
            history: step_views(self.history@),
            steps_taken: self.steps_taken as nat,
            max_steps: self.max_steps as nat,
            phase: self.phase,
            pending: match self.pending {
                Some(s) => Some(s@),
                None => None,
            },
            pending_tool: self.pending_tool@,
        }
    }

    /// A run of the task `prompt` that may ask the brain at most `max_steps` times.
    pub fn new(prompt: &str, max_steps: usize) -> (r: Self)
        ensures
            r.view() == (AgentRunView {
                prompt: prompt@,
                current_prompt: prompt@,
                history: Seq::empty(),
                steps_taken: 0,
                max_steps: max_steps as nat,
                phase: Phase::Idle,
                pending: None,
                pending_tool: Seq::empty(),
            }),
            run_inv(r.view()),
    {
        let r = AgentRun {
            prompt: prompt.to_owned(),
            current_prompt: prompt.to_owned(),
            history: Vec::new(),
            steps_taken: 0,
            max_steps,
            phase: Phase::Idle,
            pending: None,
            pending_tool: String::new(),
        };
        assert(step_views(r.history@) =~= Seq::<AgentStepView>::empty());
        r
    }

    /// Where the run stands.
    pub fn phase(&self) -> (p: Phase)
        ensures
            p == self.view().phase,
    {
        self.phase
    }

    fn finish(&mut self) -> (a: AgentAction)
        ensures
            (final(self).view(), a@) == done(old(self).view()),
    {
        self.phase = Phase::Finished;
        self.pending = None;
        let mut steps: Vec<AgentStep> = Vec::new();
        let mut i: usize = 0;
        while i < self.history.len()
            invariant
                i <= self.history@.len(),
                steps@.len() == i,
                forall|k: int| 0 <= k < i ==> #[trigger] steps@[k]@ == self.history@[k]@,
            decreases self.history@.len() - i,
        {
            steps.push(self.history[i].copy());
            i = i + 1;
        }
        assert(step_views(steps@) =~= step_views(self.history@));
        let answer = if self.history.len() > 0 {
            self.history[self.history.len() - 1].thought.clone()
        } else {
            String::new()
        };
        AgentAction::Done(AgentResult { final_answer: answer, steps })
    }

    fn advance(&mut self) -> (a: AgentAction)
        ensures
            (final(self).view(), a@) == advance(old(self).view()),
    {
        if self.steps_taken >= self.max_steps {
            return self.finish();
        }
        self.steps_taken = self.steps_taken + 1;
        self.phase = Phase::AwaitingBrain;
        AgentAction::Think(BrainThinkRequest {
            prompt: self.current_prompt.clone(),
            model: None,
            include_memory: true,
            stream: false,
        })
    }

    /// Starts the run: the first brain request, or the end if no step may be taken.
    pub fn start(&mut self) -> (a: AgentAction)
        requires
            old(self).view().phase == Phase::Idle,
        ensures
            (final(self).view(), a@) == advance(old(self).view()),
    {
        self.advance()
    }

    /// Takes the brain's reply, or the message of the failure to get one.
    pub fn on_brain_reply(&mut self, reply: Result<TaskResult, String>) -> (a: AgentAction)
        requires
            old(self).view().phase == Phase::AwaitingBrain,
        ensures
            (final(self).view(), a@) == on_brain(old(self).view(), result_view(reply)),
    {
        let r = match reply {
            Err(e) => {
                self.phase = Phase::Finished;
                return AgentAction::Failed(AgentError::Bus(e));
            },
            Ok(r) => r,
        };
        if r.status != TaskStatus::Success {
            self.phase = Phase::Finished;
            return AgentAction::Failed(AgentError::BrainFailed(r.error));
        }
        match json_parse_error(r.output.as_str()) {
            Some(m) => {
                self.phase = Phase::Finished;
                return AgentAction::Failed(AgentError::BadBrainOutput(m));
            },
            None => {},
        }
        let response = json_field(r.output.as_str(), "response");
        let thought = match response {
            JsonField::Invalid => String::new(),
            JsonField::Missing => String::new(),
            JsonField::Present(v) => match v.as_str {
                Some(s) => s,
                None => String::new(),
            },
        };
        assert(thought@ == reply_thought(r.output@));
        let ghost v0 = self.view();
        let call_field = json_field(r.output.as_str(), "tool_call");
        let call = match call_field {
            JsonField::Present(c) => if c.is_null { None } else { Some(c) },
            _ => None,
        };
        match call {
            Some(call) => {
                let tool = match json_field(call.text.as_str(), "tool") {
                    JsonField::Present(t) => match t.as_str {
                        Some(s) => s,
                        None => String::new(),
                    },
                    _ => String::new(),
                };
                let args = match json_field(call.text.as_str(), "args") {
                    JsonField::Present(a) => a.text,
                    _ => "{}".to_owned(),
                };
                let head = concat(tool.as_str(), "(");
                let with_args = concat(head.as_str(), args.as_str());
                let action = concat(with_args.as_str(), ")");
                self.phase = Phase::AwaitingTool;
                self.pending = Some(AgentStep { thought, action: Some(action), observation: None });
                self.pending_tool = tool.clone();
                AgentAction::RunTool { tool, args }
            },
            None => {
                let ghost h0 = self.history@;
                self.history.push(AgentStep { thought, action: None, observation: None });
                assert(step_views(self.history@) =~= step_views(h0).push(
                    AgentStepView { thought: thought@, action: None, observation: None },
                ));
                self.finish()
            },
        }
    }

    /// Takes the tool's outcome, or the message of its failure to run.
    pub fn on_tool_result(&mut self, outcome: Result<ToolOutput, String>) -> (a: AgentAction)
        requires
            old(self).view().phase == Phase::AwaitingTool,
        ensures
            (final(self).view(), a@) == on_tool(old(self).view(), outcome_view(outcome)),
    {
        let mut step = match self.pending.take() {
            Some(s) => s,
            None => AgentStep { thought: String::new(), action: None, observation: None },
        };
        match outcome {
            Ok(o) => {
                let obs = if o.success {
                    o.content
                } else {
                    match o.error {
                        Some(e) => e,
                        None => "Unknown error".to_owned(),
                    }
                };
                let p1 = concat(self.prompt.as_str(), "\n\n[OBSERVATION from ");
                let p2 = concat(p1.as_str(), self.pending_tool.as_str());
                let p3 = concat(p2.as_str(), "]\n");
                let next_prompt = concat(p3.as_str(), obs.as_str());
                let ghost h0 = self.history@;
                step.observation = Some(obs);
                let ghost sv = step@;
                self.history.push(step);
                assert(step_views(self.history@) =~= step_views(h0).push(sv));
                self.current_prompt = next_prompt;
                self.advance()
            },
            Err(e) => {
                let ghost h0 = self.history@;
                step.observation = Some(concat("Error: ", e.as_str()));
                let ghost sv = step@;
                self.history.push(step);
                assert(step_views(self.history@) =~= step_views(h0).push(sv));
                self.finish()
            },
        }
    }
}

/// Every transition keeps the run's invariant: the step budget is never
/// exceeded, and every recorded step was counted against it.
pub proof fn lemma_run_inv_kept(
    v: AgentRunView,
    reply: Result<TaskResultView, Seq<char>>,
    outcome: Result<ToolOutputView, Seq<char>>,
)
    requires
        run_inv(v),
    ensures
        v.phase == Phase::Idle ==> run_inv(advance(v).0),
        v.phase == Phase::AwaitingBrain ==> run_inv(on_brain(v, reply).0),
        v.phase == Phase::AwaitingTool ==> run_inv(on_tool(v, outcome).0),
{
}

/// The brain is asked once per counted step: a transition that asks it again
/// counts one more step, and never beyond the budget.
pub proof fn lemma_think_counts_a_step(
    v: AgentRunView,
    reply: Result<TaskResultView, Seq<char>>,
    outcome: Result<ToolOutputView, Seq<char>>,
)
    requires
        run_inv(v),
    ensures
        v.phase == Phase::Idle && advance(v).1 is Think ==> advance(v).0.steps_taken == v.steps_taken + 1
            <= v.max_steps,
        v.phase == Phase::AwaitingBrain ==> !(on_brain(v, reply).1 is Think),
        v.phase == Phase::AwaitingTool && on_tool(v, outcome).1 is Think ==> on_tool(v, outcome).0.steps_taken
            == v.steps_taken + 1 <= v.max_steps,
{
}

/// A finished run holds at most `max_steps` steps, and its answer is the
/// thought of its last step.
pub proof fn lemma_done_result(
    v: AgentRunView,
    reply: Result<TaskResultView, Seq<char>>,
    outcome: Result<ToolOutputView, Seq<char>>,
)
    requires
        run_inv(v),
    ensures
        v.phase == Phase::Idle ==> match advance(v).1 {
            AgentActionView::Done { final_answer: a, steps } => steps.len() <= v.max_steps
                && a == final_answer(steps),
            _ => true,
        },
        v.phase == Phase::AwaitingBrain ==> match on_brain(v, reply).1 {
            AgentActionView::Done { final_answer: a, steps } => steps.len() <= v.max_steps
                && a == final_answer(steps),
            _ => true,
        },
        v.phase == Phase::AwaitingTool ==> match on_tool(v, outcome).1 {
            AgentActionView::Done { final_answer: a, steps } => steps.len() <= v.max_steps
                && a == final_answer(steps),
            _ => true,
        },
{
}

/// A successful brain reply that holds no tool call ends the run with its
/// response as the answer.
pub proof fn lemma_answer_without_tool_call(v: AgentRunView, r: TaskResultView)
    requires
        run_inv(v),
        v.phase == Phase::AwaitingBrain,
        r.status == TaskStatus::Success,
        reply_parses(r.output),
        reply_call(r.output) is None,
    ensures
        on_brain(v, Ok(r)).0.phase == Phase::Finished,
        on_brain(v, Ok(r)).1 == (AgentActionView::Done {
            final_answer: reply_thought(r.output),
            steps: v.history.push(AgentStepView { thought: reply_thought(r.output), action: None, observation: None }),
        }),
{
}

} // verus!
