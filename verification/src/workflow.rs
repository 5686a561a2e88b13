//! Sequential workflows of tool runs, as a state machine: the caller runs each
//! step's tool and hands the outcome back; the run halts at the first failure.

use vstd::prelude::*;
use crate::text::{clone_opt_string, opt_view};
use crate::tools::{ToolOutput, ToolOutputView};

verus! {

/// A single step in a workflow; `args` is the tool's JSON arguments as text.
#[derive(Debug)]
pub struct WorkflowStep {
    pub name: String,
    pub tool: String,
    pub args: String,
    pub description: Option<String>,
}

/// A complete workflow definition.
#[derive(Debug)]
pub struct Workflow {
    pub name: String,
    pub version: String,
    pub steps: Vec<WorkflowStep>,
}

/// The outcome of one step.
#[derive(Debug)]
pub struct StepResult {
    pub name: String,
    pub success: bool,
    pub content: String,
    pub error: Option<String>,
}

pub struct StepResultView {
    pub name: Seq<char>,
    pub success: bool,
    pub content: Seq<char>,
    pub error: Option<Seq<char>>,
}

impl View for StepResult {
    type V = StepResultView;

    open spec fn view(&self) -> StepResultView {
        StepResultView { name: self.name@, success: self.success, content: self.content@, error: opt_view(self.error) }
    }
}

pub open spec fn result_views(v: Seq<StepResult>) -> Seq<StepResultView> {
    Seq::new(v.len(), |i: int| v[i]@)
}

/// What a workflow run produced.
#[derive(Debug)]
pub struct WorkflowReport {
    pub workflow_name: String,
    pub success: bool,
    pub step_results: Vec<StepResult>,
}

/// What the run asks its driver to do next.
#[derive(Debug)]
pub enum WorkflowAction {
    /// Run this tool with these JSON arguments and hand the outcome to `on_step_outcome`.
    RunStep { name: String, tool: String, args: String, description: Option<String> },
    /// The workflow is over.
    Done(WorkflowReport),
}

/// The result a step's outcome records.
pub open spec fn step_record(name: Seq<char>, outcome: Result<ToolOutputView, Seq<char>>) -> StepResultView {
    match outcome {
        Ok(o) => StepResultView { name, success: o.success, content: o.content, error: o.error },
        Err(e) => StepResultView { name, success: false, content: Seq::empty(), error: Some(e) },
    }
}

pub open spec fn outcome_view(r: Result<ToolOutput, String>) -> Result<ToolOutputView, Seq<char>> {
    match r {
        Ok(t) => Ok(t@),
        Err(e) => Err(e@),
    }
}

/// Whether every result succeeded.
pub open spec fn all_succeeded(results: Seq<StepResultView>) -> bool {
    forall|i: int| 0 <= i < results.len() ==> #[trigger] results[i].success
}

/// A workflow run in progress.
pub struct WorkflowRun {
    workflow: Workflow,
    next_step: usize,
    results: Vec<StepResult>,
    success: bool,
    halted: bool,
}

impl WorkflowRun {
    /// How many steps the workflow has.
    pub closed spec fn step_count(&self) -> nat {
        self.workflow.steps@.len()
    }

    /// The name of step `i`.
    pub closed spec fn step_name(&self, i: int) -> Seq<char> {
        self.workflow.steps@[i].name@
    }

    /// The tool of step `i`.
    pub closed spec fn step_tool(&self, i: int) -> Seq<char> {
        self.workflow.steps@[i].tool@
    }

    /// The JSON arguments of step `i`.
    pub closed spec fn step_args(&self, i: int) -> Seq<char> {
        self.workflow.steps@[i].args@
    }

    /// The description of step `i`, if it has one.
    pub closed spec fn step_description(&self, i: int) -> Option<Seq<char>> {
        opt_view(self.workflow.steps@[i].description)
    }

    /// The workflow's name.
    pub closed spec fn workflow_name(&self) -> Seq<char> {
        self.workflow.name@
    }

    /// The results recorded so far.
    pub closed spec fn results(&self) -> Seq<StepResultView> {
        result_views(self.results@)
    }

    /// Whether every step so far succeeded.
    pub closed spec fn succeeded(&self) -> bool {
        self.success
    }

    /// Whether the run stopped at a failed step.
    pub closed spec fn halted(&self) -> bool {
        self.halted
    }

    /// What holds of a run in every state: one result per step run, every
    /// result but a failed last one successful, and the run marked successful
    /// exactly when no step failed.
    pub closed spec fn inv(&self) -> bool {
        &&& self.results@.len() == self.next_step
        &&& self.next_step <= self.workflow.steps@.len()
        &&& self.success == !self.halted
        &&& (!self.halted ==> all_succeeded(result_views(self.results@)))
        &&& (self.halted ==> self.results@.len() > 0 && !self.results@.last().success
            && all_succeeded(result_views(self.results@).drop_last()))
        &&& forall|i: int| 0 <= i < self.results@.len() ==> #[trigger] self.results@[i].name@
            == self.workflow.steps@[i].name@
    }

    pub fn new(workflow: Workflow) -> (r: Self)
        ensures
            r.inv(),
            r.results() == Seq::<StepResultView>::empty(),
            !r.halted(),
            r.step_count() == workflow.steps@.len(),
            r.workflow_name() == workflow.name@,
            forall|i: int| 0 <= i < workflow.steps@.len() ==> {
                &&& #[trigger] r.step_name(i) == workflow.steps@[i].name@
                &&& r.step_tool(i) == workflow.steps@[i].tool@
                &&& r.step_args(i) == workflow.steps@[i].args@
                &&& r.step_description(i) == opt_view(workflow.steps@[i].description)
            },
    {
        let r = WorkflowRun { workflow, next_step: 0, results: Vec::new(), success: true, halted: false };
        assert(result_views(r.results@) =~= Seq::<StepResultView>::empty());
        r
    }

    /// The next step to run, or the report once every step ran or one failed.
    pub fn next(&self) -> (a: WorkflowAction)
        requires
            self.inv(),
        ensures
            match a {
                WorkflowAction::RunStep { name, tool, args, description } => {
                    let n = self.results().len() as int;
                    &&& !self.halted()
                    &&& n < self.step_count()
                    &&& name@ == self.step_name(n)
                    &&& tool@ == self.step_tool(n)
                    &&& args@ == self.step_args(n)
                    &&& opt_view(description) == self.step_description(n)
                },
                WorkflowAction::Done(report) => (self.halted() || self.results().len() == self.step_count())
                    && report.success == self.succeeded() && result_views(report.step_results@)
                    == self.results() && report.workflow_name@ == self.workflow_name() && report.success == (
                self.results().len() == self.step_count() && all_succeeded(self.results())),
            },
    {
        if self.halted || self.next_step >= self.workflow.steps.len() {
            proof {
                lemma_report_success(self);
            }
            let mut copies: Vec<StepResult> = Vec::new();
            let mut i: usize = 0;
            while i < self.results.len()
                invariant
                    i <= self.results@.len(),
                    copies@.len() == i,
                    forall|k: int| 0 <= k < i ==> #[trigger] copies@[k]@ == self.results@[k]@,
                decreases self.results@.len() - i,
            {
                let r = &self.results[i];
                copies.push(StepResult {
                    name: r.name.clone(),
                    success: r.success,
                    content: r.content.clone(),
                    error: clone_opt_string(&r.error),
                });
                i = i + 1;
            }
            assert(result_views(copies@) =~= result_views(self.results@));
            return WorkflowAction::Done(WorkflowReport {
                workflow_name: self.workflow.name.clone(),
                success: self.success,
                step_results: copies,
            });
        }
        let step = &self.workflow.steps[self.next_step];
        WorkflowAction::RunStep {
            name: step.name.clone(),
            tool: step.tool.clone(),
            args: step.args.clone(),
            description: clone_opt_string(&step.description),
        }
    }

    /// Records the outcome of the step `next` asked for; a failed outcome, or a
    /// tool that could not run, halts the workflow.
    pub fn on_step_outcome(&mut self, outcome: Result<ToolOutput, String>)
        requires
            old(self).inv(),
            !old(self).halted(),
            old(self).results().len() < old(self).step_count(),
        ensures
            final(self).inv(),
            final(self).step_count() == old(self).step_count(),
            forall|i: int| 0 <= i < old(self).step_count() ==> {
                &&& #[trigger] final(self).step_name(i) == old(self).step_name(i)
                &&& final(self).step_tool(i) == old(self).step_tool(i)
                &&& final(self).step_args(i) == old(self).step_args(i)
                &&& final(self).step_description(i) == old(self).step_description(i)
            },
            final(self).workflow_name() == old(self).workflow_name(),
            final(self).results() == old(self).results().push(
                step_record(old(self).step_name(old(self).results().len() as int), outcome_view(outcome)),
            ),
            final(self).halted() == !step_record(
                old(self).step_name(old(self).results().len() as int),
                outcome_view(outcome),
            ).success,
            final(self).halted() <==> !(outcome matches Ok(o) && o.success),
            final(self).results().last().success <==> (outcome matches Ok(o) && o.success),
    {
        let total = self.workflow.steps.len();
        let name = self.workflow.steps[self.next_step].name.clone();
        let record = match outcome {
            Ok(o) => StepResult { name, success: o.success, content: o.content, error: o.error },
            Err(e) => StepResult { name, success: false, content: String::new(), error: Some(e) },
        };
        let ok = record.success;
        let ghost before = self.results@;
        let ghost rv = record@;
        self.results.push(record);
        assert(result_views(self.results@) =~= result_views(before).push(rv));
        assert(result_views(self.results@).drop_last() =~= result_views(before));
        assert(self.next_step < total);
        self.next_step = self.next_step + 1;
        if !ok {
            self.success = false;
            self.halted = true;
        }
    }
}

/// A workflow report is successful exactly when every step it records
/// succeeded; a run that is not halted has run its steps in order, and a halted
/// run recorded the failure as its last result.
pub proof fn lemma_report_success(run: &WorkflowRun)
    requires
        run.inv(),
    ensures
        run.succeeded() <==> all_succeeded(run.results()),
        run.halted() ==> run.results().len() > 0 && !run.results().last().success,
{
    if run.halted() {
        assert(!run.results()[run.results().len() - 1].success);
    }
}

/// A step's record says it succeeded exactly when its tool ran and its output
/// says it succeeded, and then carries that output's content and error; a tool
/// that could not run is recorded as failed with its message as the error.
/// The record carries the step's name.
pub proof fn lemma_step_record_follows_tool(name: Seq<char>, outcome: Result<ToolOutputView, Seq<char>>)
    ensures
        step_record(name, outcome).success <==> (outcome matches Ok(o) && o.success),
        step_record(name, outcome).name == name,
        outcome matches Ok(o) ==> step_record(name, outcome).content == o.content && step_record(name, outcome).error
            == o.error,
        outcome matches Err(e) ==> step_record(name, outcome).content.len() == 0 && step_record(name, outcome).error
            == Some(e),
{
}

} // verus!
