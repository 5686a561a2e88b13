//! The `bash` tool: runs a shell command in the sandbox, under the permission policy.

use vstd::prelude::*;
use crate::json::{json_str_field, str_field};
use crate::permissions::{bash_denial, verdict_denial, PermissionPolicy, PermissionVerdict};
use crate::sandbox::{Sandbox, SandboxOutput};
use crate::text::opt_view;
use super::{failure, ToolError, ToolOutput, ToolOutputView};

verus! {

/// Executes shell commands inside the sandbox.
pub struct BashTool {
    sandbox: Sandbox,
}

/// What the tool decided before running anything.
#[derive(Debug)]
pub enum BashPlan {
    /// The policy refused the command; this is the tool's output.
    Denied(ToolOutput),
    /// Run this command in the sandbox and hand the output to `BashTool::finish`.
    Run(String),
}

/// The output of a finished command, as the tool reports it: a command that
/// timed out fails with the sandbox's message; otherwise the tool succeeds
/// exactly when the exit code is 0, with the standard output as content and a
/// non-empty standard error as error.
pub open spec fn bash_result(o: SandboxOutput) -> ToolOutputView {
    if o.timed_out {
        failure(o.stderr@)
    } else {
        ToolOutputView {
            success: o.exit_code == 0,
            content: o.stdout@,
            error: if o.stderr@.len() == 0 { None } else { Some(o.stderr@) },
        }
    }
}

impl BashTool {
    pub closed spec fn sandbox_spec(&self) -> Sandbox {
        self.sandbox
    }

    pub fn new(sandbox: Sandbox) -> (t: Self)
        ensures
            t.sandbox_spec() == sandbox,
    {
        BashTool { sandbox }
    }

    pub fn sandbox(&self) -> (s: &Sandbox)
        ensures
            *s == self.sandbox_spec(),
    {
        &self.sandbox
    }

    pub fn name(&self) -> (n: &'static str)
        ensures
            n@ == "bash"@,
    {
        "bash"
    }

    pub fn description(&self) -> (d: &'static str)
        ensures
            d@ == "Execute a shell command in a sandboxed environment with timeout"@,
    {
        "Execute a shell command in a sandboxed environment with timeout"
    }

    /// Reads the `command` argument and checks it against the policy.
    pub fn plan(args: &str, policy: &PermissionPolicy) -> (r: Result<BashPlan, ToolError>)
        ensures
            match str_field(args@, "command"@) {
                None => r matches Err(ToolError::MissingArgument(a)) && a@ == "command"@,
                Some(cmd) => match r {
                    Ok(BashPlan::Run(c)) => c@ == cmd && bash_denial(policy.level(), cmd) is None,
                    Ok(BashPlan::Denied(o)) => bash_denial(policy.level(), cmd) matches Some(m) && o@ == failure(m),
                    Err(_) => false,
                },
            },
    {
        let cmd = match json_str_field(args, "command") {
            Some(c) => c,
            None => {
                return Err(ToolError::MissingArgument("command".to_owned()));
            },
        };
        match policy.check_bash(cmd.as_str()) {
            PermissionVerdict::Allowed => Ok(BashPlan::Run(cmd)),
            PermissionVerdict::Denied(reason) => Ok(BashPlan::Denied(ToolOutput::failed(reason))),
        }
    }

    /// The tool's output for what the sandbox reported.
    pub fn finish(result: SandboxOutput) -> (o: ToolOutput)
        ensures
            o@ == bash_result(result),
            !result.timed_out ==> (o.success <==> result.exit_code == 0),
            !result.timed_out ==> o.content@ == result.stdout@,
            result.timed_out ==> !o.success,
    {
        if result.timed_out {
            return ToolOutput::failed(result.stderr);
        }
        let error = if result.stderr.as_str().is_empty() {
            None
        } else {
            Some(result.stderr)
        };
        ToolOutput { success: result.exit_code == 0, content: result.stdout, error }
    }
}

/// Whether a finished command succeeded depends on its exit code alone: a
/// command that did not time out succeeds exactly when it exited with 0,
/// whatever it wrote to standard error, and reports its standard output as
/// content; its standard error is the error exactly when not empty. A command
/// that timed out fails.
pub proof fn lemma_exit_code_decides(o: SandboxOutput)
    ensures
        !o.timed_out ==> (bash_result(o).success <==> o.exit_code == 0),
        !o.timed_out ==> bash_result(o).content == o.stdout@,
        !o.timed_out ==> (bash_result(o).error is None <==> o.stderr@.len() == 0),
        !o.timed_out && o.stderr@.len() > 0 ==> bash_result(o).error == Some(o.stderr@),
        o.timed_out ==> !bash_result(o).success,
{
}

} // verus!
