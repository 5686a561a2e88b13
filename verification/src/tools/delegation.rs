//! The `delegate_task` tool: asks an agent of another role to carry out a sub-task.
//!
//! The request travels over the message bus outside the library; these
//! functions build what is sent and read what comes back.

use vstd::prelude::*;
use crate::json::{field_views, json_from_bytes, json_bytes_text, json_object, json_object_text, json_str_field, str_field};
use crate::text::concat;
use super::{failure, success, ToolOutput, ToolOutputView};

verus! {

/// The payload of a delegation request: the role and the task as a JSON object.
pub open spec fn delegation_payload(role: Seq<char>, task: Seq<char>) -> Seq<char> {
    json_object_text(seq![("role"@, role), ("task"@, task)])
}

/// The payload sent for a delegation.
pub fn request_payload(role: &str, task: &str) -> (r: String)
    ensures
        r@ == delegation_payload(role@, task@),
{
    let mut fields: Vec<(String, String)> = Vec::new();
    fields.push(("role".to_owned(), role.to_owned()));
    fields.push(("task".to_owned(), task.to_owned()));
    assert(field_views(fields@) =~= seq![("role"@, role@), ("task"@, task@)]);
    json_object(&fields)
}

/// What the tool reports for the reply to a delegation (or for the failure to
/// get one): the other agent's `final_answer`, introduced by its role; a reply
/// that is not JSON is an error.
pub open spec fn delegation_outcome(role: Seq<char>, reply: Result<Seq<u8>, Seq<char>>) -> Result<ToolOutputView, Seq<char>> {
    match reply {
        Err(e) => Ok(failure("Delegation failed: "@ + e)),
        Ok(bytes) => match json_bytes_text(bytes) {
            Err(m) => Err(m),
            Ok(doc) => Ok(
                success(
                    "Result from "@ + role + ": "@ + match str_field(doc, "final_answer"@) {
                        Some(a) => a,
                        None => "No answer provided"@,
                    },
                ),
            ),
        },
    }
}

pub open spec fn reply_bytes_view(r: Result<Vec<u8>, String>) -> Result<Seq<u8>, Seq<char>> {
    match r {
        Ok(b) => Ok(b@),
        Err(e) => Err(e@),
    }
}

pub open spec fn outcome_view(r: Result<ToolOutput, String>) -> Result<ToolOutputView, Seq<char>> {
    match r {
        Ok(o) => Ok(o@),
        Err(e) => Err(e@),
    }
}

/// The tool's outcome for the reply to a delegation to `role`.
pub fn reply_output(role: &str, reply: Result<Vec<u8>, String>) -> (r: Result<ToolOutput, String>)
    ensures
        outcome_view(r) == delegation_outcome(role@, reply_bytes_view(reply)),
{
    let bytes = match reply {
        Err(e) => {
            return Ok(ToolOutput::failed(concat("Delegation failed: ", e.as_str())));
        },
        Ok(b) => b,
    };
    let doc = match json_from_bytes(bytes.as_slice()) {
        Err(m) => {
            return Err(m);
        },
        Ok(d) => d,
    };
    let answer = match json_str_field(doc.as_str(), "final_answer") {
        Some(a) => a,
        None => "No answer provided".to_owned(),
    };
    let head = concat("Result from ", role);
    let head = concat(head.as_str(), ": ");
    Ok(ToolOutput::succeeded(concat(head.as_str(), answer.as_str())))
}

/// The reply a delegation listener sends when the agent it started failed.
pub fn error_reply(message: &str) -> (r: String)
    ensures
        r@ == json_object_text(seq![("status"@, "error"@), ("error"@, message@)]),
{
    let mut fields: Vec<(String, String)> = Vec::new();
    fields.push(("status".to_owned(), "error".to_owned()));
    fields.push(("error".to_owned(), message.to_owned()));
    assert(field_views(fields@) =~= seq![("status"@, "error"@), ("error"@, message@)]);
    json_object(&fields)
}

} // verus!
