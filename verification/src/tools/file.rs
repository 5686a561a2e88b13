//! The `file_read` and `file_write` tools: the checks around reading and writing.

use vstd::prelude::*;
use vstd::utf8::{decode_utf8, encode_utf8, valid_utf8};
use crate::json::{json_str_field, str_field};
use crate::permissions::{write_allowed, PermissionPolicy};
use crate::text::{concat, decimal, decimal_string};
use super::{failure, lossy_text, success, utf8_lossy, ToolError, ToolOutput, ToolOutputView};

verus! {

/// Files larger than this (10 MiB) are not read.
pub const MAX_READ_SIZE: u64 = 10485760;

/// How many leading bytes are searched for a NUL byte.
pub const BINARY_CHECK_LEN: usize = 8192;

/// Reads the contents of a file.
pub struct FileReadTool;

/// Writes content to a file.
pub struct FileWriteTool;

/// The first `n` bytes of `b` hold a NUL byte (all of `b` when shorter).
pub open spec fn has_nul_prefix(b: Seq<u8>, n: int) -> bool {
    exists|i: int| 0 <= i < b.len() && i < n && b[i] == 0
}

pub open spec fn missing_file_message(path: Seq<char>) -> Seq<char> {
    "File does not exist: "@ + path
}

pub open spec fn too_large_message(size: nat) -> Seq<char> {
    "File too large: "@ + decimal(size) + " bytes (max "@ + decimal(MAX_READ_SIZE as nat) + ")"@
}

pub open spec fn binary_message() -> Seq<char> {
    "Binary file detected — refusing to read"@
}

/// What reading a file's bytes gives: a failure when a NUL byte sits in the
/// first 8 KiB, its text otherwise.
pub open spec fn read_result(bytes: Seq<u8>) -> ToolOutputView {
    if has_nul_prefix(bytes, BINARY_CHECK_LEN as int) {
        failure(binary_message())
    } else {
        success(utf8_lossy(bytes))
    }
}

impl FileReadTool {
    pub fn name(&self) -> (n: &'static str)
        ensures
            n@ == "file_read"@,
    {
        "file_read"
    }

    pub fn description(&self) -> (d: &'static str)
        ensures
            d@ == "Read the contents of a file with size and binary detection"@,
    {
        "Read the contents of a file with size and binary detection"
    }

    /// The `path` argument.
    pub fn path_arg(args: &str) -> (r: Result<String, ToolError>)
        ensures
            match str_field(args@, "path"@) {
                Some(p) => r matches Ok(s) && s@ == p,
                None => r matches Err(ToolError::MissingArgument(a)) && a@ == "path"@,
            },
    {
        match json_str_field(args, "path") {
            Some(p) => Ok(p),
            None => Err(ToolError::MissingArgument("path".to_owned())),
        }
    }

    /// The output for a path where no file exists.
    pub fn missing(path: &str) -> (o: ToolOutput)
        ensures
            o@ == failure(missing_file_message(path@)),
    {
        ToolOutput::failed(concat("File does not exist: ", path))
    }

    /// The output for a file of `size` bytes, when it is too large to read.
    pub fn check_size(size: u64) -> (o: Option<ToolOutput>)
        ensures
            match o {
                Some(out) => size > MAX_READ_SIZE && out@ == failure(too_large_message(size as nat)),
                None => size <= MAX_READ_SIZE,
            },
    {
        if size > MAX_READ_SIZE {
            let s1 = concat("File too large: ", decimal_string(size).as_str());
            let s2 = concat(s1.as_str(), " bytes (max ");
            let s3 = concat(s2.as_str(), decimal_string(MAX_READ_SIZE).as_str());
            let s4 = concat(s3.as_str(), ")");
            Some(ToolOutput::failed(s4))
        } else {
            None
        }
    }

    /// The output for the bytes read from a file. Reading back the UTF-8
    /// bytes of any text gives that text, unless a NUL byte sits in the first 8 KiB.
    pub fn contents(bytes: &[u8]) -> (o: ToolOutput)
        ensures
            o@ == read_result(bytes@),
            forall|text: Seq<char>|
                #![trigger encode_utf8(text)]
                bytes@ == encode_utf8(text) && !has_nul_prefix(bytes@, BINARY_CHECK_LEN as int) ==> o@
                    == success(text),
    {
        let n = if bytes.len() < BINARY_CHECK_LEN { bytes.len() } else { BINARY_CHECK_LEN };
        let mut i: usize = 0;
        while i < n
            invariant
                n <= bytes@.len(),
                n <= BINARY_CHECK_LEN,
                n == bytes@.len() || n == BINARY_CHECK_LEN,
                i <= n,
                forall|k: int| 0 <= k < i ==> bytes@[k] != 0,
            decreases n - i,
        {
            if bytes[i] == 0 {
                return ToolOutput::failed("Binary file detected — refusing to read".to_owned());
            }
            i = i + 1;
        }
        let text = lossy_text(bytes);
        proof {
            broadcast use vstd::utf8::encode_utf8_valid_utf8, vstd::utf8::encode_utf8_decode_utf8;

            assert forall|t: Seq<char>|
                #![trigger encode_utf8(t)]
                bytes@ == encode_utf8(t) implies text@ == t by {
                assert(valid_utf8(encode_utf8(t)));
                assert(decode_utf8(encode_utf8(t)) == t);
            }
        }
        ToolOutput::succeeded(text)
    }
}

/// What `file_write` decided before writing.
#[derive(Debug)]
pub enum WritePlan {
    /// The policy refused the path; this is the tool's output.
    Denied(ToolOutput),
    /// Write `content` to `path` (creating missing parent folders), then report
    /// with `FileWriteTool::written`.
    Write { path: String, content: String },
}

pub open spec fn write_denied_message(path: Seq<char>) -> Seq<char> {
    "Write denied for path: "@ + path
}

pub open spec fn written_message(path: Seq<char>, content: Seq<char>) -> Seq<char> {
    "Written "@ + path + " ("@ + decimal(encode_utf8(content).len()) + " bytes)"@
}

impl FileWriteTool {
    pub fn name(&self) -> (n: &'static str)
        ensures
            n@ == "file_write"@,
    {
        "file_write"
    }

    pub fn description(&self) -> (d: &'static str)
        ensures
            d@ == "Write content to a file with permission and path traversal checks"@,
    {
        "Write content to a file with permission and path traversal checks"
    }

    /// Reads the `path` and `content` arguments and checks the path against the policy.
    pub fn plan(args: &str, policy: &PermissionPolicy) -> (r: Result<WritePlan, ToolError>)
        ensures
            match (str_field(args@, "path"@), str_field(args@, "content"@)) {
                (None, _) => r matches Err(ToolError::MissingArgument(a)) && a@ == "path"@,
                (Some(_), None) => r matches Err(ToolError::MissingArgument(a)) && a@ == "content"@,
                (Some(p), Some(c)) => if write_allowed(policy.level(), policy.root(), p) {
                    r matches Ok(WritePlan::Write { path, content }) && path@ == p && content@ == c
                } else {
                    r matches Ok(WritePlan::Denied(o)) && o@ == failure(write_denied_message(p))
                },
            },
    {
        let path = match json_str_field(args, "path") {
            Some(p) => p,
            None => {
                return Err(ToolError::MissingArgument("path".to_owned()));
            },
        };
        let content = match json_str_field(args, "content") {
            Some(c) => c,
            None => {
                return Err(ToolError::MissingArgument("content".to_owned()));
            },
        };
        if !policy.can_write(path.as_str()) {
            return Ok(WritePlan::Denied(ToolOutput::failed(concat("Write denied for path: ", path.as_str()))));
        }
        Ok(WritePlan::Write { path, content })
    }

    /// The output after `content` was written to `path`.
    pub fn written(path: &str, content: &str) -> (o: ToolOutput)
        ensures
            o@ == success(written_message(path@, content@)),
    {
        let len = content.as_bytes().len();
        let s1 = concat("Written ", path);
        let s2 = concat(s1.as_str(), " (");
        let s3 = concat(s2.as_str(), decimal_string(len as u64).as_str());
        let s4 = concat(s3.as_str(), " bytes)");
        ToolOutput::succeeded(s4)
    }
}

} // verus!
