//! Sandboxed execution settings and the shaping of a finished command's output.

use vstd::prelude::*;
use vstd::utf8::{decode_utf8, encode_utf8, encode_utf8_decode_utf8, is_char_boundary};
use crate::text::{concat, decimal, decimal_string};

verus! {

/// Sandboxed execution environment for untrusted commands.
pub struct Sandbox {
    timeout_secs: u64,
    max_output_bytes: usize,
}

/// What a command run in the sandbox produced.
#[derive(Debug, Clone)]
pub struct SandboxOutput {
    pub exit_code: i32,
    pub stdout: String,
    pub stderr: String,
    pub timed_out: bool,
}

/// The length in bytes of the UTF-8 encoding of `s`.
pub open spec fn byte_len(s: Seq<char>) -> int {
    encode_utf8(s).len() as int
}

/// The characters whose UTF-8 encoding is the first `n` bytes of that of `s`.
pub open spec fn utf8_prefix(s: Seq<char>, n: int) -> Seq<char> {
    decode_utf8(encode_utf8(s).subrange(0, n))
}

/// `n` falls on a character boundary of `s`, or beyond its end.
pub open spec fn cut_ok(s: Seq<char>, n: int) -> bool {
    byte_len(s) > n ==> is_char_boundary(encode_utf8(s), n)
}

/// `s` cut to `n` bytes when longer, followed by `marker` when cut.
pub open spec fn truncated(s: Seq<char>, n: int, marker: Seq<char>) -> Seq<char> {
    if byte_len(s) > n {
        utf8_prefix(s, n) + marker
    } else {
        s
    }
}

/// The line appended to a standard output that was cut.
pub open spec fn truncation_marker() -> Seq<char> {
    "\n[OUTPUT TRUNCATED]"@
}

/// The standard error of a command that ran out of time.
pub open spec fn timeout_message(secs: nat) -> Seq<char> {
    "Command timed out after "@ + decimal(secs) + "s"@
}

/// The first `n` bytes of `s`, which must end on a character boundary.
pub fn cut_to_bytes(s: &str, n: usize) -> (r: String)
    requires
        n < byte_len(s@),
        is_char_boundary(encode_utf8(s@), n as int),
    ensures
        r@ == utf8_prefix(s@, n as int),
{
    let (head, _tail) = s.split_at(n);
    proof {
        encode_utf8_decode_utf8(head@);
    }
    head.to_owned()
}

impl Sandbox {
    pub closed spec fn timeout_secs(&self) -> nat {
        self.timeout_secs as nat
    }

    pub closed spec fn max_output_bytes(&self) -> nat {
        self.max_output_bytes as nat
    }

    pub fn new(timeout_secs: u64, max_output_bytes: usize) -> (s: Self)
        ensures
            s.timeout_secs() == timeout_secs,
            s.max_output_bytes() == max_output_bytes,
    {
        Sandbox { timeout_secs, max_output_bytes }
    }

    /// The timeout, in seconds, for callers that run the command.
    pub fn timeout(&self) -> (t: u64)
        ensures
            t == self.timeout_secs(),
    {
        self.timeout_secs
    }

    /// The output limit in bytes.
    pub fn max_output(&self) -> (m: usize)
        ensures
            m == self.max_output_bytes(),
    {
        self.max_output_bytes
    }

    /// Shapes what a finished command wrote: each stream is cut to the output
    /// limit, the standard output then marked as cut, and a missing exit code
    /// (the process died by a signal) becomes -1.
    pub fn finish(&self, exit_code: Option<i32>, stdout: &str, stderr: &str) -> (out: SandboxOutput)
        requires
            cut_ok(stdout@, self.max_output_bytes() as int),
            cut_ok(stderr@, self.max_output_bytes() as int),
        ensures
            out.exit_code == (match exit_code { Some(c) => c, None => -1i32 }),
            out.stdout@ == truncated(stdout@, self.max_output_bytes() as int, truncation_marker()),
            out.stderr@ == truncated(stderr@, self.max_output_bytes() as int, Seq::empty()),
            !out.timed_out,
    {
        let max = self.max_output_bytes;
        let out_text = if stdout.as_bytes().len() > max {
            let head = cut_to_bytes(stdout, max);
            concat(head.as_str(), "\n[OUTPUT TRUNCATED]")
        } else {
            stdout.to_owned()
        };
        let err_text = if stderr.as_bytes().len() > max {
            let r = cut_to_bytes(stderr, max);
            assert(r@ + Seq::<char>::empty() =~= r@);
            r
        } else {
            stderr.to_owned()
        };
        let code = match exit_code {
            Some(c) => c,
            None => -1i32,
        };
        SandboxOutput { exit_code: code, stdout: out_text, stderr: err_text, timed_out: false }
    }

    /// The output of a command that did not finish within the timeout.
    pub fn timed_out_output(&self) -> (out: SandboxOutput)
        ensures
            out.exit_code == -1,
            out.stdout@ == Seq::<char>::empty(),
            out.stderr@ == timeout_message(self.timeout_secs()),
            out.timed_out,
    {
        let secs = decimal_string(self.timeout_secs);
        let head = concat("Command timed out after ", secs.as_str());
        let msg = concat(head.as_str(), "s");
        SandboxOutput { exit_code: -1, stdout: String::new(), stderr: msg, timed_out: true }
    }
}

impl Default for Sandbox {
    /// A 30 second timeout and a 512 KiB output limit.
    fn default() -> (s: Self)
        ensures
            s.timeout_secs() == 30,
            s.max_output_bytes() == 524288,
    {
        Sandbox { timeout_secs: 30, max_output_bytes: 1024 * 512 }
    }
}

} // verus!
