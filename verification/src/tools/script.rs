//! The script tool: a script found in an agent's `tools` folder.

use vstd::prelude::*;
use crate::json::{field_views, json_canonical, json_canonical_text, json_entries, json_entries_of, JsonValueView};
use crate::text::{concat, opt_view, strings_view};
use super::{lossy_text, utf8_lossy, ToolOutput, ToolOutputView};

verus! {

/// A local script tool, run directly or through an interpreter.
#[derive(Debug)]
pub struct ScriptTool {
    pub name: String,
    pub description: String,
    pub script_path: String,
    pub interpreter: Option<String>,
}

pub struct ScriptToolView {
    pub name: Seq<char>,
    pub description: Seq<char>,
    pub script_path: Seq<char>,
    pub interpreter: Option<Seq<char>>,
}

impl View for ScriptTool {
    type V = ScriptToolView;

    open spec fn view(&self) -> ScriptToolView {
        ScriptToolView {
            name: self.name@,
            description: self.description@,
            script_path: self.script_path@,
            interpreter: opt_view(self.interpreter),
        }
    }
}

impl ScriptTool {
    pub fn name(&self) -> (n: &str)
        ensures
            n@ == self.name@,
    {
        self.name.as_str()
    }

    pub fn description(&self) -> (d: &str)
        ensures
            d@ == self.description@,
    {
        self.description.as_str()
    }
}

// ───────────────────────── running a script ─────────────────────────

/// Uppercase form of a string, as `str::to_uppercase` computes it.
pub uninterp spec fn uppercase_of(s: Seq<char>) -> Seq<char>;

/// Calls `str::to_uppercase`. The contract claims only that its result is a
/// function of the argument's characters, named `uppercase_of`; the Unicode
/// case tables it applies are not stated.
#[verifier::external_body]
fn to_uppercase(s: &str) -> (r: String)
    ensures
        r@ == uppercase_of(s@),
{
    s.to_uppercase()
}

/// The text an argument's value is handed to the script as: a string as it
/// is, anything else as its JSON text.
pub open spec fn env_value(v: JsonValueView) -> Seq<char> {
    match v.as_str {
        Some(s) => s,
        None => v.text,
    }
}

/// The environment a script runs with for the JSON arguments `args`: the whole
/// arguments under `CORTEX_TOOL_ARGS`, then, where they form an object, each
/// field under `ARG_` and its uppercased name. Nothing where `args` is not JSON.
pub open spec fn script_env(args: Seq<char>) -> Option<Seq<(Seq<char>, Seq<char>)>> {
    match json_canonical_text(args) {
        None => None,
        Some(t) => Some(
            seq![("CORTEX_TOOL_ARGS"@, t)] + match json_entries_of(args) {
                Some(es) => Seq::new(es.len(), |i: int| ("ARG_"@ + uppercase_of(es[i].0), env_value(es[i].1))),
                None => Seq::empty(),
            },
        ),
    }
}

/// A finished script's outcome: success as its exit status says, its standard
/// output as content, and its standard error as error when it failed.
pub open spec fn script_result(ok: bool, stdout: Seq<u8>, stderr: Seq<u8>) -> ToolOutputView {
    ToolOutputView {
        success: ok,
        content: utf8_lossy(stdout),
        error: if ok { None } else { Some(utf8_lossy(stderr)) },
    }
}

impl ScriptTool {
    /// The program to start and its arguments: the interpreter with the
    /// script's path, or the script itself.
    pub fn command(&self) -> (r: (String, Vec<String>))
        ensures
            match self.interpreter {
                Some(i) => r.0@ == i@ && strings_view(r.1@) == seq![self.script_path@],
                None => r.0@ == self.script_path@ && r.1@.len() == 0,
            },
    {
        match &self.interpreter {
            Some(i) => {
                let mut argv: Vec<String> = Vec::new();
                argv.push(self.script_path.clone());
                assert(strings_view(argv@) =~= seq![self.script_path@]);
                (i.clone(), argv)
            },
            None => (self.script_path.clone(), Vec::new()),
        }
    }

    /// The environment variables the script gets for the JSON arguments `args`.
    pub fn env_vars(args: &str) -> (r: Option<Vec<(String, String)>>)
        ensures
            match r {
                Some(v) => script_env(args@) == Some(field_views(v@)),
                None => script_env(args@) is None,
            },
    {
        let whole = match json_canonical(args) {
            Some(t) => t,
            None => {
                return None;
            },
        };
        let ghost first = whole@;
        let mut env: Vec<(String, String)> = Vec::new();
        env.push(("CORTEX_TOOL_ARGS".to_owned(), whole));
        let entries = match json_entries(args) {
            Some(es) => es,
            None => Vec::new(),
        };
        let ghost tail = match json_entries_of(args@) {
            Some(es) => Seq::new(es.len(), |i: int| ("ARG_"@ + uppercase_of(es[i].0), env_value(es[i].1))),
            None => Seq::<(Seq<char>, Seq<char>)>::empty(),
        };
        assert(tail.len() == entries@.len());
        assert(forall|i: int| 0 <= i < entries@.len() ==> #[trigger] tail[i] == (
            "ARG_"@ + uppercase_of(entries@[i].0@),
            env_value(entries@[i].1@),
        ));
        assert(field_views(env@) =~= seq![("CORTEX_TOOL_ARGS"@, first)] + tail.subrange(0, 0));
        let mut k: usize = 0;
        while k < entries.len()
            invariant
                k <= entries@.len(),
                tail.len() == entries@.len(),
                forall|i: int| 0 <= i < entries@.len() ==> #[trigger] tail[i] == (
                    "ARG_"@ + uppercase_of(entries@[i].0@),
                    env_value(entries@[i].1@),
                ),
                field_views(env@) == seq![("CORTEX_TOOL_ARGS"@, first)] + tail.subrange(0, k as int),
            decreases entries@.len() - k,
        {
            let upper = to_uppercase(entries[k].0.as_str());
            let key = concat("ARG_", upper.as_str());
            let value = match &entries[k].1.as_str {
                Some(s) => s.clone(),
                None => entries[k].1.text.clone(),
            };
            assert(value@ == env_value(entries@[k as int].1@));
            assert(key@ == tail[k as int].0 && value@ == tail[k as int].1);
            let ghost before = field_views(env@);
            env.push((key, value));
            assert(field_views(env@) =~= before.push(tail[k as int]));
            assert(tail.subrange(0, k + 1) =~= tail.subrange(0, k as int).push(tail[k as int]));
            k = k + 1;
            assert(field_views(env@) =~= seq![("CORTEX_TOOL_ARGS"@, first)] + tail.subrange(0, k as int));
        }
        assert(tail.subrange(0, k as int) =~= tail);
        Some(env)
    }

    /// The tool's output for a script that exited (`ok`: with success).
    pub fn finish(ok: bool, stdout: &[u8], stderr: &[u8]) -> (o: ToolOutput)
        ensures
            o@ == script_result(ok, stdout@, stderr@),
    {
        let content = lossy_text(stdout);
        let error = if ok {
            None
        } else {
            Some(lossy_text(stderr))
        };
        ToolOutput { success: ok, content, error }
    }
}

} // verus!
