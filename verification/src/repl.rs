//! The interactive command line: what each typed line asks for.

use vstd::prelude::*;
use crate::agent::{error_message, AgentError, AgentResult};
use crate::json::{
    field_views, json_error_of, json_field, json_field_of, json_items, json_items_of, json_object, json_object_text,
    json_parse_error, json_str_field, str_field, JsonField, JsonFieldView,
};
use crate::nats_bus::{TaskResult, TaskResultView, TaskStatus};
use crate::sandbox::{cut_ok, truncated};
use crate::text::{
    concat, decimal, decimal_string, from_chars, is_whitespace, lemma_first_space, opt_view, split_at_first_space,
    split_first_space, strings_view, to_chars, trim_chars, trim_end, trim_start, trimmed,
};
use crate::tools::{ToolOutput, ToolOutputView};

verus! {

/// What a line typed at the prompt asks for.
#[derive(Debug)]
pub enum ReplCommand {
    /// Nothing was typed.
    Empty,
    /// Leave the prompt.
    Exit,
    /// Run a tool with these JSON arguments.
    Tool { name: String, args: String },
    /// List the tools.
    Tools,
    /// Ask the brain.
    Think(String),
    /// Store a memory.
    Remember(String),
    /// Search the memories.
    Recall(String),
    /// Run an agent towards a goal.
    Agent(String),
    /// The command lacks its argument; print this usage line.
    Usage(String),
    /// No such command.
    Unknown(String),
}

pub enum ReplCommandView {
    Empty,
    Exit,
    Tool { name: Seq<char>, args: Seq<char> },
    Tools,
    Think(Seq<char>),
    Remember(Seq<char>),
    Recall(Seq<char>),
    Agent(Seq<char>),
    Usage(Seq<char>),
    Unknown(Seq<char>),
}

impl View for ReplCommand {
    type V = ReplCommandView;

    open spec fn view(&self) -> ReplCommandView {
        match self {
            ReplCommand::Empty => ReplCommandView::Empty,
            ReplCommand::Exit => ReplCommandView::Exit,
            ReplCommand::Tool { name, args } => ReplCommandView::Tool { name: name@, args: args@ },
            ReplCommand::Tools => ReplCommandView::Tools,
            ReplCommand::Think(s) => ReplCommandView::Think(s@),
            ReplCommand::Remember(s) => ReplCommandView::Remember(s@),
            ReplCommand::Recall(s) => ReplCommandView::Recall(s@),
            ReplCommand::Agent(s) => ReplCommandView::Agent(s@),
            ReplCommand::Usage(s) => ReplCommandView::Usage(s@),
            ReplCommand::Unknown(s) => ReplCommandView::Unknown(s@),
        }
    }
}

/// A tool call with one string argument.
pub open spec fn tool1(name: Seq<char>, key: Seq<char>, value: Seq<char>) -> ReplCommandView {
    ReplCommandView::Tool { name, args: json_object_text(seq![(key, value)]) }
}

/// A command that needs a non-empty argument.
pub open spec fn needs_arg(arg: Seq<char>, usage: Seq<char>, cmd: ReplCommandView) -> ReplCommandView {
    if arg.len() == 0 {
        ReplCommandView::Usage(usage)
    } else {
        cmd
    }
}

/// What the line asks for: the trimmed line is split at its first space into
/// the command and its argument (empty when there is no space).
pub open spec fn repl_command(line: Seq<char>) -> ReplCommandView {
    let t = trimmed(line);
    let parts = split_first_space(t);
    let cmd = parts.0;
    let arg = match parts.1 {
        Some(a) => a,
        None => Seq::empty(),
    };
    if t.len() == 0 {
        ReplCommandView::Empty
    } else if t == "exit"@ || t == "quit"@ {
        ReplCommandView::Exit
    } else if cmd == "bash"@ {
        tool1("bash"@, "command"@, arg)
    } else if cmd == "file_read"@ {
        tool1("file_read"@, "path"@, arg)
    } else if cmd == "file_write"@ {
        let fp = split_first_space(arg);
        match fp.1 {
            Some(content) => ReplCommandView::Tool {
                name: "file_write"@,
                args: json_object_text(seq![("path"@, fp.0), ("content"@, content)]),
            },
            None => ReplCommandView::Usage("  Usage: file_write <path> <content>"@),
        }
    } else if cmd == "tools"@ {
        ReplCommandView::Tools
    } else if cmd == "tree"@ {
        tool1("file_tree"@, "path"@, if arg.len() == 0 { "."@ } else { arg })
    } else if cmd == "think"@ {
        needs_arg(arg, "  Usage: think <prompt>"@, ReplCommandView::Think(arg))
    } else if cmd == "remember"@ {
        needs_arg(arg, "  Usage: remember <text to store>"@, ReplCommandView::Remember(arg))
    } else if cmd == "recall"@ {
        needs_arg(arg, "  Usage: recall <search query>"@, ReplCommandView::Recall(arg))
    } else if cmd == "agent"@ {
        needs_arg(arg, "  Usage: agent <goal>"@, ReplCommandView::Agent(arg))
    } else {
        ReplCommandView::Unknown(cmd)
    }
}

fn chars_are(v: &Vec<char>, s: &str) -> (b: bool)
    ensures
        b == (v@ == s@),
{
    let t = to_chars(s);
    if v.len() != t.len() {
        return false;
    }
    let mut i: usize = 0;
    while i < v.len()
        invariant
            v@.len() == t@.len(),
            t@ == s@,
            i <= v@.len(),
            forall|k: int| 0 <= k < i ==> v@[k] == t@[k],
        decreases v@.len() - i,
    {
        if v[i] != t[i] {
            return false;
        }
        i = i + 1;
    }
    assert(v@ =~= t@);
    true
}

/// `tree` followed by an argument lists the path the argument names, and
/// `tree` alone lists the current directory.
pub proof fn lemma_tree_lists_its_argument(arg: Seq<char>)
    requires
        arg.len() > 0,
        !is_whitespace(arg.last()),
    ensures
        repl_command("tree "@ + arg) == (ReplCommandView::Tool {
            name: "file_tree"@,
            args: json_object_text(seq![("path"@, arg)]),
        }),
        repl_command("tree"@) == (ReplCommandView::Tool {
            name: "file_tree"@,
            args: json_object_text(seq![("path"@, seq!['.'])]),
        }),
{
    reveal_strlit("tree ");
    reveal_strlit("tree");
    reveal_strlit("exit");
    reveal_strlit("quit");
    reveal_strlit("bash");
    reveal_strlit("file_read");
    reveal_strlit("file_write");
    reveal_strlit("tools");
    reveal_strlit(".");
    let line = "tree "@ + arg;
    assert(line[0] == 't');
    assert(!is_whitespace(line[0]));
    assert(trim_start(line) == line);
    assert(line.last() == arg.last());
    assert(trim_end(line) == line);
    assert(trimmed(line) == line);
    assert(line != "exit"@);
    assert(line != "quit"@);
    assert forall|q: int| 0 <= q < 4 implies line[q] != ' ' by {}
    lemma_first_space(line, 4);
    let parts = split_first_space(line);
    assert(parts.0 =~= "tree"@);
    assert(parts.1 == Some(line.subrange(5, line.len() as int)));
    assert(line.subrange(5, line.len() as int) =~= arg);
    assert("tree"@ != "bash"@) by {
        assert("tree"@[0] != "bash"@[0]);
    }
    assert("tree"@ != "file_read"@);
    assert("tree"@ != "file_write"@);
    assert("tree"@ != "tools"@);
    let alone = "tree"@;
    assert(trim_start(alone) == alone);
    assert(trim_end(alone) == alone);
    assert(alone != "exit"@) by {
        assert(alone[0] != "exit"@[0]);
    }
    assert(alone != "quit"@) by {
        assert(alone[0] != "quit"@[0]);
    }
    assert forall|q: int| 0 <= q < 4 implies alone[q] != ' ' by {}
    lemma_first_space(alone, 4);
    assert(split_first_space(alone).0 == alone);
    assert("."@ =~= seq!['.']);
}

proof fn lemma_command_line(cmd: Seq<char>, arg: Seq<char>)
    requires
        cmd.len() > 0,
        !is_whitespace(cmd[0]),
        forall|q: int| 0 <= q < cmd.len() ==> cmd[q] != ' ',
        arg.len() > 0,
        !is_whitespace(arg.last()),
    ensures
        trimmed(cmd + " "@ + arg) == cmd + " "@ + arg,
        split_first_space(cmd + " "@ + arg) == (cmd, Some(arg)),
{
    reveal_strlit(" ");
    let line = cmd + " "@ + arg;
    assert(line[0] == cmd[0]);
    assert(trim_start(line) == line);
    assert(line.last() == arg.last());
    assert(trim_end(line) == line);
    assert forall|q: int| 0 <= q < cmd.len() implies line[q] != ' ' by {
        assert(line[q] == cmd[q]);
    }
    assert(line[cmd.len() as int] == ' ');
    lemma_first_space(line, cmd.len() as int);
    assert(line.subrange(0, cmd.len() as int) =~= cmd);
    assert(line.subrange(cmd.len() as int + 1, line.len() as int) =~= arg);
}

/// A command followed by an argument hands the argument on whole: `bash`
/// runs it as the command, `file_read` reads it as the path, `think` asks it,
/// `remember` stores it, `recall` searches for it and `agent` pursues it.
pub proof fn lemma_commands_take_their_argument(arg: Seq<char>)
    requires
        arg.len() > 0,
        !is_whitespace(arg.last()),
    ensures
        repl_command("bash "@ + arg) == (ReplCommandView::Tool {
            name: "bash"@,
            args: json_object_text(seq![("command"@, arg)]),
        }),
        repl_command("file_read "@ + arg) == (ReplCommandView::Tool {
            name: "file_read"@,
            args: json_object_text(seq![("path"@, arg)]),
        }),
        repl_command("think "@ + arg) == ReplCommandView::Think(arg),
        repl_command("remember "@ + arg) == ReplCommandView::Remember(arg),
        repl_command("recall "@ + arg) == ReplCommandView::Recall(arg),
        repl_command("agent "@ + arg) == ReplCommandView::Agent(arg),
{
    reveal_strlit(" ");
    reveal_strlit("exit");
    reveal_strlit("quit");
    reveal_strlit("bash");
    reveal_strlit("file_read");
    reveal_strlit("file_write");
    reveal_strlit("tools");
    reveal_strlit("tree");
    reveal_strlit("think");
    reveal_strlit("remember");
    reveal_strlit("recall");
    reveal_strlit("agent");
    reveal_strlit("bash ");
    reveal_strlit("file_read ");
    reveal_strlit("think ");
    reveal_strlit("remember ");
    reveal_strlit("recall ");
    reveal_strlit("agent ");
    assert("bash "@ =~= "bash"@ + " "@);
    assert("file_read "@ =~= "file_read"@ + " "@);
    assert("think "@ =~= "think"@ + " "@);
    assert("remember "@ =~= "remember"@ + " "@);
    assert("recall "@ =~= "recall"@ + " "@);
    assert("agent "@ =~= "agent"@ + " "@);
    lemma_command_line("bash"@, arg);
    lemma_command_line("file_read"@, arg);
    lemma_command_line("think"@, arg);
    lemma_command_line("remember"@, arg);
    lemma_command_line("recall"@, arg);
    lemma_command_line("agent"@, arg);
    assert("bash"@ + " "@ + arg =~= "bash "@ + arg);
    assert("file_read"@ + " "@ + arg =~= "file_read "@ + arg);
    assert("think"@ + " "@ + arg =~= "think "@ + arg);
    assert("remember"@ + " "@ + arg =~= "remember "@ + arg);
    assert("recall"@ + " "@ + arg =~= "recall "@ + arg);
    assert("agent"@ + " "@ + arg =~= "agent "@ + arg);
    assert("think"@ != "bash"@);
    assert("think"@ != "tools"@) by {
        assert("think"@[1] != "tools"@[1]);
    }
    assert("think"@ != "tree"@);
    assert("agent"@ != "tools"@) by {
        assert("agent"@[0] != "tools"@[0]);
    }
    assert("agent"@ != "think"@) by {
        assert("agent"@[0] != "think"@[0]);
    }
    assert("recall"@ != "remember"@);
}

fn tool_call(name: &str, key: &str, value: String) -> (c: ReplCommand)
    ensures
        c@ == tool1(name@, key@, value@),
{
    let mut fields: Vec<(String, String)> = Vec::new();
    fields.push((key.to_owned(), value));
    assert(field_views(fields@) =~= seq![(key@, fields@[0].1@)]);
    ReplCommand::Tool { name: name.to_owned(), args: json_object(&fields) }
}

/// What a line typed at the prompt asks for.
pub fn parse_line(line: &str) -> (c: ReplCommand)
    ensures
        c@ == repl_command(line@),
{
    let chars = to_chars(line);
    let t = trim_chars(&chars);
    if t.len() == 0 {
        return ReplCommand::Empty;
    }
    if chars_are(&t, "exit") || chars_are(&t, "quit") {
        return ReplCommand::Exit;
    }
    let (cmd_chars, rest) = split_at_first_space(&t);
    let arg_chars = match rest {
        Some(a) => a,
        None => Vec::new(),
    };
    assert(arg_chars@ == (match split_first_space(t@).1 { Some(a) => a, None => Seq::<char>::empty() }));
    let arg = from_chars(arg_chars.as_slice());
    if chars_are(&cmd_chars, "bash") {
        tool_call("bash", "command", arg)
    } else if chars_are(&cmd_chars, "file_read") {
        tool_call("file_read", "path", arg)
    } else if chars_are(&cmd_chars, "file_write") {
        let (path_chars, content) = split_at_first_space(&arg_chars);
        match content {
            Some(c) => {
                let mut fields: Vec<(String, String)> = Vec::new();
                fields.push(("path".to_owned(), from_chars(path_chars.as_slice())));
                fields.push(("content".to_owned(), from_chars(c.as_slice())));
                assert(field_views(fields@) =~= seq![("path"@, path_chars@), ("content"@, c@)]);
                ReplCommand::Tool { name: "file_write".to_owned(), args: json_object(&fields) }
            },
            None => ReplCommand::Usage("  Usage: file_write <path> <content>".to_owned()),
        }
    } else if chars_are(&cmd_chars, "tools") {
        ReplCommand::Tools
    } else if chars_are(&cmd_chars, "tree") {
        if arg_chars.len() == 0 {
            tool_call("file_tree", "path", ".".to_owned())
        } else {
            tool_call("file_tree", "path", arg)
        }
    } else if chars_are(&cmd_chars, "think") {
        if arg_chars.len() == 0 { ReplCommand::Usage("  Usage: think <prompt>".to_owned()) } else { ReplCommand::Think(arg) }
    } else if chars_are(&cmd_chars, "remember") {
        if arg_chars.len() == 0 {
            ReplCommand::Usage("  Usage: remember <text to store>".to_owned())
        } else {
            ReplCommand::Remember(arg)
        }
    } else if chars_are(&cmd_chars, "recall") {
        if arg_chars.len() == 0 { ReplCommand::Usage("  Usage: recall <search query>".to_owned()) } else { ReplCommand::Recall(arg) }
    } else if chars_are(&cmd_chars, "agent") {
        if arg_chars.len() == 0 { ReplCommand::Usage("  Usage: agent <goal>".to_owned()) } else { ReplCommand::Agent(arg) }
    } else {
        ReplCommand::Unknown(from_chars(cmd_chars.as_slice()))
    }
}

/// The longest a recalled memory is shown, in bytes.
pub const RECALL_DISPLAY_BYTES: usize = 120;

/// A recalled memory as shown: cut to 120 bytes and marked with `...` when longer.
pub fn recall_display(content: &str) -> (s: String)
    requires
        cut_ok(content@, RECALL_DISPLAY_BYTES as int),
    ensures
        s@ == truncated(content@, RECALL_DISPLAY_BYTES as int, "..."@),
{
    if content.as_bytes().len() > RECALL_DISPLAY_BYTES {
        let head = crate::sandbox::cut_to_bytes(content, RECALL_DISPLAY_BYTES);
        crate::text::concat(head.as_str(), "...")
    } else {
        content.to_owned()
    }
}

// ───────────────────────── what the prompt prints ─────────────────────────

/// The line printed for a tool's output: its content when it succeeded, its
/// error when it failed with one, nothing otherwise.
pub open spec fn tool_line(o: ToolOutputView) -> Option<Seq<char>> {
    if o.success {
        Some(o.content)
    } else {
        match o.error {
            Some(e) => Some("  [ERROR] "@ + e),
            None => None,
        }
    }
}

/// The line printed for a tool's output.
pub fn tool_report(o: &ToolOutput) -> (r: Option<String>)
    ensures
        opt_view(r) == tool_line(o@),
{
    if o.success {
        Some(o.content.clone())
    } else {
        match &o.error {
            Some(e) => Some(concat("  [ERROR] ", e.as_str())),
            None => None,
        }
    }
}

/// The line for a reply that reports a failure: its error, if it has one.
pub open spec fn error_lines(r: TaskResultView) -> Seq<Seq<char>> {
    match r.error {
        Some(e) => seq!["  [ERROR] "@ + e],
        None => Seq::empty(),
    }
}

pub open spec fn reply_view(r: Result<TaskResult, String>) -> Result<TaskResultView, Seq<char>> {
    match r {
        Ok(t) => Ok(t@),
        Err(e) => Err(e@),
    }
}

/// The lines printed for the brain's answer to `think`: the `response` of a
/// JSON answer (the whole answer where it has none) and the model that gave
/// it; the raw output where it is not JSON.
pub open spec fn think_lines(reply: Result<TaskResultView, Seq<char>>) -> Seq<Seq<char>> {
    match reply {
        Err(e) => seq!["  [ERROR] Brain unavailable: "@ + e],
        Ok(r) => if r.status != TaskStatus::Success {
            error_lines(r)
        } else if json_error_of(r.output) is Some {
            seq!["  "@ + r.output]
        } else {
            seq![
                "  "@ + match str_field(r.output, "response"@) {
                    Some(t) => t,
                    None => r.output,
                },
            ] + match str_field(r.output, "model"@) {
                Some(m) => seq!["\n  ─── model: "@ + m + " ───"@],
                None => Seq::empty(),
            }
        },
    }
}

fn error_report(error: &Option<String>) -> (v: Vec<String>)
    ensures
        strings_view(v@) == match opt_view(*error) {
            Some(e) => seq!["  [ERROR] "@ + e],
            None => Seq::<Seq<char>>::empty(),
        },
{
    let mut v: Vec<String> = Vec::new();
    match error {
        Some(e) => {
            v.push(concat("  [ERROR] ", e.as_str()));
        },
        None => {},
    }
    proof {
        assert(strings_view(v@) =~= match opt_view(*error) {
            Some(e) => seq!["  [ERROR] "@ + e],
            None => Seq::<Seq<char>>::empty(),
        });
    }
    v
}

/// The lines printed for the brain's answer to `think`.
pub fn think_report(reply: Result<TaskResult, String>) -> (v: Vec<String>)
    ensures
        strings_view(v@) == think_lines(reply_view(reply)),
{
    let r = match reply {
        Err(e) => {
            let mut v: Vec<String> = Vec::new();
            v.push(concat("  [ERROR] Brain unavailable: ", e.as_str()));
            assert(strings_view(v@) =~= seq!["  [ERROR] Brain unavailable: "@ + e@]);
            return v;
        },
        Ok(r) => r,
    };
    if r.status != TaskStatus::Success {
        return error_report(&r.error);
    }
    let mut v: Vec<String> = Vec::new();
    match json_parse_error(r.output.as_str()) {
        Some(_) => {
            v.push(concat("  ", r.output.as_str()));
            assert(strings_view(v@) =~= seq!["  "@ + r.output@]);
            return v;
        },
        None => {},
    }
    let text = match json_str_field(r.output.as_str(), "response") {
        Some(t) => t,
        None => r.output.clone(),
    };
    v.push(concat("  ", text.as_str()));
    let ghost first = v@[0]@;
    match json_str_field(r.output.as_str(), "model") {
        Some(m) => {
            let head = concat("\n  ─── model: ", m.as_str());
            v.push(concat(head.as_str(), " ───"));
        },
        None => {},
    }
    assert(strings_view(v@) =~= seq![first] + match str_field(r.output@, "model"@) {
        Some(m) => seq!["\n  ─── model: "@ + m + " ───"@],
        None => Seq::<Seq<char>>::empty(),
    });
    v
}

/// The lines printed for the answer to `remember`: a confirmation, and the
/// number of chunks stored where the answer gives it.
pub open spec fn remember_lines(reply: Result<TaskResultView, Seq<char>>) -> Seq<Seq<char>> {
    match reply {
        Err(e) => seq!["  [ERROR] Memory service unavailable: "@ + e],
        Ok(r) => if r.status != TaskStatus::Success {
            error_lines(r)
        } else {
            seq!["  ✓ Memory stored."@] + if json_error_of(r.output) is Some {
                Seq::empty()
            } else {
                match json_field_of(r.output, "ingested"@) {
                    JsonFieldView::Present(n) => seq!["  ("@ + n.text + " chunk(s) ingested)"@],
                    _ => Seq::empty(),
                }
            }
        },
    }
}

/// The lines printed for the answer to `remember`.
pub fn remember_report(reply: Result<TaskResult, String>) -> (v: Vec<String>)
    ensures
        strings_view(v@) == remember_lines(reply_view(reply)),
{
    let r = match reply {
        Err(e) => {
            let mut v: Vec<String> = Vec::new();
            v.push(concat("  [ERROR] Memory service unavailable: ", e.as_str()));
            assert(strings_view(v@) =~= seq!["  [ERROR] Memory service unavailable: "@ + e@]);
            return v;
        },
        Ok(r) => r,
    };
    if r.status != TaskStatus::Success {
        return error_report(&r.error);
    }
    let mut v: Vec<String> = Vec::new();
    v.push("  ✓ Memory stored.".to_owned());
    let parses = match json_parse_error(r.output.as_str()) {
        Some(_) => false,
        None => true,
    };
    if parses {
        match json_field(r.output.as_str(), "ingested") {
            JsonField::Present(n) => {
                let head = concat("  (", n.text.as_str());
                v.push(concat(head.as_str(), " chunk(s) ingested)"));
            },
            _ => {},
        }
    }
    assert(strings_view(v@) =~= remember_lines(reply_view(Ok(r))));
    v
}

/// One line of the answer to `recall`: plain text, or a hit with its number,
/// the JSON text of its score (where it has one) and its content as shown.
#[derive(Debug)]
pub enum RecallLine {
    Text(String),
    Hit { number: usize, score: Option<String>, display: String },
}

pub enum RecallLineView {
    Text(Seq<char>),
    Hit { number: nat, score: Option<Seq<char>>, display: Seq<char> },
}

impl View for RecallLine {
    type V = RecallLineView;

    open spec fn view(&self) -> RecallLineView {
        match self {
            RecallLine::Text(t) => RecallLineView::Text(t@),
            RecallLine::Hit { number, score, display } => RecallLineView::Hit {
                number: *number as nat,
                score: opt_view(*score),
                display: display@,
            },
        }
    }
}

pub open spec fn recall_views(v: Seq<RecallLine>) -> Seq<RecallLineView> {
    Seq::new(v.len(), |i: int| v[i]@)
}

/// The items of the `results` array of a JSON answer.
pub open spec fn recall_items(output: Seq<char>) -> Option<Seq<Seq<char>>> {
    if json_error_of(output) is Some {
        None
    } else {
        match json_field_of(output, "results"@) {
            JsonFieldView::Present(v) => json_items_of(v.text),
            _ => None,
        }
    }
}

/// A hit's `content` string, `???` where it has none.
pub open spec fn hit_content(item: Seq<char>) -> Seq<char> {
    match str_field(item, "content"@) {
        Some(c) => c,
        None => "???"@,
    }
}

/// The JSON text of a hit's `score`, where it has one.
pub open spec fn hit_score(item: Seq<char>) -> Option<Seq<char>> {
    match json_field_of(item, "score"@) {
        JsonFieldView::Present(v) => Some(v.text),
        _ => None,
    }
}

/// Every hit's content can be cut to its displayed length on a character boundary.
pub open spec fn recall_cuts_ok(reply: Result<TaskResultView, Seq<char>>) -> bool {
    match reply {
        Ok(r) => r.status == TaskStatus::Success ==> match recall_items(r.output) {
            Some(items) => forall|i: int| 0 <= i < items.len() ==> cut_ok(#[trigger] hit_content(items[i]), RECALL_DISPLAY_BYTES as int),
            None => true,
        },
        Err(_) => true,
    }
}

/// The lines printed for the answer to `recall query`: how many memories were
/// found and each of them, numbered from 1, its content cut for display; the
/// raw output where it holds no `results` array.
pub open spec fn recall_lines(query: Seq<char>, reply: Result<TaskResultView, Seq<char>>) -> Seq<RecallLineView> {
    match reply {
        Err(e) => seq![RecallLineView::Text("  [ERROR] Memory service unavailable: "@ + e)],
        Ok(r) => if r.status != TaskStatus::Success {
            Seq::new(error_lines(r).len(), |i: int| RecallLineView::Text(error_lines(r)[i]))
        } else {
            match recall_items(r.output) {
                None => seq![RecallLineView::Text("  "@ + r.output)],
                Some(items) => if items.len() == 0 {
                    seq![RecallLineView::Text("  No memories found for: \""@ + query + "\""@)]
                } else {
                    seq![RecallLineView::Text("  Found "@ + decimal(items.len()) + " memories:\n"@)] + Seq::new(
                        items.len(),
                        |i: int| RecallLineView::Hit {
                            number: (i + 1) as nat,
                            score: hit_score(items[i]),
                            display: truncated(hit_content(items[i]), RECALL_DISPLAY_BYTES as int, "..."@),
                        },
                    )
                },
            }
        },
    }
}

fn items_of_reply(output: &str) -> (r: Option<Vec<String>>)
    ensures
        match r {
            Some(v) => recall_items(output@) == Some(strings_view(v@)),
            None => recall_items(output@) is None,
        },
{
    match json_parse_error(output) {
        Some(_) => {
            return None;
        },
        None => {},
    }
    match json_field(output, "results") {
        JsonField::Present(v) => json_items(v.text.as_str()),
        _ => None,
    }
}

fn hit_content_exec(item: &str) -> (c: String)
    ensures
        c@ == hit_content(item@),
{
    match json_str_field(item, "content") {
        Some(c) => c,
        None => "???".to_owned(),
    }
}

/// The lines printed for the answer to `recall query`.
pub fn recall_report(query: &str, reply: Result<TaskResult, String>) -> (v: Vec<RecallLine>)
    requires
        recall_cuts_ok(reply_view(reply)),
    ensures
        recall_views(v@) == recall_lines(query@, reply_view(reply)),
{
    let ghost rv = reply_view(reply);
    let r = match reply {
        Err(e) => {
            let mut v: Vec<RecallLine> = Vec::new();
            v.push(RecallLine::Text(concat("  [ERROR] Memory service unavailable: ", e.as_str())));
            assert(recall_views(v@) =~= recall_lines(query@, rv));
            return v;
        },
        Ok(r) => r,
    };
    if r.status != TaskStatus::Success {
        let lines = error_report(&r.error);
        let mut v: Vec<RecallLine> = Vec::new();
        match lines.len() {
            0 => {},
            _ => {
                v.push(RecallLine::Text(lines[0].clone()));
            },
        }
        assert(recall_views(v@) =~= recall_lines(query@, rv));
        return v;
    }
    let mut v: Vec<RecallLine> = Vec::new();
    let items = match items_of_reply(r.output.as_str()) {
        Some(items) => items,
        None => {
            v.push(RecallLine::Text(concat("  ", r.output.as_str())));
            assert(recall_views(v@) =~= recall_lines(query@, rv));
            return v;
        },
    };
    let ghost iv = strings_view(items@);
    if items.len() == 0 {
        let head = concat("  No memories found for: \"", query);
        v.push(RecallLine::Text(concat(head.as_str(), "\"")));
        assert(recall_views(v@) =~= recall_lines(query@, rv));
        return v;
    }
    let count = decimal_string(items.len() as u64);
    let head = concat("  Found ", count.as_str());
    v.push(RecallLine::Text(concat(head.as_str(), " memories:\n")));
    let ghost hits = Seq::new(
        iv.len(),
        |i: int| RecallLineView::Hit {
            number: (i + 1) as nat,
            score: hit_score(iv[i]),
            display: truncated(hit_content(iv[i]), RECALL_DISPLAY_BYTES as int, "..."@),
        },
    );
    let ghost first = recall_views(v@)[0];
    let mut k: usize = 0;
    while k < items.len()
        invariant
            k <= items@.len(),
            iv == strings_view(items@),
            hits.len() == iv.len(),
            forall|i: int| 0 <= i < iv.len() ==> cut_ok(#[trigger] hit_content(iv[i]), RECALL_DISPLAY_BYTES as int),
            forall|i: int| 0 <= i < iv.len() ==> #[trigger] hits[i] == (RecallLineView::Hit {
                number: (i + 1) as nat,
                score: hit_score(iv[i]),
                display: truncated(hit_content(iv[i]), RECALL_DISPLAY_BYTES as int, "..."@),
            }),
            recall_views(v@) == seq![first] + hits.subrange(0, k as int),
        decreases items@.len() - k,
    {
        let content = hit_content_exec(items[k].as_str());
        assert(cut_ok(hit_content(iv[k as int]), RECALL_DISPLAY_BYTES as int));
        let display = recall_display(content.as_str());
        let score = match json_field(items[k].as_str(), "score") {
            JsonField::Present(s) => Some(s.text),
            _ => None,
        };
        let ghost before = recall_views(v@);
        v.push(RecallLine::Hit { number: k + 1, score, display });
        assert(recall_views(v@) =~= before.push(hits[k as int]));
        assert(hits.subrange(0, k + 1) =~= hits.subrange(0, k as int).push(hits[k as int]));
        k = k + 1;
    }
    assert(hits.subrange(0, k as int) =~= hits);
    assert(first == RecallLineView::Text("  Found "@ + decimal(iv.len()) + " memories:\n"@));
    v
}

fn cut_fits(content: &str) -> (b: bool)
    ensures
        b == cut_ok(content@, RECALL_DISPLAY_BYTES as int),
{
    if content.as_bytes().len() > RECALL_DISPLAY_BYTES {
        content.is_char_boundary(RECALL_DISPLAY_BYTES)
    } else {
        true
    }
}

/// The lines printed for the answer to `recall query`, where every hit's
/// content can be cut for display; nothing otherwise.
pub fn recall_report_checked(query: &str, reply: Result<TaskResult, String>) -> (v: Option<Vec<RecallLine>>)
    ensures
        recall_cuts_ok(reply_view(reply)) ==> (v matches Some(lines) && recall_views(lines@) == recall_lines(
            query@,
            reply_view(reply),
        )),
        !recall_cuts_ok(reply_view(reply)) ==> v is None,
{
    let ok = match &reply {
        Ok(r) => {
            if r.status == TaskStatus::Success {
                match items_of_reply(r.output.as_str()) {
                    Some(items) => {
                        let mut all = true;
                        let mut k: usize = 0;
                        while k < items.len()
                            invariant
                                k <= items@.len(),
                                all == forall|i: int| 0 <= i < k ==> cut_ok(
                                    #[trigger] hit_content(strings_view(items@)[i]),
                                    RECALL_DISPLAY_BYTES as int,
                                ),
                            decreases items@.len() - k,
                        {
                            let c = hit_content_exec(items[k].as_str());
                            assert(strings_view(items@)[k as int] == items@[k as int]@);
                            let fits = cut_fits(c.as_str());
                            if !fits {
                                all = false;
                            }
                            k = k + 1;
                            assert(all == forall|i: int| 0 <= i < k ==> cut_ok(
                                #[trigger] hit_content(strings_view(items@)[i]),
                                RECALL_DISPLAY_BYTES as int,
                            )) by {
                                if !fits {
                                    assert(!cut_ok(hit_content(strings_view(items@)[k - 1]), RECALL_DISPLAY_BYTES as int));
                                }
                            }
                        }
                        all
                    },
                    None => true,
                }
            } else {
                true
            }
        },
        Err(_) => true,
    };
    if ok {
        Some(recall_report(query, reply))
    } else {
        None
    }
}

/// The lines printed when an agent's run is over: the answer and the number
/// of steps, or why it failed.
pub open spec fn agent_lines(answer: Seq<char>, steps: nat) -> Seq<Seq<char>> {
    seq![
        "\n  ✨ Goal achieved!"@,
        "  ─────────────────────────────────────────────────"@,
        "  Final Answer:\n"@,
        "  "@ + answer,
        "\n  Steps taken: "@ + decimal(steps),
    ]
}

/// The lines printed when an agent's run ends.
pub fn agent_report(outcome: &Result<AgentResult, AgentError>) -> (v: Vec<String>)
    ensures
        strings_view(v@) == match outcome {
            Ok(res) => agent_lines(res.final_answer@, res.steps@.len()),
            Err(e) => seq!["\n  [ERROR] Agent failed: "@ + error_message(e@)],
        },
{
    let mut v: Vec<String> = Vec::new();
    match outcome {
        Ok(res) => {
            v.push("\n  ✨ Goal achieved!".to_owned());
            v.push("  ─────────────────────────────────────────────────".to_owned());
            v.push("  Final Answer:\n".to_owned());
            v.push(concat("  ", res.final_answer.as_str()));
            let n = decimal_string(res.steps.len() as u64);
            v.push(concat("\n  Steps taken: ", n.as_str()));
            assert(strings_view(v@) =~= agent_lines(res.final_answer@, res.steps@.len()));
        },
        Err(e) => {
            let m = e.message();
            v.push(concat("\n  [ERROR] Agent failed: ", m.as_str()));
            assert(strings_view(v@) =~= seq!["\n  [ERROR] Agent failed: "@ + error_message(e@)]);
        },
    }
    v
}

} // verus!
