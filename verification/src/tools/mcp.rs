//! The MCP tool: a call to a Model Context Protocol server.

use vstd::prelude::*;
use crate::json::{
    field_views, json_field, json_field_of, json_items, json_items_of, json_parse_error, json_error_of,
    json_raw_object, json_raw_object_text, json_str_field, json_string, json_string_text, str_field,
    JsonField, JsonFieldView,
};
use crate::text::{clone_strings, concat, strings_view};
use super::{failure, success, ToolOutput, ToolOutputView};

verus! {

/// A tool that wraps an MCP server call; the server is launched per call.
#[derive(Debug)]
pub struct McpTool {
    pub name: String,
    pub description: String,
    pub command: String,
    pub args: Vec<String>,
}

pub struct McpToolView {
    pub name: Seq<char>,
    pub description: Seq<char>,
    pub command: Seq<char>,
    pub args: Seq<Seq<char>>,
}

impl View for McpTool {
    type V = McpToolView;

    open spec fn view(&self) -> McpToolView {
        McpToolView {
            name: self.name@,
            description: self.description@,
            command: self.command@,
            args: strings_view(self.args@),
        }
    }
}

impl McpTool {
    pub fn name(&self) -> (n: &str)
        ensures
            n@ == self.name@,
    {
        self.name.as_str()
    }

    pub fn description(&self) -> (d: &str)
        ensures
            d@ == self.description@,
    {
        self.description.as_str()
    }

    /// A copy of this tool's definition.
    pub fn copy(&self) -> (r: Self)
        ensures
            r@ == self@,
    {
        McpTool {
            name: self.name.clone(),
            description: self.description.clone(),
            command: self.command.clone(),
            args: clone_strings(&self.args),
        }
    }
}

// ───────────────────────── the JSON-RPC exchange ─────────────────────────

/// The JSON-RPC request that calls tool `name` with the JSON document `args`
/// as its arguments; nothing where `args` is not JSON.
pub open spec fn mcp_request(name: Seq<char>, args: Seq<char>) -> Option<Seq<char>> {
    match json_raw_object_text(seq![("name"@, json_string_text(name)), ("arguments"@, args)]) {
        Some(params) => json_raw_object_text(
            seq![
                ("jsonrpc"@, json_string_text("2.0"@)),
                ("id"@, "1"@),
                ("method"@, json_string_text("tools/call"@)),
                ("params"@, params),
            ],
        ),
        None => None,
    }
}

/// The parts joined, with `sep` between each two.
pub open spec fn joined(parts: Seq<Seq<char>>, sep: Seq<char>) -> Seq<char>
    decreases parts.len(),
{
    if parts.len() == 0 {
        Seq::empty()
    } else if parts.len() == 1 {
        parts[0]
    } else {
        joined(parts.drop_last(), sep) + sep + parts.last()
    }
}

/// The `text` string of a content item, empty where it has none.
pub open spec fn item_text(item: Seq<char>) -> Seq<char> {
    match str_field(item, "text"@) {
        Some(t) => t,
        None => Seq::empty(),
    }
}

/// The texts of the items of a result's `content` array, one per line (empty
/// where there is no such array).
pub open spec fn mcp_content(result: Seq<char>) -> Seq<char> {
    match json_field_of(result, "content"@) {
        JsonFieldView::Present(c) => match json_items_of(c.text) {
            Some(items) => joined(Seq::new(items.len(), |i: int| item_text(items[i])), "\n"@),
            None => Seq::empty(),
        },
        _ => Seq::empty(),
    }
}

/// What the server's first reply line makes of the call: no line, or a line
/// that is not JSON, or a reply with neither `error` nor `result`, is an
/// error; a reply with `error` fails with that error's JSON text; otherwise
/// the call succeeds with the result's content.
pub open spec fn mcp_reply(line: Option<Seq<char>>) -> Result<ToolOutputView, Seq<char>> {
    match line {
        None => Err("MCP server closed unexpectedly"@),
        Some(l) => match json_error_of(l) {
            Some(m) => Err(m),
            None => match json_field_of(l, "error"@) {
                JsonFieldView::Present(e) => Ok(failure(e.text)),
                _ => match json_field_of(l, "result"@) {
                    JsonFieldView::Present(r) => Ok(success(mcp_content(r.text))),
                    _ => Err("Missing result in MCP response"@),
                },
            },
        },
    }
}

pub open spec fn reply_view(r: Result<ToolOutput, String>) -> Result<ToolOutputView, Seq<char>> {
    match r {
        Ok(o) => Ok(o@),
        Err(e) => Err(e@),
    }
}

fn join_item_texts(items: &Vec<String>) -> (r: String)
    ensures
        r@ == joined(Seq::new(items@.len(), |i: int| item_text(items@[i]@)), "\n"@),
{
    let ghost parts = Seq::new(items@.len(), |i: int| item_text(items@[i]@));
    let mut out = String::new();
    let mut k: usize = 0;
    assert(parts.subrange(0, 0) =~= Seq::<Seq<char>>::empty());
    while k < items.len()
        invariant
            k <= items@.len(),
            parts == Seq::new(items@.len(), |i: int| item_text(items@[i]@)),
            out@ == joined(parts.subrange(0, k as int), "\n"@),
        decreases items@.len() - k,
    {
        let t = match json_str_field(items[k].as_str(), "text") {
            Some(t) => t,
            None => String::new(),
        };
        assert(t@ == parts[k as int]);
        assert(parts.subrange(0, k + 1).drop_last() =~= parts.subrange(0, k as int));
        if k > 0 {
            out.append("\n");
        } else {
            assert(out@ =~= Seq::<char>::empty());
        }
        out.append(t.as_str());
        k = k + 1;
        assert(out@ =~= joined(parts.subrange(0, k as int), "\n"@));
    }
    assert(parts.subrange(0, k as int) =~= parts);
    out
}

impl McpTool {
    /// The line sent to the server to call this tool with the JSON arguments
    /// `args`; nothing where `args` is not JSON.
    pub fn request_line(&self, args: &str) -> (r: Option<String>)
        ensures
            match mcp_request(self.name@, args@) {
                Some(t) => r matches Some(l) && l@ == t + "\n"@,
                None => r is None,
            },
    {
        let mut params: Vec<(String, String)> = Vec::new();
        params.push(("name".to_owned(), json_string(self.name.as_str())));
        params.push(("arguments".to_owned(), args.to_owned()));
        assert(field_views(params@) =~= seq![("name"@, json_string_text(self.name@)), ("arguments"@, args@)]);
        let p = match json_raw_object(&params) {
            Some(p) => p,
            None => {
                return None;
            },
        };
        let mut fields: Vec<(String, String)> = Vec::new();
        fields.push(("jsonrpc".to_owned(), json_string("2.0")));
        fields.push(("id".to_owned(), "1".to_owned()));
        fields.push(("method".to_owned(), json_string("tools/call")));
        fields.push(("params".to_owned(), p));
        assert(field_views(fields@) =~= seq![
            ("jsonrpc"@, json_string_text("2.0"@)),
            ("id"@, "1"@),
            ("method"@, json_string_text("tools/call"@)),
            ("params"@, fields@[3].1@),
        ]);
        match json_raw_object(&fields) {
            Some(t) => Some(concat(t.as_str(), "\n")),
            None => None,
        }
    }

    /// The tool's outcome from the server's first reply line (`None` where the
    /// server closed its output first).
    pub fn read_reply(line: Option<&str>) -> (r: Result<ToolOutput, String>)
        ensures
            reply_view(r) == mcp_reply(match line { Some(l) => Some(l@), None => None }),
    {
        let l = match line {
            Some(l) => l,
            None => {
                return Err("MCP server closed unexpectedly".to_owned());
            },
        };
        match json_parse_error(l) {
            Some(m) => {
                return Err(m);
            },
            None => {},
        }
        match json_field(l, "error") {
            JsonField::Present(e) => {
                return Ok(ToolOutput::failed(e.text));
            },
            _ => {},
        }
        let result = match json_field(l, "result") {
            JsonField::Present(r) => r,
            _ => {
                return Err("Missing result in MCP response".to_owned());
            },
        };
        let content = match json_field(result.text.as_str(), "content") {
            JsonField::Present(c) => match json_items(c.text.as_str()) {
                Some(items) => {
                    let joined_text = join_item_texts(&items);
                    assert(Seq::new(items@.len(), |i: int| item_text(items@[i]@)) =~= Seq::new(
                        strings_view(items@).len(),
                        |i: int| item_text(strings_view(items@)[i]),
                    ));
                    joined_text
                },
                None => String::new(),
            },
            _ => String::new(),
        };
        Ok(ToolOutput::succeeded(content))
    }
}

} // verus!
