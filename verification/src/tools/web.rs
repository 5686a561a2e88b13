//! The web tools: reading a page as text, and a simulated web search.
//!
//! The HTTP exchange itself happens outside the library; these functions say
//! what the tools report for its outcome.

use vstd::prelude::*;
use crate::json::{field_views, json_pretty_records, json_pretty_records_text, json_str_field, record_views, str_field};
use crate::text::{concat, opt_view};
use super::{failure, success, ToolOutput, ToolOutputView};

verus! {

/// The width, in columns, that a page's text is wrapped to.
pub const PAGE_WIDTH: usize = 80;

/// The text `html2text` renders for an HTML document, wrapped to `width`
/// columns; nothing where it cannot render it.
pub uninterp spec fn html_text_of(body: Seq<u8>, width: nat) -> Option<Seq<char>>;

/// Calls `html2text::config::plain().string_from_read(body, width)`, the
/// conversion `html2text::from_read` makes; `from_read` panics where this
/// gives nothing. The contract claims only that the result is a function of
/// the bytes and the width, named `html_text_of`.
#[verifier::external_body]
fn html_to_text(body: &[u8], width: usize) -> (r: Option<String>)
    ensures
        opt_view(r) == html_text_of(body@, width as nat),
{
    html2text::config::plain().string_from_read(body, width).ok()
}

/// The argument `key` of a tool call, or the tool's failure for its absence.
pub open spec fn string_arg(args: Seq<char>, key: Seq<char>) -> Result<Seq<char>, ToolOutputView> {
    match str_field(args, key) {
        Some(v) => Ok(v),
        None => Err(failure("Missing '"@ + key + "' argument"@)),
    }
}

pub open spec fn arg_view(r: Result<String, ToolOutput>) -> Result<Seq<char>, ToolOutputView> {
    match r {
        Ok(s) => Ok(s@),
        Err(o) => Err(o@),
    }
}

fn string_arg_exec(args: &str, key: &str) -> (r: Result<String, ToolOutput>)
    ensures
        arg_view(r) == string_arg(args@, key@),
{
    match json_str_field(args, key) {
        Some(v) => Ok(v),
        None => {
            let head = concat("Missing '", key);
            Err(ToolOutput::failed(concat(head.as_str(), "' argument")))
        },
    }
}

/// The URL a `web_read` call asks for, or the tool's failure without one.
pub fn read_url(args: &str) -> (r: Result<String, ToolOutput>)
    ensures
        arg_view(r) == string_arg(args@, "url"@),
{
    string_arg_exec(args, "url")
}

/// The failure for a response whose HTTP status (as text) is not a success.
pub fn http_failure(status: &str) -> (o: ToolOutput)
    ensures
        o@ == failure("HTTP error: "@ + status@),
{
    ToolOutput::failed(concat("HTTP error: ", status))
}

/// The failure for a request that got no response.
pub fn request_failure(reason: &str) -> (o: ToolOutput)
    ensures
        o@ == failure("Request failed: "@ + reason@),
{
    ToolOutput::failed(concat("Request failed: ", reason))
}

/// What `web_read` reports for a page's body: its text, wrapped to 80
/// columns. Nothing where the text cannot be rendered.
pub fn page_output(body: &[u8]) -> (o: Option<ToolOutput>)
    ensures
        match html_text_of(body@, PAGE_WIDTH as nat) {
            Some(t) => o matches Some(out) && out@ == success(t),
            None => o is None,
        },
{
    match html_to_text(body, PAGE_WIDTH) {
        Some(t) => Some(ToolOutput::succeeded(t)),
        None => None,
    }
}

/// The query a `web_search` call asks for, or the tool's failure without one.
pub fn search_query(args: &str) -> (r: Result<String, ToolOutput>)
    ensures
        arg_view(r) == string_arg(args@, "query"@),
{
    string_arg_exec(args, "query")
}

/// The single simulated hit of a search for `query`.
pub open spec fn search_record(query: Seq<char>) -> Seq<(Seq<char>, Seq<char>)> {
    seq![
        ("title"@, "Search result for: "@ + query),
        ("url"@, "https://example.com/search"@),
        ("snippet"@, "This is a simulated search result snippet for Cortex OS autonomous agent testing."@),
    ]
}

pub open spec fn output_result_view(r: Result<ToolOutput, String>) -> Result<ToolOutputView, Seq<char>> {
    match r {
        Ok(o) => Ok(o@),
        Err(e) => Err(e@),
    }
}

/// What `web_search` reports for `query`: the pretty JSON array of its hits.
pub fn search_results(query: &str) -> (r: Result<ToolOutput, String>)
    ensures
        output_result_view(r) == match json_pretty_records_text(seq![search_record(query@)]) {
            Ok(t) => Ok(success(t)),
            Err(e) => Err::<ToolOutputView, Seq<char>>(e),
        },
{
    let mut hit: Vec<(String, String)> = Vec::new();
    hit.push(("title".to_owned(), concat("Search result for: ", query)));
    hit.push(("url".to_owned(), "https://example.com/search".to_owned()));
    hit.push((
        "snippet".to_owned(),
        "This is a simulated search result snippet for Cortex OS autonomous agent testing.".to_owned(),
    ));
    assert(field_views(hit@) =~= search_record(query@));
    let mut records: Vec<Vec<(String, String)>> = Vec::new();
    records.push(hit);
    assert(field_views(records@[0]@) == search_record(query@));
    assert(record_views(records@) =~= seq![search_record(query@)]);
    match json_pretty_records(&records) {
        Ok(t) => Ok(ToolOutput::succeeded(t)),
        Err(e) => Err(e),
    }
}

} // verus!
