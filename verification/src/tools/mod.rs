//! The built-in tools: what each decides before and after the work it hands
//! out, and the index that finds a registered tool by its name.

use vstd::prelude::*;
use vstd::utf8::{decode_utf8, valid_utf8};
use crate::text::{clone_strings, concat, opt_view, str_eq, strings_view};

pub mod bash;
pub mod delegation;
pub mod file;
pub mod mcp;
pub mod script;
pub mod tree;
pub mod web;

verus! {

/// The result of a tool execution.
#[derive(Debug)]
pub struct ToolOutput {
    pub success: bool,
    pub content: String,
    pub error: Option<String>,
}

pub struct ToolOutputView {
    pub success: bool,
    pub content: Seq<char>,
    pub error: Option<Seq<char>>,
}

impl View for ToolOutput {
    type V = ToolOutputView;

    open spec fn view(&self) -> ToolOutputView {
        ToolOutputView { success: self.success, content: self.content@, error: opt_view(self.error) }
    }
}

/// A failed output that carries `message` as its error and no content.
pub open spec fn failure(message: Seq<char>) -> ToolOutputView {
    ToolOutputView { success: false, content: Seq::empty(), error: Some(message) }
}

/// A successful output with `content` and no error.
pub open spec fn success(content: Seq<char>) -> ToolOutputView {
    ToolOutputView { success: true, content, error: None }
}

impl ToolOutput {
    /// A failed output carrying `message`.
    pub fn failed(message: String) -> (o: Self)
        ensures
            o@ == failure(message@),
    {
        ToolOutput { success: false, content: String::new(), error: Some(message) }
    }

    /// A successful output with `content`.
    pub fn succeeded(content: String) -> (o: Self)
        ensures
            o@ == success(content@),
    {
        ToolOutput { success: true, content, error: None }
    }
}

/// Why a tool refused its arguments.
#[derive(Debug, Clone, PartialEq, Eq)]
pub enum ToolError {
    /// A required argument is missing or not a string; its name.
    MissingArgument(String),
}

impl ToolError {
    /// The message of the error: `Missing '<name>' argument`.
    pub fn message(&self) -> (m: String)
        ensures
            match self {
                ToolError::MissingArgument(a) => m@ == "Missing '"@ + a@ + "' argument"@,
            },
    {
        match self {
            ToolError::MissingArgument(a) => {
                let head = crate::text::concat("Missing '", a.as_str());
                crate::text::concat(head.as_str(), "' argument")
            },
        }
    }
}

/// The text `String::from_utf8_lossy` makes of some bytes.
pub uninterp spec fn utf8_lossy(bytes: Seq<u8>) -> Seq<char>;

/// Calls `String::from_utf8_lossy`. Claimed: the text is a function of the
/// bytes (named `utf8_lossy`), and, as its documentation says, valid UTF-8 is
/// decoded unchanged; how invalid sequences are replaced is not stated.
#[verifier::external_body]
pub(crate) fn lossy_text(bytes: &[u8]) -> (s: String)
    ensures
        s@ == utf8_lossy(bytes@),
        valid_utf8(bytes@) ==> s@ == decode_utf8(bytes@),
{
    String::from_utf8_lossy(bytes).into_owned()
}

/// Whether no name occurs twice.
pub open spec fn distinct_names(names: Seq<Seq<char>>) -> bool {
    forall|i: int, j: int| 0 <= i < j < names.len() ==> names[i] != names[j]
}

/// The names of the registered tools, each once, in the order they were first
/// registered; a tool is found again by its slot.
pub struct ToolIndex {
    names: Vec<String>,
}

impl ToolIndex {
    #[verifier::type_invariant]
    spec fn inv(self) -> bool {
        distinct_names(strings_view(self.names@))
    }

    /// The registered names, each once; the slot of a name is its position.
    pub closed spec fn names(&self) -> Seq<Seq<char>> {
        strings_view(self.names@)
    }

    /// An index with no tool.
    pub fn new() -> (r: Self)
        ensures
            r.names() == Seq::<Seq<char>>::empty(),
    {
        let r = ToolIndex { names: Vec::new() };
        assert(r.names() =~= Seq::<Seq<char>>::empty());
        r
    }

    /// Registers a tool under `name` and gives its slot: the slot the name
    /// already had, whose tool the new one replaces, or a new last slot.
    pub fn register(&mut self, name: &str) -> (slot: usize)
        ensures
            distinct_names(final(self).names()),
            old(self).names().contains(name@) ==> final(self).names() == old(self).names() && slot
                < old(self).names().len() && old(self).names()[slot as int] == name@,
            !old(self).names().contains(name@) ==> final(self).names() == old(self).names().push(name@)
                && slot == old(self).names().len(),
    {
        proof {
            use_type_invariant(&*self);
        }
        match self.find(name) {
            Some(i) => i,
            None => {
                let ghost before = self.names();
                let n = self.names.len();
                let mut names: Vec<String> = Vec::new();
                std::mem::swap(&mut names, &mut self.names);
                names.push(name.to_owned());
                assert(strings_view(names@) =~= before.push(name@));
                self.names = names;
                n
            },
        }
    }

    fn find(&self, name: &str) -> (r: Option<usize>)
        ensures
            match r {
                Some(i) => i < self.names().len() && self.names()[i as int] == name@,
                None => !self.names().contains(name@),
            },
    {
        let mut i: usize = 0;
        while i < self.names.len()
            invariant
                i <= self.names@.len(),
                forall|k: int| 0 <= k < i ==> self.names@[k]@ != name@,
            decreases self.names@.len() - i,
        {
            if str_eq(self.names[i].as_str(), name) {
                return Some(i);
            }
            i = i + 1;
        }
        proof {
            if self.names().contains(name@) {
                let k = choose|k: int| 0 <= k < self.names().len() && self.names()[k] == name@;
                assert(self.names@[k]@ == name@);
            }
        }
        None
    }

    /// The slot of the tool registered under `name`, or the error
    /// `Unknown tool: <name>` when there is none.
    pub fn lookup(&self, name: &str) -> (r: Result<usize, String>)
        ensures
            self.names().contains(name@) <==> r is Ok,
            match r {
                Ok(i) => i < self.names().len() && self.names()[i as int] == name@,
                Err(m) => m@ == "Unknown tool: "@ + name@,
            },
    {
        match self.find(name) {
            Some(i) => Ok(i),
            None => Err(concat("Unknown tool: ", name)),
        }
    }

    /// The registered names.
    pub fn list(&self) -> (r: Vec<String>)
        ensures
            strings_view(r@) == self.names(),
    {
        clone_strings(&self.names)
    }
}

} // verus!
