//! The `file_tree` tool: a directory tree drawn as text or given as a JSON tree.

use vstd::prelude::*;
use crate::json::{
    field_views, json_field, json_field_of, json_pretty, json_pretty_text, json_raw_array, json_raw_array_text,
    json_raw_object, json_raw_object_text, json_str_field, json_string, json_string_text, str_field, JsonField,
    JsonFieldView,
};
use crate::text::{concat, decimal, decimal_string, opt_view, str_eq, strings_view};

verus! {

/// Recursively lists files and directories of the workspace.
pub struct FileTreeTool;

/// One entry of a directory: its name, whether it is a directory, its size
/// when it is a file, and, for a directory that was read, its own entries.
#[derive(Debug)]
pub struct TreeEntry {
    pub name: String,
    pub is_dir: bool,
    pub size: u64,
    pub children: Option<Vec<TreeEntry>>,
}

/// Large, binary or hidden folders that the tree leaves out.
pub open spec fn skipped_name(name: Seq<char>) -> bool {
    name == "target"@ || name == "node_modules"@ || name == ".git"@ || name == ".venv"@
}

fn is_skipped(name: &str) -> (b: bool)
    ensures
        b == skipped_name(name@),
{
    str_eq(name, "target") || str_eq(name, "node_modules") || str_eq(name, ".git") || str_eq(name, ".venv")
}

// ───────────────────────── ordering by name ─────────────────────────

/// `a` sorts strictly before `b`: character by character, a proper prefix first.
/// Code-point order of characters is the byte order of their UTF-8 encoding,
/// the order of file names.
pub open spec fn name_lt(a: Seq<char>, b: Seq<char>) -> bool
    decreases a.len(),
{
    if a.len() == 0 {
        b.len() > 0
    } else if b.len() == 0 {
        false
    } else if a[0] != b[0] {
        (a[0] as u32) < (b[0] as u32)
    } else {
        name_lt(a.drop_first(), b.drop_first())
    }
}

/// Where `e` goes in `s`: before the first entry whose name sorts after its own.
pub open spec fn insert_pos(s: Seq<TreeEntry>, e: TreeEntry) -> int
    decreases s.len(),
{
    if s.len() == 0 {
        0
    } else if name_lt(e.name@, s[0].name@) {
        0
    } else {
        insert_pos(s.drop_first(), e) + 1
    }
}

/// The entries in name order; entries with the same name keep their order.
pub open spec fn by_name(s: Seq<TreeEntry>) -> Seq<TreeEntry>
    decreases s.len(),
{
    if s.len() == 0 {
        s
    } else {
        let t = by_name(s.drop_last());
        t.insert(insert_pos(t, s.last()), s.last())
    }
}

fn chars_lt(a: &Vec<char>, b: &Vec<char>) -> (r: bool)
    ensures
        r == name_lt(a@, b@),
{
    let mut i: usize = 0;
    assert(a@.subrange(0, a@.len() as int) =~= a@);
    assert(b@.subrange(0, b@.len() as int) =~= b@);
    while i < a.len() && i < b.len() && a[i] == b[i]
        invariant
            i <= a@.len(),
            i <= b@.len(),
            name_lt(a@, b@) == name_lt(a@.subrange(i as int, a@.len() as int), b@.subrange(i as int, b@.len() as int)),
        decreases a@.len() - i,
    {
        assert(a@.subrange(i as int, a@.len() as int).drop_first() =~= a@.subrange(i + 1, a@.len() as int));
        assert(b@.subrange(i as int, b@.len() as int).drop_first() =~= b@.subrange(i + 1, b@.len() as int));
        i = i + 1;
    }
    let ghost sa = a@.subrange(i as int, a@.len() as int);
    let ghost sb = b@.subrange(i as int, b@.len() as int);
    if i == a.len() {
        i < b.len()
    } else if i == b.len() {
        false
    } else {
        assert(sa[0] == a@[i as int] && sb[0] == b@[i as int]);
        (a[i] as u32) < (b[i] as u32)
    }
}

/// Where `e` goes in the sorted `s`.
fn find_insert_pos(s: &Vec<TreeEntry>, name: &Vec<char>, Ghost(e): Ghost<TreeEntry>) -> (k: usize)
    requires
        name@ == e.name@,
    ensures
        k as int == insert_pos(s@, e),
{
    let mut k: usize = 0;
    assert(s@.subrange(0, s@.len() as int) =~= s@);
    while k < s.len()
        invariant_except_break
            k <= s@.len(),
            name@ == e.name@,
            insert_pos(s@, e) == insert_pos(s@.subrange(k as int, s@.len() as int), e) + k,
        ensures
            k <= s@.len(),
            insert_pos(s@, e) == k,
        decreases s@.len() - k,
    {
        let ghost rest = s@.subrange(k as int, s@.len() as int);
        assert(rest.len() > 0 && rest[0] == s@[k as int]);
        let other = crate::text::to_chars(s[k].name.as_str());
        assert(other@ == rest[0].name@);
        if chars_lt(name, &other) {
            assert(insert_pos(rest, e) == 0);
            break;
        }
        assert(rest.drop_first() =~= s@.subrange(k + 1, s@.len() as int));
        assert(insert_pos(rest, e) == insert_pos(rest.drop_first(), e) + 1);
        k = k + 1;
    }
    k
}

/// The entries in name order.
pub fn sort_by_name(entries: Vec<TreeEntry>) -> (r: Vec<TreeEntry>)
    ensures
        r@ == by_name(entries@),
{
    let ghost all = entries@;
    let mut rest = entries;
    let mut sorted: Vec<TreeEntry> = Vec::new();
    let ghost mut i: int = 0;
    assert(all.subrange(0, 0) =~= Seq::<TreeEntry>::empty());
    assert(all.subrange(0, all.len() as int) =~= all);
    while rest.len() > 0
        invariant
            0 <= i <= all.len(),
            rest@ == all.subrange(i, all.len() as int),
            sorted@ == by_name(all.subrange(0, i)),
        decreases rest@.len(),
    {
        let e = rest.remove(0);
        assert(e == all[i]);
        let name = crate::text::to_chars(e.name.as_str());
        let k = find_insert_pos(&sorted, &name, Ghost(e));
        proof {
            lemma_insert_pos(sorted@, e);
            assert(all.subrange(0, i + 1).drop_last() =~= all.subrange(0, i));
            assert(all.subrange(0, i + 1).last() == e);
        }
        sorted.insert(k, e);
        proof {
            i = i + 1;
            assert(rest@ =~= all.subrange(i, all.len() as int));
        }
    }
    sorted
}

// ───────────────────────── the text tree ─────────────────────────

pub open spec fn last_marker() -> Seq<char> {
    "└── "@
}

pub open spec fn mid_marker() -> Seq<char> {
    "├── "@
}

pub open spec fn depth_marker(prefix: Seq<char>) -> Seq<char> {
    prefix + "└── ... (max depth reached)\n"@
}

/// The text drawn for a directory at `depth` whose listing is `listing`
/// (`None` where it could not be read): a marker past the maximum depth;
/// otherwise each entry in name order, skipped folders left out, the last of
/// the listing drawn with a corner, directories followed by their own trees.
pub open spec fn render(listing: Option<Seq<TreeEntry>>, prefix: Seq<char>, depth: nat, max: nat) -> Seq<char>
    decreases max + 1 - depth, 1int, 0int,
{
    if depth > max {
        depth_marker(prefix)
    } else {
        match listing {
            None => Seq::empty(),
            Some(s) => render_from(by_name(s), 0, prefix, depth, max),
        }
    }
}

/// The text drawn for the sorted entries from position `i` on.
pub open spec fn render_from(s: Seq<TreeEntry>, i: int, prefix: Seq<char>, depth: nat, max: nat) -> Seq<char>
    decreases max + 1 - depth, 0int, s.len() - i,
    when 0 <= i && depth <= max
{
    if i >= s.len() {
        Seq::empty()
    } else if skipped_name(s[i].name@) {
        render_from(s, i + 1, prefix, depth, max)
    } else {
        let is_last = i == s.len() - 1;
        let line = prefix + (if is_last { last_marker() } else { mid_marker() }) + s[i].name@ + "\n"@;
        let below = if s[i].is_dir {
            render(
                match s[i].children { Some(c) => Some(c@), None => None },
                prefix + (if is_last { "    "@ } else { "│   "@ }),
                depth + 1,
                max,
            )
        } else {
            Seq::empty()
        };
        line + below + render_from(s, i + 1, prefix, depth, max)
    }
}

fn render_tree(listing: Option<Vec<TreeEntry>>, prefix: &str, depth: u64, max: u64, out: &mut String)
    ensures
        final(out)@ == old(out)@ + render(
            match listing { Some(v) => Some(v@), None => None },
            prefix@,
            depth as nat,
            max as nat,
        ),
    decreases max + 1 - depth, 1int, 0int,
{
    if depth > max {
        let line = concat(prefix, "└── ... (max depth reached)\n");
        out.append(line.as_str());
        return;
    }
    match listing {
        None => {
            assert(out@ =~= out@ + Seq::<char>::empty());
        },
        Some(entries) => {
            let sorted = sort_by_name(entries);
            proof {
                lemma_by_name_sorted(entries@);
            }
            let ghost sv = sorted@;
            let n = sorted.len();
            assert(sv.subrange(0, n as int) =~= sv);
            render_entries(sorted, 0, prefix, depth, max, out, Ghost(sv));
        },
    }
}

fn render_entries(
    mut rest: Vec<TreeEntry>,
    i: usize,
    prefix: &str,
    depth: u64,
    max: u64,
    out: &mut String,
    Ghost(s): Ghost<Seq<TreeEntry>>,
)
    requires
        depth <= max,
        i <= s.len(),
        s.len() <= usize::MAX,
        rest@ == s.subrange(i as int, s.len() as int),
    ensures
        final(out)@ == old(out)@ + render_from(s, i as int, prefix@, depth as nat, max as nat),
    decreases max + 1 - depth, 0int, s.len() - i,
{
    if rest.len() == 0 {
        assert(out@ =~= out@ + Seq::<char>::empty());
        return;
    }
    let e = rest.remove(0);
    assert(e == s[i as int]);
    let ghost rest_after = rest@;
    assert(rest_after =~= s.subrange(i + 1, s.len() as int));
    if is_skipped(e.name.as_str()) {
        render_entries(rest, i + 1, prefix, depth, max, out, Ghost(s));
        return;
    }
    let is_last = rest.len() == 0;
    assert(is_last == (i == s.len() - 1));
    let marker = if is_last { "└── " } else { "├── " };
    let l1 = concat(prefix, marker);
    let l2 = concat(l1.as_str(), e.name.as_str());
    let line = concat(l2.as_str(), "\n");
    out.append(line.as_str());
    let ghost after_line = out@;
    if e.is_dir {
        let pad = if is_last { "    " } else { "│   " };
        let child_prefix = concat(prefix, pad);
        if depth < max {
            render_tree(e.children, child_prefix.as_str(), depth + 1, max, out);
        } else {
            // the children are past the deepest level drawn
            let marker_line = concat(child_prefix.as_str(), "└── ... (max depth reached)\n");
            proof {
                let c = match e.children {
                    Some(v) => Some(v@),
                    None => None,
                };
                assert(render(c, child_prefix@, (depth + 1) as nat, max as nat) == depth_marker(child_prefix@));
            }
            out.append(marker_line.as_str());
        }
    } else {
        assert(out@ =~= out@ + Seq::<char>::empty());
    }
    let ghost after_below = out@;
    render_entries(rest, i + 1, prefix, depth, max, out, Ghost(s));
    assert(out@ =~= old(out)@ + render_from(s, i as int, prefix@, depth as nat, max as nat));
}

// ───────────────────────── the JSON tree ─────────────────────────

/// One level of the JSON tree: past the maximum depth a note, otherwise the
/// directory's entries in listing order, skipped folders left out (none for a
/// directory that could not be read). Each directory entry's own level is at
/// the next depth.
#[derive(Debug)]
pub enum JsonLevel {
    MaxDepth,
    Entries(Vec<TreeEntry>),
}

/// The entries that are not skipped, in order.
pub open spec fn unskipped(s: Seq<TreeEntry>) -> Seq<TreeEntry>
    decreases s.len(),
{
    if s.len() == 0 {
        s
    } else if skipped_name(s.last().name@) {
        unskipped(s.drop_last())
    } else {
        unskipped(s.drop_last()).push(s.last())
    }
}

// ───────────────────────── the JSON tree, as text ─────────────────────────

/// A directory's listing by its entries' views.
pub open spec fn children_view(c: Option<Vec<TreeEntry>>) -> Option<Seq<TreeEntry>> {
    match c {
        Some(v) => Some(v@),
        None => None,
    }
}

/// The note that stands for a directory past the maximum depth.
pub open spec fn max_depth_note() -> Seq<char> {
    "... (max depth reached)"@
}

/// The JSON tree of a directory at `depth` whose listing is `listing`: past
/// the maximum depth the note as a string; otherwise the array of its entries
/// in listing order, skipped folders left out (empty for a directory that
/// could not be read).
pub open spec fn tree_json(listing: Option<Seq<TreeEntry>>, depth: nat, max: nat) -> Option<Seq<char>>
    decreases max + 1 - depth, 2int, 0int,
{
    if depth > max {
        Some(json_string_text(max_depth_note()))
    } else {
        match listing {
            None => json_raw_array_text(Seq::empty()),
            Some(s) => match items_json(s, 0, depth, max) {
                Some(items) => json_raw_array_text(items),
                None => None,
            },
        }
    }
}

/// The JSON objects of the entries from position `i` on that are not skipped.
pub open spec fn items_json(s: Seq<TreeEntry>, i: int, depth: nat, max: nat) -> Option<Seq<Seq<char>>>
    decreases max + 1 - depth, 1int, s.len() - i,
    when 0 <= i && depth <= max
{
    if i >= s.len() {
        Some(Seq::empty())
    } else if skipped_name(s[i].name@) {
        items_json(s, i + 1, depth, max)
    } else {
        match (entry_json(s[i], depth, max), items_json(s, i + 1, depth, max)) {
            (Some(a), Some(rest)) => Some(seq![a] + rest),
            _ => None,
        }
    }
}

/// One entry's JSON object: a directory with its name, its type and its own
/// tree one level down; a file with its name, its type and its size.
pub open spec fn entry_json(e: TreeEntry, depth: nat, max: nat) -> Option<Seq<char>>
    decreases max + 1 - depth, 0int, 0int,
    when depth <= max
{
    if e.is_dir {
        match tree_json(children_view(e.children), depth + 1, max) {
            Some(c) => json_raw_object_text(
                seq![
                    ("name"@, json_string_text(e.name@)),
                    ("type"@, json_string_text("directory"@)),
                    ("children"@, c),
                ],
            ),
            None => None,
        }
    } else {
        json_raw_object_text(
            seq![
                ("name"@, json_string_text(e.name@)),
                ("type"@, json_string_text("file"@)),
                ("size"@, decimal(e.size as nat)),
            ],
        )
    }
}

fn tree_json_exec(listing: Option<Vec<TreeEntry>>, depth: u64, max: u64) -> (r: Option<String>)
    ensures
        opt_view(r) == tree_json(children_view(listing), depth as nat, max as nat),
    decreases max + 1 - depth, 2int, 0int,
{
    if depth > max {
        return Some(json_string("... (max depth reached)"));
    }
    match listing {
        None => {
            let empty: Vec<String> = Vec::new();
            assert(strings_view(empty@) =~= Seq::<Seq<char>>::empty());
            json_raw_array(&empty)
        },
        Some(entries) => {
            let ghost s = entries@;
            let n = entries.len();
            assert(s.subrange(0, n as int) =~= s);
            match items_json_exec(entries, 0, depth, max, Ghost(s)) {
                Some(items) => json_raw_array(&items),
                None => None,
            }
        },
    }
}

fn items_json_exec(mut rest: Vec<TreeEntry>, i: usize, depth: u64, max: u64, Ghost(s): Ghost<Seq<TreeEntry>>) -> (r: Option<
    Vec<String>,
>)
    requires
        depth <= max,
        i <= s.len(),
        s.len() <= usize::MAX,
        rest@ == s.subrange(i as int, s.len() as int),
    ensures
        match r {
            Some(v) => items_json(s, i as int, depth as nat, max as nat) == Some(strings_view(v@)),
            None => items_json(s, i as int, depth as nat, max as nat) is None,
        },
    decreases max + 1 - depth, 1int, s.len() - i,
{
    if rest.len() == 0 {
        let v: Vec<String> = Vec::new();
        assert(strings_view(v@) =~= Seq::<Seq<char>>::empty());
        return Some(v);
    }
    let e = rest.remove(0);
    assert(e == s[i as int]);
    assert(rest@ =~= s.subrange(i + 1, s.len() as int));
    if is_skipped(e.name.as_str()) {
        return items_json_exec(rest, i + 1, depth, max, Ghost(s));
    }
    let a = match entry_json_exec(e, depth, max) {
        Some(a) => a,
        None => {
            return None;
        },
    };
    let mut tail = match items_json_exec(rest, i + 1, depth, max, Ghost(s)) {
        Some(t) => t,
        None => {
            return None;
        },
    };
    let ghost before = strings_view(tail@);
    let ghost av = a@;
    tail.insert(0, a);
    assert(strings_view(tail@) =~= seq![av] + before);
    Some(tail)
}

fn entry_json_exec(e: TreeEntry, depth: u64, max: u64) -> (r: Option<String>)
    requires
        depth <= max,
    ensures
        opt_view(r) == entry_json(e, depth as nat, max as nat),
    decreases max + 1 - depth, 0int, 0int,
{
    let name = json_string(e.name.as_str());
    let mut fields: Vec<(String, String)> = Vec::new();
    fields.push(("name".to_owned(), name));
    if e.is_dir {
        let c = if depth < max {
            tree_json_exec(e.children, depth + 1, max)
        } else {
            // the children are past the deepest level given
            assert(tree_json(children_view(e.children), (depth + 1) as nat, max as nat) == Some(
                json_string_text(max_depth_note()),
            ));
            Some(json_string("... (max depth reached)"))
        };
        let c = match c {
            Some(c) => c,
            None => {
                return None;
            },
        };
        fields.push(("type".to_owned(), json_string("directory")));
        fields.push(("children".to_owned(), c));
        assert(field_views(fields@) =~= seq![
            ("name"@, json_string_text(e.name@)),
            ("type"@, json_string_text("directory"@)),
            ("children"@, fields@[2].1@),
        ]);
        json_raw_object(&fields)
    } else {
        fields.push(("type".to_owned(), json_string("file")));
        fields.push(("size".to_owned(), decimal_string(e.size)));
        assert(field_views(fields@) =~= seq![
            ("name"@, json_string_text(e.name@)),
            ("type"@, json_string_text("file"@)),
            ("size"@, decimal(e.size as nat)),
        ]);
        json_raw_object(&fields)
    }
}

/// What a `file_tree` call asks for: the directory, how deep to go, and
/// whether the tree is wanted as JSON.
#[derive(Debug)]
pub struct TreeRequest {
    pub path: String,
    pub max_depth: u64,
    pub json: bool,
}

/// The `path` argument, `.` by default.
pub open spec fn request_path(args: Seq<char>) -> Seq<char> {
    match str_field(args, "path"@) {
        Some(p) => p,
        None => "."@,
    }
}

/// The `max_depth` argument, 3 by default.
pub open spec fn request_depth(args: Seq<char>) -> u64 {
    match json_field_of(args, "max_depth"@) {
        JsonFieldView::Present(v) => match v.as_u64 {
            Some(n) => n,
            None => 3,
        },
        _ => 3,
    }
}

impl FileTreeTool {
    pub fn name(&self) -> (n: &'static str)
        ensures
            n@ == "file_tree"@,
    {
        "file_tree"
    }

    pub fn description(&self) -> (d: &'static str)
        ensures
            d@ == "Recursively list files and directories in the workspace."@,
    {
        "Recursively list files and directories in the workspace."
    }

    /// Draws the tree of the directory at `path` as text: a title line, then
    /// the directory's tree.
    pub fn text_tree(path: &str, listing: Option<Vec<TreeEntry>>, max_depth: u64) -> (s: String)
        ensures
            s@ == "File Tree for: "@ + path@ + "\n"@ + render(
                match listing { Some(v) => Some(v@), None => None },
                Seq::empty(),
                0,
                max_depth as nat,
            ),
    {
        let head = concat("File Tree for: ", path);
        let mut out = concat(head.as_str(), "\n");
        proof {
            reveal_strlit("");
            assert(""@ =~= Seq::<char>::empty());
        }
        render_tree(listing, "", 0, max_depth, &mut out);
        out
    }

    /// The arguments of a call: the directory (`.` by default), the depth (3
    /// by default), and whether `format` asks for JSON (text by default).
    pub fn request(args: &str) -> (r: TreeRequest)
        ensures
            r.path@ == request_path(args@),
            r.max_depth == request_depth(args@),
            r.json == (str_field(args@, "format"@) == Some("json"@)),
    {
        let path = match json_str_field(args, "path") {
            Some(p) => p,
            None => ".".to_owned(),
        };
        let max_depth = match json_field(args, "max_depth") {
            JsonField::Present(v) => match v.as_u64 {
                Some(n) => n,
                None => 3,
            },
            _ => 3,
        };
        let json = match json_str_field(args, "format") {
            Some(f) => str_eq(f.as_str(), "json"),
            None => false,
        };
        TreeRequest { path, max_depth, json }
    }

    /// The JSON tree of a directory, pretty-printed: each level's entries in
    /// listing order, skipped folders left out, a note past `max_depth`.
    pub fn json_tree(listing: Option<Vec<TreeEntry>>, max_depth: u64) -> (r: Option<String>)
        ensures
            match tree_json(children_view(listing), 0, max_depth as nat) {
                Some(t) => opt_view(r) == json_pretty_text(t),
                None => r is None,
            },
    {
        match tree_json_exec(listing, 0, max_depth) {
            Some(t) => json_pretty(t.as_str()),
            None => None,
        }
    }

    /// One level of the JSON tree of a directory at `depth`.
    pub fn json_level(listing: Option<Vec<TreeEntry>>, depth: u64, max_depth: u64) -> (l: JsonLevel)
        ensures
            depth > max_depth ==> l is MaxDepth,
            depth <= max_depth ==> match l {
                JsonLevel::Entries(v) => v@ == match listing {
                    Some(x) => unskipped(x@),
                    None => Seq::empty(),
                },
                JsonLevel::MaxDepth => false,
            },
    {
        if depth > max_depth {
            return JsonLevel::MaxDepth;
        }
        match listing {
            None => JsonLevel::Entries(Vec::new()),
            Some(mut entries) => {
                let ghost all = entries@;
                let mut kept: Vec<TreeEntry> = Vec::new();
                let ghost mut i: int = 0;
                assert(all.subrange(0, 0) =~= Seq::<TreeEntry>::empty());
                assert(all.subrange(0, all.len() as int) =~= all);
                while entries.len() > 0
                    invariant
                        0 <= i <= all.len(),
                        entries@ == all.subrange(i, all.len() as int),
                        kept@ == unskipped(all.subrange(0, i)),
                    decreases entries@.len(),
                {
                    let e = entries.remove(0);
                    assert(e == all[i]);
                    proof {
                        assert(all.subrange(0, i + 1).drop_last() =~= all.subrange(0, i));
                        assert(all.subrange(0, i + 1).last() == e);
                    }
                    if !is_skipped(e.name.as_str()) {
                        kept.push(e);
                    }
                    proof {
                        i = i + 1;
                        assert(entries@ =~= all.subrange(i, all.len() as int));
                    }
                }
                JsonLevel::Entries(kept)
            },
        }
    }
}

/// No entry of `s` sorts strictly before an entry that comes before it.
pub open spec fn in_name_order(s: Seq<TreeEntry>) -> bool {
    forall|i: int, j: int|
        0 <= i < j < s.len() ==> !name_lt(#[trigger] s[j].name@, #[trigger] s[i].name@)
}

proof fn lemma_name_lt_irreflexive(a: Seq<char>)
    ensures
        !name_lt(a, a),
    decreases a.len(),
{
    if a.len() > 0 {
        lemma_name_lt_irreflexive(a.drop_first());
    }
}

proof fn lemma_name_lt_transitive(a: Seq<char>, b: Seq<char>, c: Seq<char>)
    requires
        name_lt(a, b),
        name_lt(b, c),
    ensures
        name_lt(a, c),
    decreases a.len(),
{
    if a.len() > 0 && a[0] == b[0] && b[0] == c[0] {
        lemma_name_lt_transitive(a.drop_first(), b.drop_first(), c.drop_first());
    }
}

proof fn lemma_insert_pos(s: Seq<TreeEntry>, e: TreeEntry)
    ensures
        0 <= insert_pos(s, e) <= s.len(),
        forall|k: int| 0 <= k < insert_pos(s, e) ==> !name_lt(e.name@, #[trigger] s[k].name@),
        insert_pos(s, e) < s.len() ==> name_lt(e.name@, s[insert_pos(s, e)].name@),
    decreases s.len(),
{
    if s.len() > 0 && !name_lt(e.name@, s[0].name@) {
        let t = s.drop_first();
        lemma_insert_pos(t, e);
        assert forall|k: int| 0 <= k < insert_pos(s, e) implies !name_lt(e.name@, #[trigger] s[k].name@) by {
            if k > 0 {
                assert(s[k] == t[k - 1]);
            }
        }
        if insert_pos(s, e) < s.len() {
            assert(s[insert_pos(s, e)] == t[insert_pos(t, e)]);
        }
    }
}

proof fn lemma_insert_keeps_order(s: Seq<TreeEntry>, e: TreeEntry)
    requires
        in_name_order(s),
    ensures
        in_name_order(s.insert(insert_pos(s, e), e)),
{
    lemma_insert_pos(s, e);
    let p = insert_pos(s, e);
    let t = s.insert(p, e);
    assert forall|i: int, j: int| 0 <= i < j < t.len() implies !name_lt(#[trigger] t[j].name@, #[trigger] t[i].name@) by {
        if j < p {
            assert(t[i] == s[i] && t[j] == s[j]);
        } else if j == p {
            assert(t[i] == s[i] && t[j] == e);
        } else if i < p {
            assert(t[i] == s[i] && t[j] == s[j - 1]);
        } else if i == p {
            assert(t[i] == e && t[j] == s[j - 1]);
            if name_lt(s[j - 1].name@, e.name@) {
                if j - 1 == p {
                    lemma_name_lt_transitive(s[p].name@, e.name@, s[p].name@);
                    lemma_name_lt_irreflexive(s[p].name@);
                } else {
                    lemma_name_lt_transitive(s[j - 1].name@, e.name@, s[p].name@);
                }
            }
        } else {
            assert(t[i] == s[i - 1] && t[j] == s[j - 1]);
        }
    }
}

/// A directory's entries are drawn in name order, each of them exactly once:
/// `by_name` gives back the same entries, none of which sorts strictly before
/// one drawn ahead of it.
pub proof fn lemma_by_name_sorted(s: Seq<TreeEntry>)
    ensures
        by_name(s).len() == s.len(),
        by_name(s).to_multiset() == s.to_multiset(),
        in_name_order(by_name(s)),
    decreases s.len(),
{
    if s.len() > 0 {
        let rest = s.drop_last();
        let t = by_name(rest);
        lemma_by_name_sorted(rest);
        lemma_insert_pos(t, s.last());
        lemma_insert_keeps_order(t, s.last());
        vstd::seq_lib::to_multiset_insert(t, insert_pos(t, s.last()), s.last());
        vstd::seq_lib::to_multiset_build(rest, s.last());
        assert(rest.push(s.last()) =~= s);
    } else {
        assert(by_name(s) == s);
    }
}

} // verus!
