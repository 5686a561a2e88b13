//! Permission policy: which file writes and shell commands a tool invocation may perform.

use vstd::prelude::*;
use crate::text::{concat, is_infix, str_contains, to_chars};

verus! {

/// Permission levels for tool execution.
#[derive(Debug, Clone, Copy, PartialEq, Eq, Structural)]
pub enum Permission {
    /// Can read files, run non-destructive commands.
    ReadOnly,
    /// Can write files within workspace boundaries.
    WriteWorkspace,
    /// Full access: bash, network, filesystem.
    Full,
}

/// Outcome of a permission check.
#[derive(Debug, Clone)]
pub enum PermissionVerdict {
    Allowed,
    Denied(String),
}

// ───────────────────────── path components ─────────────────────────

/// The pieces of `s` between `/` separators; there is always at least one.
pub open spec fn split_pieces(s: Seq<char>) -> Seq<Seq<char>>
    decreases s.len(),
{
    if s.len() == 0 {
        seq![Seq::<char>::empty()]
    } else {
        let p = split_pieces(s.drop_last());
        if s.last() == '/' {
            p.push(Seq::<char>::empty())
        } else {
            p.update(p.len() - 1, p.last().push(s.last()))
        }
    }
}

/// A piece that names a component: not empty and not the current directory.
pub open spec fn keeps_piece(p: Seq<char>) -> bool {
    p.len() > 0 && p != seq!['.']
}

/// The pieces that name components, in order.
pub open spec fn kept_pieces(ps: Seq<Seq<char>>) -> Seq<Seq<char>>
    decreases ps.len(),
{
    if ps.len() == 0 {
        Seq::empty()
    } else {
        let k = kept_pieces(ps.drop_last());
        if keeps_piece(ps.last()) {
            k.push(ps.last())
        } else {
            k
        }
    }
}

/// The components of a Unix path as `std::path::Path::components` yields them:
/// a leading `/` is the root component, a leading `.` piece is the current
/// directory, and elsewhere empty pieces (repeated or trailing separators) and
/// `.` pieces are dropped.
pub open spec fn path_components(s: Seq<char>) -> Seq<Seq<char>> {
    let ps = split_pieces(s);
    if s.len() == 0 {
        Seq::empty()
    } else if s[0] == '/' {
        seq![seq!['/']] + kept_pieces(ps.drop_first())
    } else if ps[0] == seq!['.'] {
        seq![seq!['.']] + kept_pieces(ps.drop_first())
    } else {
        kept_pieces(ps)
    }
}

/// `path` starts with `base`, comparing whole components only.
pub open spec fn path_starts_with(path: Seq<char>, base: Seq<char>) -> bool {
    path_components(base).is_prefix_of(path_components(path))
}

/// The character views of a vector of character vectors.
pub open spec fn char_views(v: Seq<Vec<char>>) -> Seq<Seq<char>> {
    Seq::new(v.len(), |i: int| v[i]@)
}

proof fn lemma_split_pieces_nonempty(s: Seq<char>)
    ensures
        split_pieces(s).len() >= 1,
    decreases s.len(),
{
    if s.len() > 0 {
        lemma_split_pieces_nonempty(s.drop_last());
    }
}

/// Splits `cs` at every `/`.
fn split_at_separators(cs: &Vec<char>) -> (r: Vec<Vec<char>>)
    ensures
        char_views(r@) == split_pieces(cs@),
{
    let n = cs.len();
    let mut done: Vec<Vec<char>> = Vec::new();
    let mut cur: Vec<char> = Vec::new();
    let mut i: usize = 0;
    assert(cs@.take(0) =~= Seq::<char>::empty());
    while i < n
        invariant
            n == cs@.len(),
            i <= n,
            char_views(done@).push(cur@) == split_pieces(cs@.take(i as int)),
        decreases n - i,
    {
        let c = cs[i];
        proof {
            assert(cs@.take(i + 1).drop_last() =~= cs@.take(i as int));
            assert(cs@.take(i + 1).last() == c);
            lemma_split_pieces_nonempty(cs@.take(i as int));
        }
        if c == '/' {
            let old_cur = cur;
            done.push(old_cur);
            cur = Vec::new();
            assert(char_views(done@).push(cur@) =~= split_pieces(cs@.take(i + 1)));
        } else {
            let ghost prev = split_pieces(cs@.take(i as int));
            cur.push(c);
            assert(char_views(done@).push(cur@) =~= prev.update(prev.len() - 1, prev.last().push(c)));
        }
        i = i + 1;
    }
    assert(cs@.take(n as int) =~= cs@);
    done.push(cur);
    assert(char_views(done@) =~= split_pieces(cs@));
    done
}

fn keeps_piece_exec(p: &Vec<char>) -> (b: bool)
    ensures
        b == keeps_piece(p@),
{
    if p.len() == 0 {
        false
    } else if p.len() == 1 && p[0] == '.' {
        assert(p@ =~= seq!['.']);
        false
    } else {
        assert(p@.len() != 1 ==> p@ != seq!['.']);
        assert(p@.len() == 1 ==> p@[0] != '.');
        true
    }
}

/// The pieces from position `start` on that name components.
fn kept_from(ps: &Vec<Vec<char>>, start: usize) -> (r: Vec<Vec<char>>)
    requires
        start <= ps@.len(),
    ensures
        char_views(r@) == kept_pieces(char_views(ps@).subrange(start as int, ps@.len() as int)),
{
    let n = ps.len();
    let mut r: Vec<Vec<char>> = Vec::new();
    let mut j: usize = start;
    assert(char_views(ps@).subrange(start as int, start as int) =~= Seq::<Seq<char>>::empty());
    while j < n
        invariant
            n == ps@.len(),
            start <= j <= n,
            char_views(r@) == kept_pieces(char_views(ps@).subrange(start as int, j as int)),
        decreases n - j,
    {
        let ghost sub = char_views(ps@).subrange(start as int, j + 1);
        assert(sub.drop_last() =~= char_views(ps@).subrange(start as int, j as int));
        assert(sub.last() == ps@[j as int]@);
        if keeps_piece_exec(&ps[j]) {
            r.push(ps[j].clone());
            assert(char_views(r@) =~= kept_pieces(char_views(ps@).subrange(start as int, j as int)).push(ps@[j as int]@));
        }
        j = j + 1;
    }
    assert(char_views(ps@).subrange(start as int, n as int) =~= char_views(ps@).subrange(start as int, ps@.len() as int));
    r
}

/// The components of the path `s`.
pub fn path_components_of(s: &str) -> (r: Vec<Vec<char>>)
    ensures
        char_views(r@) == path_components(s@),
{
    let cs = to_chars(s);
    let ps = split_at_separators(&cs);
    proof {
        lemma_split_pieces_nonempty(cs@);
    }
    assert(char_views(ps@).subrange(1, ps@.len() as int) =~= char_views(ps@).drop_first());
    assert(char_views(ps@).subrange(0, ps@.len() as int) =~= char_views(ps@));
    if cs.len() == 0 {
        let r: Vec<Vec<char>> = Vec::new();
        assert(char_views(r@) =~= Seq::<Seq<char>>::empty());
        r
    } else if cs[0] == '/' {
        let mut r: Vec<Vec<char>> = Vec::new();
        let mut root: Vec<char> = Vec::new();
        root.push('/');
        r.push(root);
        let rest = kept_from(&ps, 1);
        let mut k: usize = 0;
        while k < rest.len()
            invariant
                r@.len() == 1 + k,
                k <= rest@.len(),
                r@[0]@ == seq!['/'],
                forall|m: int| 0 <= m < k ==> #[trigger] r@[1 + m]@ == rest@[m]@,
            decreases rest@.len() - k,
        {
            r.push(rest[k].clone());
            k = k + 1;
        }
        assert forall|m: int| 0 <= m < char_views(r@).len()
            implies #[trigger] char_views(r@)[m] == (seq![seq!['/']] + char_views(rest@))[m] by {
            if m > 0 {
                assert(r@[1 + (m - 1)]@ == rest@[m - 1]@);
            }
        }
        assert(char_views(r@) =~= seq![seq!['/']] + char_views(rest@));
        r
    } else if ps[0].len() == 1 && ps[0][0] == '.' {
        assert(ps@[0]@ =~= seq!['.']);
        let mut r: Vec<Vec<char>> = Vec::new();
        let mut cur_dir: Vec<char> = Vec::new();
        cur_dir.push('.');
        r.push(cur_dir);
        let rest = kept_from(&ps, 1);
        let mut k: usize = 0;
        while k < rest.len()
            invariant
                r@.len() == 1 + k,
                k <= rest@.len(),
                r@[0]@ == seq!['.'],
                forall|m: int| 0 <= m < k ==> #[trigger] r@[1 + m]@ == rest@[m]@,
            decreases rest@.len() - k,
        {
            r.push(rest[k].clone());
            k = k + 1;
        }
        assert forall|m: int| 0 <= m < char_views(r@).len()
            implies #[trigger] char_views(r@)[m] == (seq![seq!['.']] + char_views(rest@))[m] by {
            if m > 0 {
                assert(r@[1 + (m - 1)]@ == rest@[m - 1]@);
            }
        }
        assert(char_views(r@) =~= seq![seq!['.']] + char_views(rest@));
        r
    } else {
        assert(ps@[0]@.len() != 1 ==> ps@[0]@ != seq!['.']);
        assert(ps@[0]@.len() == 1 ==> ps@[0]@[0] != '.');
        kept_from(&ps, 0)
    }
}

fn chars_equal(a: &Vec<char>, b: &Vec<char>) -> (r: bool)
    ensures
        r == (a@ == b@),
{
    if a.len() != b.len() {
        return false;
    }
    let n = a.len();
    let mut i: usize = 0;
    while i < n
        invariant
            n == a@.len(),
            n == b@.len(),
            i <= n,
            forall|k: int| 0 <= k < i ==> a@[k] == b@[k],
        decreases n - i,
    {
        if a[i] != b[i] {
            return false;
        }
        i = i + 1;
    }
    assert(a@ =~= b@);
    true
}

/// Whether the path `path` starts with the path `base`, component by component.
pub fn path_starts_with_exec(path: &str, base: &str) -> (r: bool)
    ensures
        r == path_starts_with(path@, base@),
{
    let pc = path_components_of(path);
    let bc = path_components_of(base);
    if bc.len() > pc.len() {
        return false;
    }
    let n = bc.len();
    let mut i: usize = 0;
    while i < n
        invariant
            n == bc@.len(),
            n <= pc@.len(),
            char_views(pc@) == path_components(path@),
            char_views(bc@) == path_components(base@),
            i <= n,
            forall|k: int| 0 <= k < i ==> bc@[k]@ == pc@[k]@,
        decreases n - i,
    {
        if !chars_equal(&bc[i], &pc[i]) {
            assert(char_views(bc@)[i as int] != char_views(pc@).subrange(0, n as int)[i as int]);
            return false;
        }
        i = i + 1;
    }
    assert(char_views(bc@) =~= char_views(pc@).subrange(0, n as int));
    true
}

// ───────────────────────── the policy ─────────────────────────

/// Lowercase form of a string, as `str::to_lowercase` computes it.
pub uninterp spec fn lowercase_of(s: Seq<char>) -> Seq<char>;

/// Calls `str::to_lowercase`. The contract claims only that its result is a
/// function of the argument's characters, named `lowercase_of`; the Unicode
/// case tables it applies are not stated.
#[verifier::external_body]
pub(crate) fn to_lowercase(s: &str) -> (r: String)
    ensures
        r@ == lowercase_of(s@),
{
    s.to_lowercase()
}

/// The command, already lowercased, contains one of the destructive patterns.
pub open spec fn has_destructive_pattern(lower: Seq<char>) -> bool {
    ||| is_infix("rm "@, lower)
    ||| is_infix("rm -"@, lower)
    ||| is_infix("rmdir"@, lower)
    ||| is_infix("chmod"@, lower)
    ||| is_infix("chown"@, lower)
    ||| is_infix("sudo"@, lower)
    ||| is_infix("mkfs"@, lower)
    ||| is_infix("dd "@, lower)
    ||| is_infix("shutdown"@, lower)
    ||| is_infix("reboot"@, lower)
    ||| is_infix("kill -9"@, lower)
    ||| is_infix("> /dev/"@, lower)
    ||| is_infix("format "@, lower)
}

/// A command is destructive when its lowercase form holds a destructive pattern.
pub open spec fn is_destructive(cmd: Seq<char>) -> bool {
    has_destructive_pattern(lowercase_of(cmd))
}

/// Checks an already lowercased command for the destructive patterns.
pub fn contains_destructive_pattern(lower: &str) -> (b: bool)
    ensures
        b == has_destructive_pattern(lower@),
{
    str_contains(lower, "rm ") || str_contains(lower, "rm -") || str_contains(lower, "rmdir")
        || str_contains(lower, "chmod") || str_contains(lower, "chown") || str_contains(lower, "sudo")
        || str_contains(lower, "mkfs") || str_contains(lower, "dd ") || str_contains(lower, "shutdown")
        || str_contains(lower, "reboot") || str_contains(lower, "kill -9")
        || str_contains(lower, "> /dev/") || str_contains(lower, "format ")
}

/// Policy engine that decides whether a tool invocation is allowed.
pub struct PermissionPolicy {
    level: Permission,
    workspace_root: String,
}

/// What `can_write` decides for a policy level, workspace root and path.
pub open spec fn write_allowed(level: Permission, root: Seq<char>, path: Seq<char>) -> bool {
    match level {
        Permission::ReadOnly => false,
        Permission::WriteWorkspace => !is_infix(".."@, path) && path_starts_with(path, root),
        Permission::Full => true,
    }
}

/// The message of a verdict that refuses a destructive command.
pub open spec fn destructive_message(cmd: Seq<char>) -> Seq<char> {
    "Destructive command blocked: '"@ + cmd + "'. Requires Full permission."@
}

/// The verdict `check_bash` gives, as the message it carries (`None` for allowed).
pub open spec fn bash_denial(level: Permission, cmd: Seq<char>) -> Option<Seq<char>> {
    if level != Permission::Full && is_destructive(cmd) {
        Some(destructive_message(cmd))
    } else {
        None
    }
}

/// The message a verdict carries, `None` when it allows.
pub open spec fn verdict_denial(v: PermissionVerdict) -> Option<Seq<char>> {
    match v {
        PermissionVerdict::Allowed => None,
        PermissionVerdict::Denied(m) => Some(m@),
    }
}

impl PermissionPolicy {
    /// The policy's level.
    pub closed spec fn level(&self) -> Permission {
        self.level
    }

    /// The policy's workspace root.
    pub closed spec fn root(&self) -> Seq<char> {
        self.workspace_root@
    }

    pub fn new(level: Permission, workspace_root: &str) -> (p: Self)
        ensures
            p.level() == level,
            p.root() == workspace_root@,
    {
        PermissionPolicy { level, workspace_root: workspace_root.to_owned() }
    }

    pub fn full() -> (p: Self)
        ensures
            p.level() == Permission::Full,
            p.root() == "."@,
    {
        Self::new(Permission::Full, ".")
    }

    /// The policy's level, for callers outside the library.
    pub fn level_exec(&self) -> (l: Permission)
        ensures
            l == self.level(),
    {
        self.level
    }

    /// Check if a file write is allowed under current policy.
    pub fn can_write(&self, path: &str) -> (b: bool)
        ensures
            b == write_allowed(self.level(), self.root(), path@),
    {
        match self.level {
            Permission::ReadOnly => false,
            Permission::WriteWorkspace => {
                // Block obvious traversal attacks
                if str_contains(path, "..") {
                    return false;
                }
                path_starts_with_exec(path, self.workspace_root.as_str())
            },
            Permission::Full => true,
        }
    }

    /// Check if bash execution is allowed: at every level, read-only for
    /// non-destructive commands only (see `check_bash`).
    pub fn can_exec_bash(&self) -> (b: bool)
        ensures
            b,
    {
        true
    }

    /// Check if a command is destructive (rm, chmod, sudo, etc.)
    pub fn is_destructive_command(cmd: &str) -> (b: bool)
        ensures
            b == is_destructive(cmd@),
    {
        let lower = to_lowercase(cmd);
        contains_destructive_pattern(lower.as_str())
    }

    /// Full permission check for a bash command.
    pub fn check_bash(&self, cmd: &str) -> (v: PermissionVerdict)
        ensures
            verdict_denial(v) == bash_denial(self.level(), cmd@),
    {
        if self.level != Permission::Full && Self::is_destructive_command(cmd) {
            let head = concat("Destructive command blocked: '", cmd);
            let msg = concat(head.as_str(), "'. Requires Full permission.");
            return PermissionVerdict::Denied(msg);
        }
        PermissionVerdict::Allowed
    }
}

/// The level a command-line permission name selects: `readonly`,
/// `workspace`, and anything else for full access.
pub open spec fn level_named(name: Seq<char>) -> Permission {
    if name == "readonly"@ {
        Permission::ReadOnly
    } else if name == "workspace"@ {
        Permission::WriteWorkspace
    } else {
        Permission::Full
    }
}

impl Permission {
    /// The level a command-line permission name selects.
    pub fn from_name(name: &str) -> (p: Permission)
        ensures
            p == level_named(name@),
    {
        if crate::text::str_eq(name, "readonly") {
            Permission::ReadOnly
        } else if crate::text::str_eq(name, "workspace") {
            Permission::WriteWorkspace
        } else {
            Permission::Full
        }
    }
}

} // verus!
