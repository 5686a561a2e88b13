//! Agent discovery: the agents, squads and MCP servers found in an agents folder.

use vstd::prelude::*;
use crate::keyed::{
    keyed_map, keys_of, lemma_keyed_map_domain, lemma_keyed_map_update, lemma_keyed_map_value,
    lemma_keyed_push_unique, unique_keys,
};
use crate::squad::{Squad, SquadView};
use crate::text::{clone_strings, str_eq, strings_view, to_chars};

verus! {

/// An MCP server that agents may call.
#[derive(Debug)]
pub struct McpConfig {
    pub name: String,
    pub command: String,
    pub args: Vec<String>,
}

pub struct McpConfigView {
    pub name: Seq<char>,
    pub command: Seq<char>,
    pub args: Seq<Seq<char>>,
}

impl View for McpConfig {
    type V = McpConfigView;

    open spec fn view(&self) -> McpConfigView {
        McpConfigView { name: self.name@, command: self.command@, args: strings_view(self.args@) }
    }
}

impl McpConfig {
    /// A copy of this configuration.
    pub fn copy(&self) -> (r: Self)
        ensures
            r@ == self@,
    {
        McpConfig { name: self.name.clone(), command: self.command.clone(), args: clone_strings(&self.args) }
    }
}

/// The views of a sequence of MCP configurations.
pub open spec fn mcp_views(v: Seq<McpConfig>) -> Seq<McpConfigView> {
    Seq::new(v.len(), |i: int| v[i]@)
}

/// A copy of a vector of MCP configurations.
pub fn copy_mcps(v: &Vec<McpConfig>) -> (r: Vec<McpConfig>)
    ensures
        mcp_views(r@) == mcp_views(v@),
{
    let mut r: Vec<McpConfig> = Vec::new();
    let mut i: usize = 0;
    while i < v.len()
        invariant
            i <= v@.len(),
            r@.len() == i,
            forall|k: int| 0 <= k < i ==> #[trigger] r@[k]@ == v@[k]@,
        decreases v@.len() - i,
    {
        r.push(v[i].copy());
        i = i + 1;
    }
    assert(mcp_views(r@) =~= mcp_views(v@));
    r
}

/// The configuration of one agent role. `discovered_scripts` holds the paths
/// of the scripts found in the agent's `tools` folder.
#[derive(Debug)]
pub struct AgentConfig {
    pub role: String,
    pub specialization: String,
    pub tools: Vec<String>,
    pub mcp_servers: Option<Vec<McpConfig>>,
    pub discovered_scripts: Vec<String>,
}

pub struct AgentConfigView {
    pub role: Seq<char>,
    pub specialization: Seq<char>,
    pub tools: Seq<Seq<char>>,
    pub mcp_servers: Option<Seq<McpConfigView>>,
    pub discovered_scripts: Seq<Seq<char>>,
}

impl View for AgentConfig {
    type V = AgentConfigView;

    open spec fn view(&self) -> AgentConfigView {
        AgentConfigView {
            role: self.role@,
            specialization: self.specialization@,
            tools: strings_view(self.tools@),
            mcp_servers: match self.mcp_servers {
                Some(v) => Some(mcp_views(v@)),
                None => None,
            },
            discovered_scripts: strings_view(self.discovered_scripts@),
        }
    }
}

impl AgentConfig {
    /// A copy of this configuration.
    pub fn copy(&self) -> (r: Self)
        ensures
            r@ == self@,
    {
        AgentConfig {
            role: self.role.clone(),
            specialization: self.specialization.clone(),
            tools: clone_strings(&self.tools),
            mcp_servers: match &self.mcp_servers {
                Some(v) => Some(copy_mcps(v)),
                None => None,
            },
            discovered_scripts: clone_strings(&self.discovered_scripts),
        }
    }
}

/// A file found in an agent's `tools` folder: its full path and its file name.
pub struct ToolFile {
    pub path: String,
    pub name: String,
}

/// One agent folder: its parsed configuration (`None` where the configuration
/// file did not parse) and the files of its `tools` folder.
pub struct AgentDirListing {
    pub config: Option<AgentConfig>,
    pub tool_files: Vec<ToolFile>,
}

/// What a scan of the agents folder read: the agent folders that hold a
/// configuration file, and each JSON file of the `squads` folder (`None` where
/// it did not parse).
pub struct FolderListing {
    pub agent_dirs: Vec<AgentDirListing>,
    pub squads: Vec<Option<Squad>>,
}

// ───────────────────────── specification ─────────────────────────

/// Position of the last `.` in `name`, or -1.
pub open spec fn last_dot(name: Seq<char>) -> int
    decreases name.len(),
{
    if name.len() == 0 {
        -1
    } else if name.last() == '.' {
        name.len() - 1
    } else {
        last_dot(name.drop_last())
    }
}

/// The extension of a file name as `Path::extension` gives it: what follows the
/// last `.`, where that dot is not the first character.
pub open spec fn extension(name: Seq<char>) -> Option<Seq<char>> {
    let i = last_dot(name);
    if i <= 0 {
        None
    } else {
        Some(name.subrange(i + 1, name.len() as int))
    }
}

/// A tool file is a script when its extension is `sh`, `py` or `js`.
pub open spec fn is_script_name(name: Seq<char>) -> bool {
    match extension(name) {
        Some(e) => e == seq!['s', 'h'] || e == seq!['p', 'y'] || e == seq!['j', 's'],
        None => false,
    }
}

/// The paths of the script files, in order.
pub open spec fn scripts_of(files: Seq<ToolFile>) -> Seq<Seq<char>>
    decreases files.len(),
{
    if files.len() == 0 {
        Seq::empty()
    } else {
        let s = scripts_of(files.drop_last());
        if is_script_name(files.last().name@) {
            s.push(files.last().path@)
        } else {
            s
        }
    }
}

/// The configuration an agent folder contributes: its own, with the scripts
/// of its `tools` folder appended.
pub open spec fn loaded_config(d: AgentDirListing) -> Option<AgentConfigView> {
    match d.config {
        Some(c) => Some(
            AgentConfigView { discovered_scripts: c@.discovered_scripts + scripts_of(d.tool_files@), ..c@ },
        ),
        None => None,
    }
}

pub open spec fn role_key() -> spec_fn(AgentConfigView) -> Seq<char> {
    |c: AgentConfigView| c.role
}

pub open spec fn squad_key() -> spec_fn(SquadView) -> Seq<char> {
    |s: SquadView| s.name
}

pub open spec fn mcp_key() -> spec_fn(McpConfigView) -> Seq<char> {
    |m: McpConfigView| m.name
}

/// The configurations the folders contribute, in order.
pub open spec fn loaded_configs(dirs: Seq<AgentDirListing>) -> Seq<AgentConfigView>
    decreases dirs.len(),
{
    if dirs.len() == 0 {
        Seq::empty()
    } else {
        let s = loaded_configs(dirs.drop_last());
        match loaded_config(dirs.last()) {
            Some(c) => s.push(c),
            None => s,
        }
    }
}

/// The squads that parsed, in order.
pub open spec fn loaded_squads(files: Seq<Option<Squad>>) -> Seq<SquadView>
    decreases files.len(),
{
    if files.len() == 0 {
        Seq::empty()
    } else {
        let s = loaded_squads(files.drop_last());
        match files.last() {
            Some(q) => s.push(q@),
            None => s,
        }
    }
}

/// `acc` followed by each server of `list` whose name is not yet present.
pub open spec fn merge_mcps(acc: Seq<McpConfigView>, list: Seq<McpConfigView>) -> Seq<McpConfigView>
    decreases list.len(),
{
    if list.len() == 0 {
        acc
    } else {
        let a = merge_mcps(acc, list.drop_last());
        if keys_of(a, mcp_key()).contains(list.last().name) {
            a
        } else {
            a.push(list.last())
        }
    }
}

/// The MCP servers that the agent folders declare, first declaration of each name kept.
pub open spec fn global_mcps(dirs: Seq<AgentDirListing>) -> Seq<McpConfigView>
    decreases dirs.len(),
{
    if dirs.len() == 0 {
        Seq::empty()
    } else {
        let acc = global_mcps(dirs.drop_last());
        match dirs.last().config {
            Some(c) => match c.mcp_servers {
                Some(l) => merge_mcps(acc, mcp_views(l@)),
                None => acc,
            },
            None => acc,
        }
    }
}

/// Every MCP server the agent folders declare, in folder order, repeats included.
pub open spec fn declared_mcps(dirs: Seq<AgentDirListing>) -> Seq<McpConfigView>
    decreases dirs.len(),
{
    if dirs.len() == 0 {
        Seq::empty()
    } else {
        let acc = declared_mcps(dirs.drop_last());
        match dirs.last().config {
            Some(c) => match c.mcp_servers {
                Some(l) => acc + mcp_views(l@),
                None => acc,
            },
            None => acc,
        }
    }
}

proof fn lemma_merge_mcps(acc: Seq<McpConfigView>, list: Seq<McpConfigView>)
    ensures
        unique_keys(acc, mcp_key()) ==> unique_keys(merge_mcps(acc, list), mcp_key()),
        acc.len() <= merge_mcps(acc, list).len(),
        merge_mcps(acc, list).subrange(0, acc.len() as int) == acc,
        forall|k: int|
            0 <= k < list.len() ==> keys_of(merge_mcps(acc, list), mcp_key()).contains(#[trigger] list[k].name),
        forall|k: int|
            0 <= k < merge_mcps(acc, list).len() ==> acc.contains(#[trigger] merge_mcps(acc, list)[k]) || list.contains(
                merge_mcps(acc, list)[k],
            ),
    decreases list.len(),
{
    if list.len() > 0 {
        let front = list.drop_last();
        let x = list.last();
        let a = merge_mcps(acc, front);
        lemma_merge_mcps(acc, front);
        let r = merge_mcps(acc, list);
        if keys_of(a, mcp_key()).contains(x.name) {
            assert(r == a);
        } else {
            assert(r == a.push(x));
            if unique_keys(acc, mcp_key()) {
                assert forall|i: int, j: int| 0 <= i < r.len() && 0 <= j < r.len() && i != j implies mcp_key()(r[i])
                    != mcp_key()(r[j]) by {
                    if i == a.len() {
                        assert(keys_of(a, mcp_key())[j] == r[j].name);
                    } else if j == a.len() {
                        assert(keys_of(a, mcp_key())[i] == r[i].name);
                    }
                }
            }
            assert(r.subrange(0, acc.len() as int) =~= a.subrange(0, acc.len() as int));
        }
        assert forall|k: int| 0 <= k < list.len() implies keys_of(r, mcp_key()).contains(#[trigger] list[k].name) by {
            if k < front.len() {
                assert(front[k] == list[k]);
                assert(keys_of(a, mcp_key()).contains(front[k].name));
                let w = choose|w: int| 0 <= w < keys_of(a, mcp_key()).len() && keys_of(a, mcp_key())[w] == front[k].name;
                assert(keys_of(r, mcp_key())[w] == list[k].name);
            } else if r == a {
            } else {
                assert(keys_of(r, mcp_key())[a.len() as int] == list[k].name);
            }
        }
        assert forall|k: int| 0 <= k < r.len() implies acc.contains(#[trigger] r[k]) || list.contains(r[k]) by {
            if k < a.len() {
                assert(r[k] == a[k]);
                if front.contains(a[k]) {
                    let w = choose|w: int| 0 <= w < front.len() && front[w] == a[k];
                    assert(list[w] == a[k]);
                }
            } else {
                assert(list[list.len() - 1] == r[k]);
            }
        }
    }
}

/// The shared MCP servers a scan keeps carry distinct names; the name of every
/// server an agent folder declares is among them; and each of them is a server
/// that some folder declares.
pub proof fn lemma_global_mcps_distinct_and_complete(dirs: Seq<AgentDirListing>)
    ensures
        unique_keys(global_mcps(dirs), mcp_key()),
        forall|k: int|
            0 <= k < declared_mcps(dirs).len() ==> keys_of(global_mcps(dirs), mcp_key()).contains(
                #[trigger] declared_mcps(dirs)[k].name,
            ),
        forall|k: int| 0 <= k < global_mcps(dirs).len() ==> declared_mcps(dirs).contains(#[trigger] global_mcps(dirs)[k]),
    decreases dirs.len(),
{
    if dirs.len() > 0 {
        let front = dirs.drop_last();
        lemma_global_mcps_distinct_and_complete(front);
        let g0 = global_mcps(front);
        let d0 = declared_mcps(front);
        match dirs.last().config {
            Some(c) => match c.mcp_servers {
                Some(l) => {
                    let lv = mcp_views(l@);
                    let g = merge_mcps(g0, lv);
                    let d = d0 + lv;
                    lemma_merge_mcps(g0, lv);
                    assert(global_mcps(dirs) == g);
                    assert(declared_mcps(dirs) == d);
                    assert forall|k: int| 0 <= k < d.len() implies keys_of(g, mcp_key()).contains(#[trigger] d[k].name) by {
                        if k < d0.len() {
                            assert(d[k] == d0[k]);
                            assert(keys_of(g0, mcp_key()).contains(d0[k].name));
                            let w = choose|w: int| 0 <= w < keys_of(g0, mcp_key()).len() && keys_of(g0, mcp_key())[w] == d0[k].name;
                            assert(g.subrange(0, g0.len() as int)[w] == g0[w]);
                            assert(keys_of(g, mcp_key())[w] == d0[k].name);
                        } else {
                            assert(d[k] == lv[k - d0.len()]);
                        }
                    }
                    assert forall|k: int| 0 <= k < g.len() implies d.contains(#[trigger] g[k]) by {
                        if g0.contains(g[k]) {
                            let w = choose|w: int| 0 <= w < g0.len() && g0[w] == g[k];
                            assert(d0.contains(g0[w]));
                            let v = choose|v: int| 0 <= v < d0.len() && d0[v] == g0[w];
                            assert(d[v] == g[k]);
                        } else {
                            let w = choose|w: int| 0 <= w < lv.len() && lv[w] == g[k];
                            assert(d[d0.len() + w] == g[k]);
                        }
                    }
                },
                None => {},
            },
            None => {},
        }
    }
}

/// Central registry of agent roles, squads and shared MCP servers.
pub struct AgentRegistry {
    agents: Vec<AgentConfig>,
    squads: Vec<Squad>,
    global_mcp_servers: Vec<McpConfig>,
}

pub open spec fn config_views(v: Seq<AgentConfig>) -> Seq<AgentConfigView> {
    Seq::new(v.len(), |i: int| v[i]@)
}

pub open spec fn squad_views(v: Seq<Squad>) -> Seq<SquadView> {
    Seq::new(v.len(), |i: int| v[i]@)
}

impl AgentRegistry {
    #[verifier::type_invariant]
    spec fn inv(self) -> bool {
        &&& unique_keys(config_views(self.agents@), role_key())
        &&& unique_keys(squad_views(self.squads@), squad_key())
    }

    /// The agent configurations by role.
    pub closed spec fn agents(&self) -> Map<Seq<char>, AgentConfigView> {
        keyed_map(config_views(self.agents@), role_key())
    }

    /// The squads by name.
    pub closed spec fn squads(&self) -> Map<Seq<char>, SquadView> {
        keyed_map(squad_views(self.squads@), squad_key())
    }

    /// The MCP servers shared by all agents.
    pub closed spec fn global_mcp_servers(&self) -> Seq<McpConfigView> {
        mcp_views(self.global_mcp_servers@)
    }

    pub fn new() -> (r: Self)
        ensures
            r.agents() == Map::<Seq<char>, AgentConfigView>::empty(),
            r.squads() == Map::<Seq<char>, SquadView>::empty(),
            r.global_mcp_servers() == Seq::<McpConfigView>::empty(),
    {
        let r = AgentRegistry { agents: Vec::new(), squads: Vec::new(), global_mcp_servers: Vec::new() };
        assert(config_views(r.agents@) =~= Seq::<AgentConfigView>::empty());
        assert(squad_views(r.squads@) =~= Seq::<SquadView>::empty());
        assert(mcp_views(r.global_mcp_servers@) =~= Seq::<McpConfigView>::empty());
        r
    }

    /// Replaces the registry's contents with what a scan of the agents folder
    /// found: each agent folder's configuration by role (a later folder with the
    /// same role replaces an earlier one), with the `sh`, `py` and `js` files of
    /// its `tools` folder added to its scripts; each parsed squad by name; and
    /// the MCP servers the agents declare, the first of each name kept.
    pub fn scan_folder(&mut self, listing: &FolderListing)
        ensures
            final(self).agents() == keyed_map(loaded_configs(listing.agent_dirs@), role_key()),
            final(self).squads() == keyed_map(loaded_squads(listing.squads@), squad_key()),
            final(self).global_mcp_servers() == global_mcps(listing.agent_dirs@),
    {
        let agents = build_agents(&listing.agent_dirs);
        let squads = build_squads(&listing.squads);
        let mcps = build_global_mcps(&listing.agent_dirs);
        *self = AgentRegistry { agents, squads, global_mcp_servers: mcps };
    }

    /// The configuration of a role, if the registry holds one.
    pub fn get_config(&self, role: &str) -> (r: Option<AgentConfig>)
        ensures
            match r {
                Some(c) => self.agents().contains_key(role@) && c@ == self.agents()[role@],
                None => !self.agents().contains_key(role@),
            },
    {
        proof {
            use_type_invariant(self);
        }
        let mut i: usize = 0;
        while i < self.agents.len()
            invariant
                i <= self.agents@.len(),
                unique_keys(config_views(self.agents@), role_key()),
                forall|k: int| 0 <= k < i ==> self.agents@[k].role@ != role@,
            decreases self.agents@.len() - i,
        {
            if str_eq(self.agents[i].role.as_str(), role) {
                proof {
                    lemma_keyed_map_value(config_views(self.agents@), role_key(), i as int);
                }
                return Some(self.agents[i].copy());
            }
            i = i + 1;
        }
        proof {
            lemma_keyed_map_domain(config_views(self.agents@), role_key(), role@);
        }
        None
    }

    /// The roles the registry holds, each once.
    pub fn list_roles(&self) -> (r: Vec<String>)
        ensures
            strings_view(r@).to_set() == self.agents().dom(),
            strings_view(r@).no_duplicates(),
    {
        proof {
            use_type_invariant(self);
        }
        let mut r: Vec<String> = Vec::new();
        let mut i: usize = 0;
        while i < self.agents.len()
            invariant
                i <= self.agents@.len(),
                r@.len() == i,
                forall|k: int| 0 <= k < i ==> #[trigger] r@[k]@ == self.agents@[k].role@,
            decreases self.agents@.len() - i,
        {
            r.push(self.agents[i].role.clone());
            i = i + 1;
        }
        let ghost cv = config_views(self.agents@);
        assert(strings_view(r@) =~= keys_of(cv, role_key()));
        proof {
            assert forall|k: Seq<char>| strings_view(r@).to_set().contains(k)
                <==> self.agents().dom().contains(k) by {
                lemma_keyed_map_domain(cv, role_key(), k);
                if strings_view(r@).to_set().contains(k) {
                    let j = choose|j: int| 0 <= j < strings_view(r@).len() && strings_view(r@)[j] == k;
                    assert(role_key()(cv[j]) == k);
                }
                if self.agents().dom().contains(k) {
                    let j = choose|j: int| 0 <= j < cv.len() && role_key()(cv[j]) == k;
                    assert(strings_view(r@)[j] == k);
                }
            }
            assert(strings_view(r@).to_set() =~= self.agents().dom());
        }
        r
    }

    /// The squad of a name, if the registry holds one.
    pub fn get_squad(&self, name: &str) -> (r: Option<Squad>)
        ensures
            match r {
                Some(s) => self.squads().contains_key(name@) && s@ == self.squads()[name@],
                None => !self.squads().contains_key(name@),
            },
    {
        proof {
            use_type_invariant(self);
        }
        let mut i: usize = 0;
        while i < self.squads.len()
            invariant
                i <= self.squads@.len(),
                unique_keys(squad_views(self.squads@), squad_key()),
                forall|k: int| 0 <= k < i ==> self.squads@[k].name@ != name@,
            decreases self.squads@.len() - i,
        {
            if str_eq(self.squads[i].name.as_str(), name) {
                proof {
                    lemma_keyed_map_value(squad_views(self.squads@), squad_key(), i as int);
                }
                return Some(self.squads[i].copy());
            }
            i = i + 1;
        }
        proof {
            lemma_keyed_map_domain(squad_views(self.squads@), squad_key(), name@);
        }
        None
    }

    /// A copy of the shared MCP servers.
    pub fn global_mcps(&self) -> (r: Vec<McpConfig>)
        ensures
            mcp_views(r@) == self.global_mcp_servers(),
    {
        copy_mcps(&self.global_mcp_servers)
    }
}

// ───────────────────────── building the contents ─────────────────────────

/// Whether a file name has the extension `sh`, `py` or `js`.
pub fn is_script_file(name: &str) -> (b: bool)
    ensures
        b == is_script_name(name@),
{
    let cs = to_chars(name);
    let n = cs.len();
    let mut i: usize = n;
    let mut found = false;
    assert(cs@.subrange(0, n as int) =~= cs@);
    while i > 0
        invariant_except_break
            i <= n,
            n == cs@.len(),
            !found,
            last_dot(cs@) == last_dot(cs@.subrange(0, i as int)),
        ensures
            i <= n,
            n == cs@.len(),
            found ==> i > 0 && last_dot(cs@) == i - 1,
            !found ==> i == 0 && last_dot(cs@) == -1,
        decreases i,
    {
        assert(cs@.subrange(0, i as int).drop_last() =~= cs@.subrange(0, i - 1));
        if cs[i - 1] == '.' {
            found = true;
            break;
        }
        i = i - 1;
    }
    if !found || i == 1 {
        return false;
    }
    // the extension is cs[i..n]
    let ghost ext = cs@.subrange(i as int, n as int);
    assert(extension(name@) == Some(ext));
    if n - i != 2 {
        assert(ext.len() != 2);
        assert(ext != seq!['s', 'h'] && ext != seq!['p', 'y'] && ext != seq!['j', 's']);
        return false;
    }
    let a = cs[i];
    let b = cs[i + 1];
    assert(ext[0] == a && ext[1] == b);
    let r = (a == 's' && b == 'h') || (a == 'p' && b == 'y') || (a == 'j' && b == 's');
    if r {
        assert(ext =~= seq![a, b]);
    } else {
        assert(ext != seq!['s', 'h'] && ext != seq!['p', 'y'] && ext != seq!['j', 's']) by {
            if ext == seq!['s', 'h'] { assert(ext[0] == 's'); }
            if ext == seq!['p', 'y'] { assert(ext[0] == 'p'); }
            if ext == seq!['j', 's'] { assert(ext[0] == 'j'); }
        }
    }
    r
}

/// The paths of the script files among `files`, in order.
fn scripts_in(files: &Vec<ToolFile>) -> (r: Vec<String>)
    ensures
        strings_view(r@) == scripts_of(files@),
{
    let mut r: Vec<String> = Vec::new();
    let mut i: usize = 0;
    assert(files@.subrange(0, 0) =~= Seq::<ToolFile>::empty());
    while i < files.len()
        invariant
            i <= files@.len(),
            strings_view(r@) == scripts_of(files@.subrange(0, i as int)),
        decreases files@.len() - i,
    {
        assert(files@.subrange(0, i + 1).drop_last() =~= files@.subrange(0, i as int));
        if is_script_file(files[i].name.as_str()) {
            r.push(files[i].path.clone());
            assert(strings_view(r@) =~= scripts_of(files@.subrange(0, i as int)).push(files@[i as int].path@));
        }
        i = i + 1;
    }
    assert(files@.subrange(0, files@.len() as int) =~= files@);
    r
}

/// The configuration an agent folder contributes, if it has one.
fn load_config(d: &AgentDirListing) -> (r: Option<AgentConfig>)
    ensures
        match r {
            Some(c) => loaded_config(*d) == Some(c@),
            None => loaded_config(*d) is None,
        },
{
    match &d.config {
        Some(c) => {
            let mut cfg = c.copy();
            let mut extra = scripts_in(&d.tool_files);
            let ghost before = cfg.discovered_scripts@;
            let ghost added = extra@;
            cfg.discovered_scripts.append(&mut extra);
            assert(strings_view(cfg.discovered_scripts@) =~= strings_view(before) + strings_view(added));
            Some(cfg)
        },
        None => None,
    }
}

fn build_agents(dirs: &Vec<AgentDirListing>) -> (r: Vec<AgentConfig>)
    ensures
        unique_keys(config_views(r@), role_key()),
        keyed_map(config_views(r@), role_key()) == keyed_map(loaded_configs(dirs@), role_key()),
{
    let mut r: Vec<AgentConfig> = Vec::new();
    let mut i: usize = 0;
    assert(dirs@.subrange(0, 0) =~= Seq::<AgentDirListing>::empty());
    assert(config_views(r@) =~= Seq::<AgentConfigView>::empty());
    while i < dirs.len()
        invariant
            i <= dirs@.len(),
            unique_keys(config_views(r@), role_key()),
            keyed_map(config_views(r@), role_key())
                == keyed_map(loaded_configs(dirs@.subrange(0, i as int)), role_key()),
        decreases dirs@.len() - i,
    {
        assert(dirs@.subrange(0, i + 1).drop_last() =~= dirs@.subrange(0, i as int));
        assert(dirs@.subrange(0, i + 1).last() == dirs@[i as int]);
        let loaded = load_config(&dirs[i]);
        match loaded {
            Some(c) => {
                let ghost prev = loaded_configs(dirs@.subrange(0, i as int));
                assert(loaded_configs(dirs@.subrange(0, i + 1)) == prev.push(c@));
                assert(prev.push(c@).drop_last() =~= prev);
                // find an entry of the same role
                let mut j: usize = 0;
                let mut at: Option<usize> = None;
                while j < r.len()
                    invariant_except_break
                        j <= r@.len(),
                        at is None,
                        forall|k: int| 0 <= k < j ==> r@[k].role@ != c.role@,
                    ensures
                        match at {
                            Some(p) => p < r@.len() && r@[p as int].role@ == c.role@,
                            None => forall|k: int| 0 <= k < r@.len() ==> r@[k].role@ != c.role@,
                        },
                    decreases r@.len() - j,
                {
                    if r[j].role == c.role {
                        at = Some(j);
                        break;
                    }
                    j = j + 1;
                }
                let ghost old_views = config_views(r@);
                match at {
                    Some(p) => {
                        proof {
                            lemma_keyed_map_update(old_views, role_key(), p as int, c@);
                        }
                        r.set(p, c);
                        assert(config_views(r@) =~= old_views.update(p as int, c@));
                    },
                    None => {
                        proof {
                            lemma_keyed_push_unique(old_views, role_key(), c@);
                        }
                        r.push(c);
                        assert(config_views(r@) =~= old_views.push(c@));
                    },
                }
            },
            None => {
                assert(loaded_configs(dirs@.subrange(0, i + 1)) == loaded_configs(dirs@.subrange(0, i as int)));
            },
        }
        i = i + 1;
    }
    assert(dirs@.subrange(0, dirs@.len() as int) =~= dirs@);
    r
}

fn build_squads(files: &Vec<Option<Squad>>) -> (r: Vec<Squad>)
    ensures
        unique_keys(squad_views(r@), squad_key()),
        keyed_map(squad_views(r@), squad_key()) == keyed_map(loaded_squads(files@), squad_key()),
{
    let mut r: Vec<Squad> = Vec::new();
    let mut i: usize = 0;
    assert(files@.subrange(0, 0) =~= Seq::<Option<Squad>>::empty());
    assert(squad_views(r@) =~= Seq::<SquadView>::empty());
    while i < files.len()
        invariant
            i <= files@.len(),
            unique_keys(squad_views(r@), squad_key()),
            keyed_map(squad_views(r@), squad_key())
                == keyed_map(loaded_squads(files@.subrange(0, i as int)), squad_key()),
        decreases files@.len() - i,
    {
        assert(files@.subrange(0, i + 1).drop_last() =~= files@.subrange(0, i as int));
        assert(files@.subrange(0, i + 1).last() == files@[i as int]);
        match &files[i] {
            Some(q) => {
                let c = q.copy();
                let ghost prev = loaded_squads(files@.subrange(0, i as int));
                assert(loaded_squads(files@.subrange(0, i + 1)) == prev.push(c@));
                assert(prev.push(c@).drop_last() =~= prev);
                let mut j: usize = 0;
                let mut at: Option<usize> = None;
                while j < r.len()
                    invariant_except_break
                        j <= r@.len(),
                        at is None,
                        forall|k: int| 0 <= k < j ==> r@[k].name@ != c.name@,
                    ensures
                        match at {
                            Some(p) => p < r@.len() && r@[p as int].name@ == c.name@,
                            None => forall|k: int| 0 <= k < r@.len() ==> r@[k].name@ != c.name@,
                        },
                    decreases r@.len() - j,
                {
                    if r[j].name == c.name {
                        at = Some(j);
                        break;
                    }
                    j = j + 1;
                }
                let ghost old_views = squad_views(r@);
                match at {
                    Some(p) => {
                        proof {
                            lemma_keyed_map_update(old_views, squad_key(), p as int, c@);
                        }
                        r.set(p, c);
                        assert(squad_views(r@) =~= old_views.update(p as int, c@));
                    },
                    None => {
                        proof {
                            lemma_keyed_push_unique(old_views, squad_key(), c@);
                        }
                        r.push(c);
                        assert(squad_views(r@) =~= old_views.push(c@));
                    },
                }
            },
            None => {
                assert(loaded_squads(files@.subrange(0, i + 1)) == loaded_squads(files@.subrange(0, i as int)));
            },
        }
        i = i + 1;
    }
    assert(files@.subrange(0, files@.len() as int) =~= files@);
    r
}

/// `acc` with each server of `list` whose name is not yet present appended.
fn merge_mcps_into(acc: &mut Vec<McpConfig>, list: &Vec<McpConfig>)
    ensures
        mcp_views(final(acc)@) == merge_mcps(mcp_views(old(acc)@), mcp_views(list@)),
{
    let ghost start = mcp_views(acc@);
    let mut i: usize = 0;
    assert(mcp_views(list@).subrange(0, 0) =~= Seq::<McpConfigView>::empty());
    while i < list.len()
        invariant
            i <= list@.len(),
            mcp_views(acc@) == merge_mcps(start, mcp_views(list@).subrange(0, i as int)),
        decreases list@.len() - i,
    {
        let ghost sub = mcp_views(list@).subrange(0, i + 1);
        assert(sub.drop_last() =~= mcp_views(list@).subrange(0, i as int));
        assert(sub.last() == list@[i as int]@);
        let mut j: usize = 0;
        let mut present = false;
        while j < acc.len()
            invariant_except_break
                j <= acc@.len(),
                i < list@.len(),
                !present,
                forall|k: int| 0 <= k < j ==> acc@[k].name@ != list@[i as int].name@,
            ensures
                i < list@.len(),
                present <==> keys_of(mcp_views(acc@), mcp_key()).contains(list@[i as int].name@),
            decreases acc@.len() - j,
        {
            if acc[j].name == list[i].name {
                present = true;
                assert(keys_of(mcp_views(acc@), mcp_key())[j as int] == list@[i as int].name@);
                break;
            }
            j = j + 1;
        }
        if !present {
            let ghost before = mcp_views(acc@);
            acc.push(list[i].copy());
            assert(mcp_views(acc@) =~= before.push(list@[i as int]@));
        }
        i = i + 1;
    }
    assert(mcp_views(list@).subrange(0, list@.len() as int) =~= mcp_views(list@));
}

fn build_global_mcps(dirs: &Vec<AgentDirListing>) -> (r: Vec<McpConfig>)
    ensures
        mcp_views(r@) == global_mcps(dirs@),
{
    let mut r: Vec<McpConfig> = Vec::new();
    let mut i: usize = 0;
    assert(dirs@.subrange(0, 0) =~= Seq::<AgentDirListing>::empty());
    assert(mcp_views(r@) =~= Seq::<McpConfigView>::empty());
    while i < dirs.len()
        invariant
            i <= dirs@.len(),
            mcp_views(r@) == global_mcps(dirs@.subrange(0, i as int)),
        decreases dirs@.len() - i,
    {
        assert(dirs@.subrange(0, i + 1).drop_last() =~= dirs@.subrange(0, i as int));
        assert(dirs@.subrange(0, i + 1).last() == dirs@[i as int]);
        match &dirs[i].config {
            Some(c) => match &c.mcp_servers {
                Some(l) => {
                    merge_mcps_into(&mut r, l);
                },
                None => {},
            },
            None => {},
        }
        i = i + 1;
    }
    assert(dirs@.subrange(0, dirs@.len() as int) =~= dirs@);
    r
}

} // verus!
