//! Swarm bookkeeping: which agents and squads are active, what a status request
//! is answered, and which tools an agent of a role is given.

use vstd::prelude::*;
use crate::keyed::{keyed_map, keys_of, lemma_keyed_map_domain, lemma_keyed_map_value, unique_keys};
use std::collections::HashMap;
use vstd::std_specs::hash::spec_hash_map_iter;
use vstd::std_specs::iter::IteratorSpec;
use crate::permissions::{char_views, path_components, path_components_of};
use crate::registry::{last_dot, extension, mcp_views, AgentConfig, AgentConfigView, AgentRegistry, McpConfig, McpConfigView};
use crate::squad::{ActiveSquad, ActiveSquadAgent, Squad, SquadAgentDefView};
use crate::text::{clone_strings, concat, decimal, decimal_string, from_chars, opt_view, strings_view, str_eq};
use crate::hexcode::hex_digit;
use crate::json::{field_views, json_raw_array, json_raw_array_text, json_raw_object, json_raw_object_text, json_string, json_string_text};
use vstd::arithmetic::power2::pow2;
use crate::tools::mcp::{McpTool, McpToolView};
use crate::tools::script::{ScriptTool, ScriptToolView};

verus! {

broadcast use vstd::std_specs::hash::group_hash_axioms;

// ───────────────────────── tools of an agent ─────────────────────────

/// The file name of a path: its last component, when that is a name.
pub open spec fn file_name_of(path: Seq<char>) -> Option<Seq<char>> {
    let c = path_components(path);
    if c.len() == 0 {
        None
    } else if c.last() == seq!['/'] || c.last() == seq!['.'] || c.last() == seq!['.', '.'] {
        None
    } else {
        Some(c.last())
    }
}

/// The stem of a file name: what precedes the last `.`, unless that dot is the
/// first character or there is none.
pub open spec fn file_stem(name: Seq<char>) -> Seq<char> {
    let i = last_dot(name);
    if i <= 0 {
        name
    } else {
        name.subrange(0, i)
    }
}

/// The interpreter and kind of script for an extension.
pub open spec fn script_kind(ext: Option<Seq<char>>) -> (Option<Seq<char>>, Seq<char>) {
    if ext == Some(seq!['s', 'h']) {
        (None, "Shell script"@)
    } else if ext == Some(seq!['p', 'y']) {
        (Some("python3"@), "Python script"@)
    } else if ext == Some(seq!['j', 's']) {
        (Some("node"@), "Node.js script"@)
    } else {
        (None, "Script"@)
    }
}

/// The tool made of a discovered script: named `sc_<stem>`.
pub open spec fn script_tool_for(path: Seq<char>) -> ScriptToolView {
    let stem = match file_name_of(path) {
        Some(n) => file_stem(n),
        None => "unknown_script"@,
    };
    let ext = match file_name_of(path) {
        Some(n) => extension(n),
        None => None,
    };
    let kind = script_kind(ext);
    ScriptToolView {
        name: "sc_"@ + stem,
        description: "Custom "@ + kind.1 + ": "@ + stem,
        script_path: path,
        interpreter: kind.0,
    }
}

/// The extension of the file a path names, when it names a file.
pub open spec fn path_extension(path: Seq<char>) -> Option<Seq<char>> {
    match file_name_of(path) {
        Some(n) => extension(n),
        None => None,
    }
}

/// A discovered script runs under the interpreter its extension calls for: a
/// `.py` script under `python3`, a `.js` script under `node`, and a `.sh`
/// script, or one of any other kind, directly. Its tool is named `sc_` and the
/// file's stem, is described by the kind of script and the stem, and runs the
/// script at `path`.
pub proof fn lemma_script_interpreter(path: Seq<char>)
    ensures
        path_extension(path) == Some(seq!['p', 'y']) ==> script_tool_for(path).interpreter == Some(
            seq!['p', 'y', 't', 'h', 'o', 'n', '3'],
        ),
        path_extension(path) == Some(seq!['j', 's']) ==> script_tool_for(path).interpreter == Some(
            seq!['n', 'o', 'd', 'e'],
        ),
        path_extension(path) != Some(seq!['p', 'y']) && path_extension(path) != Some(seq!['j', 's'])
            ==> script_tool_for(path).interpreter is None,
        script_tool_for(path).script_path == path,
        file_name_of(path) matches Some(n) ==> script_tool_for(path).name == seq!['s', 'c', '_'] + file_stem(n),
        file_name_of(path) matches Some(n) ==> script_tool_for(path).description == "Custom "@ + (
        if path_extension(path) == Some(seq!['p', 'y']) {
            "Python script"@
        } else if path_extension(path) == Some(seq!['j', 's']) {
            "Node.js script"@
        } else if path_extension(path) == Some(seq!['s', 'h']) {
            "Shell script"@
        } else {
            "Script"@
        }) + ": "@ + file_stem(n),
{
    reveal_strlit("python3");
    reveal_strlit("node");
    reveal_strlit("sc_");
    assert("python3"@ =~= seq!['p', 'y', 't', 'h', 'o', 'n', '3']);
    assert("node"@ =~= seq!['n', 'o', 'd', 'e']);
    assert("sc_"@ =~= seq!['s', 'c', '_']);
}

/// The tool made of an MCP server, described with `prefix` and its name.
pub open spec fn mcp_tool_for(m: McpConfigView, prefix: Seq<char>) -> McpToolView {
    McpToolView { name: m.name, description: prefix + m.name, command: m.command, args: m.args }
}

pub open spec fn global_prefix() -> Seq<char> {
    "Global MCP Tool: "@
}

pub open spec fn role_prefix() -> Seq<char> {
    "Role MCP Tool: "@
}

/// The role's servers whose names no shared server has, as tools.
pub open spec fn role_mcp_tools(list: Seq<McpConfigView>, global: Seq<McpConfigView>) -> Seq<McpToolView>
    decreases list.len(),
{
    if list.len() == 0 {
        Seq::empty()
    } else {
        let t = role_mcp_tools(list.drop_last(), global);
        if keys_of(global, |m: McpConfigView| m.name).contains(list.last().name) {
            t
        } else {
            t.push(mcp_tool_for(list.last(), role_prefix()))
        }
    }
}

/// The tools an agent of a role gets besides the built-in ones, in the order
/// they are registered: the shared MCP servers, the role's own MCP servers
/// that no shared server names, then the role's scripts.
pub struct AgentToolPlan {
    pub mcp_tools: Vec<McpTool>,
    pub script_tools: Vec<ScriptTool>,
    pub specialization: Option<String>,
}

pub open spec fn tool_views(v: Seq<McpTool>) -> Seq<McpToolView> {
    Seq::new(v.len(), |i: int| v[i]@)
}

pub open spec fn script_views(v: Seq<ScriptTool>) -> Seq<ScriptToolView> {
    Seq::new(v.len(), |i: int| v[i]@)
}

/// The MCP tools of a role's plan.
pub open spec fn planned_mcp_tools(global: Seq<McpConfigView>, config: Option<AgentConfigView>) -> Seq<McpToolView> {
    let g = Seq::new(global.len(), |i: int| mcp_tool_for(global[i], global_prefix()));
    match config {
        Some(c) => match c.mcp_servers {
            Some(l) => g + role_mcp_tools(l, global),
            None => g,
        },
        None => g,
    }
}

/// The script tools of a role's plan.
pub open spec fn planned_scripts(config: Option<AgentConfigView>) -> Seq<ScriptToolView> {
    match config {
        Some(c) => Seq::new(c.discovered_scripts.len(), |i: int| script_tool_for(c.discovered_scripts[i])),
        None => Seq::empty(),
    }
}

/// The file name of a path, if its last component is a name.
fn file_name(path: &str) -> (r: Option<Vec<char>>)
    ensures
        match r {
            Some(n) => file_name_of(path@) == Some(n@),
            None => file_name_of(path@) is None,
        },
{
    let comps = path_components_of(path);
    let n = comps.len();
    if n == 0 {
        return None;
    }
    let last = &comps[n - 1];
    assert(char_views(comps@).last() == last@);
    let is_root = last.len() == 1 && last[0] == '/';
    let is_cur = last.len() == 1 && last[0] == '.';
    let is_parent = last.len() == 2 && last[0] == '.' && last[1] == '.';
    if is_root {
        assert(last@ =~= seq!['/']);
        return None;
    }
    if is_cur {
        assert(last@ =~= seq!['.']);
        return None;
    }
    if is_parent {
        assert(last@ =~= seq!['.', '.']);
        return None;
    }
    assert(last@ != seq!['/']) by {
        if last@ == seq!['/'] { assert(last@[0] == '/'); }
    }
    assert(last@ != seq!['.']) by {
        if last@ == seq!['.'] { assert(last@[0] == '.'); }
    }
    assert(last@ != seq!['.', '.']) by {
        if last@ == seq!['.', '.'] { assert(last@[0] == '.' && last@[1] == '.'); }
    }
    Some(last.clone())
}

/// Position of the last `.` of `name`, if any.
fn find_last_dot(name: &Vec<char>) -> (r: Option<usize>)
    ensures
        match r {
            Some(i) => last_dot(name@) == i as int && i < name@.len(),
            None => last_dot(name@) == -1,
        },
{
    let n = name.len();
    let mut i: usize = n;
    assert(name@.subrange(0, n as int) =~= name@);
    while i > 0
        invariant
            i <= n,
            n == name@.len(),
            last_dot(name@) == last_dot(name@.subrange(0, i as int)),
        decreases i,
    {
        assert(name@.subrange(0, i as int).drop_last() =~= name@.subrange(0, i - 1));
        if name[i - 1] == '.' {
            return Some(i - 1);
        }
        i = i - 1;
    }
    None
}

/// The tool made of a discovered script.
pub fn script_tool(path: &str) -> (t: ScriptTool)
    ensures
        t@ == script_tool_for(path@),
{
    let (stem, kind_ext) = match file_name(path) {
        Some(name) => {
            let nlen = name.len();
            let dot = find_last_dot(&name);
            match dot {
                Some(i) if i > 0 => {
                    let stem = from_chars(&name.as_slice()[0..i]);
                    assert(stem@ == name@.subrange(0, i as int));
                    let ext = from_chars(&name.as_slice()[i + 1..nlen]);
                    assert(ext@ == name@.subrange(i + 1, name@.len() as int));
                    (stem, Some(ext))
                },
                _ => (from_chars(name.as_slice()), None),
            }
        },
        None => ("unknown_script".to_owned(), None),
    };
    let (interpreter, desc): (Option<String>, &str) = match &kind_ext {
        Some(e) => {
            if str_eq(e.as_str(), "sh") {
                (None, "Shell script")
            } else if str_eq(e.as_str(), "py") {
                (Some("python3".to_owned()), "Python script")
            } else if str_eq(e.as_str(), "js") {
                (Some("node".to_owned()), "Node.js script")
            } else {
                (None, "Script")
            }
        },
        None => (None, "Script"),
    };
    proof {
        reveal_strlit("sh");
        reveal_strlit("py");
        reveal_strlit("js");
        assert("sh"@ =~= seq!['s', 'h']);
        assert("py"@ =~= seq!['p', 'y']);
        assert("js"@ =~= seq!['j', 's']);
    }
    let name = concat("sc_", stem.as_str());
    let d1 = concat("Custom ", desc);
    let d2 = concat(d1.as_str(), ": ");
    let description = concat(d2.as_str(), stem.as_str());
    ScriptTool { name, description, script_path: path.to_owned(), interpreter }
}

fn mcp_tool(m: &McpConfig, prefix: &str) -> (t: McpTool)
    ensures
        t@ == mcp_tool_for(m@, prefix@),
{
    McpTool {
        name: m.name.clone(),
        description: concat(prefix, m.name.as_str()),
        command: m.command.clone(),
        args: clone_strings(&m.args),
    }
}

/// The tools an agent of `role` gets from the registry, and the role's
/// specialization when the registry holds the role.
pub fn prepare_agent_tools(registry: &AgentRegistry, role: &str) -> (plan: AgentToolPlan)
    ensures
        ({
            let config = if registry.agents().contains_key(role@) {
                Some(registry.agents()[role@])
            } else {
                None
            };
            &&& tool_views(plan.mcp_tools@) == planned_mcp_tools(registry.global_mcp_servers(), config)
            &&& script_views(plan.script_tools@) == planned_scripts(config)
            &&& match config {
                Some(c) => plan.specialization matches Some(s) && s@ == c.specialization,
                None => plan.specialization is None,
            }
        }),
{
    let global = registry.global_mcps();
    let ghost gv = mcp_views(global@);
    let mut tools: Vec<McpTool> = Vec::new();
    let mut i: usize = 0;
    while i < global.len()
        invariant
            i <= global@.len(),
            gv == mcp_views(global@),
            tools@.len() == i,
            forall|k: int| 0 <= k < i ==> #[trigger] tools@[k]@ == mcp_tool_for(gv[k], global_prefix()),
        decreases global@.len() - i,
    {
        let t = mcp_tool(&global[i], "Global MCP Tool: ");
        tools.push(t);
        i = i + 1;
    }
    let ghost g = Seq::new(gv.len(), |k: int| mcp_tool_for(gv[k], global_prefix()));
    assert(tool_views(tools@) =~= g);
    match registry.get_config(role) {
        None => {
            let plan = AgentToolPlan { mcp_tools: tools, script_tools: Vec::new(), specialization: None };
            assert(script_views(plan.script_tools@) =~= Seq::<ScriptToolView>::empty());
            plan
        },
        Some(config) => {
            match &config.mcp_servers {
                Some(list) => {
                    let mut j: usize = 0;
                    let ghost lv = mcp_views(list@);
                    assert(lv.subrange(0, 0) =~= Seq::<McpConfigView>::empty());
                    while j < list.len()
                        invariant
                            j <= list@.len(),
                            lv == mcp_views(list@),
                            gv == mcp_views(global@),
                            tool_views(tools@) == g + role_mcp_tools(lv.subrange(0, j as int), gv),
                        decreases list@.len() - j,
                    {
                        assert(lv.subrange(0, j + 1).drop_last() =~= lv.subrange(0, j as int));
                        assert(lv.subrange(0, j + 1).last() == list@[j as int]@);
                        let mut k: usize = 0;
                        let mut in_global = false;
                        while k < global.len()
                            invariant_except_break
                                k <= global@.len(),
                                j < list@.len(),
                                gv == mcp_views(global@),
                                !in_global,
                                forall|q: int| 0 <= q < k ==> global@[q].name@ != list@[j as int].name@,
                            ensures
                                j < list@.len(),
                                in_global <==> keys_of(gv, |m: McpConfigView| m.name).contains(list@[j as int].name@),
                            decreases global@.len() - k,
                        {
                            if global[k].name == list[j].name {
                                in_global = true;
                                assert(keys_of(gv, |m: McpConfigView| m.name)[k as int] == list@[j as int].name@);
                                break;
                            }
                            k = k + 1;
                        }
                        if !in_global {
                            let ghost before = tool_views(tools@);
                            let t = mcp_tool(&list[j], "Role MCP Tool: ");
                            tools.push(t);
                            assert(tool_views(tools@) =~= before.push(mcp_tool_for(list@[j as int]@, role_prefix())));
                        }
                        j = j + 1;
                    }
                    assert(lv.subrange(0, list@.len() as int) =~= lv);
                },
                None => {},
            }
            let mut scripts: Vec<ScriptTool> = Vec::new();
            let mut s: usize = 0;
            let ghost dv = strings_view(config.discovered_scripts@);
            while s < config.discovered_scripts.len()
                invariant
                    s <= config.discovered_scripts@.len(),
                    dv == strings_view(config.discovered_scripts@),
                    scripts@.len() == s,
                    forall|q: int| 0 <= q < s ==> #[trigger] scripts@[q]@ == script_tool_for(dv[q]),
                decreases config.discovered_scripts@.len() - s,
            {
                let t = script_tool(config.discovered_scripts[s].as_str());
                scripts.push(t);
                s = s + 1;
            }
            assert(script_views(scripts@) =~= planned_scripts(Some(config@)));
            let spec_text = config.specialization.clone();
            AgentToolPlan { mcp_tools: tools, script_tools: scripts, specialization: Some(spec_text) }
        },
    }
}

// ───────────────────────── active agents and squads ─────────────────────────

/// Draws a fresh version-4 UUID with `uuid::Uuid::new_v4` and gives it as a
/// 128-bit integer (`Uuid::as_u128`). Nothing is claimed of the value: it is random.
#[verifier::external_body]
fn new_uuid() -> u128 {
    uuid::Uuid::new_v4().as_u128()
}

/// An active agent in the swarm.
#[derive(Debug)]
pub struct SwarmAgent {
    pub id: u128,
    pub role: String,
}

pub struct ActiveSquadAgentView {
    pub id: u128,
    pub role: Seq<char>,
    pub goal: Seq<char>,
    pub status: Seq<char>,
}

pub struct ActiveSquadView {
    pub id: u128,
    pub name: Seq<char>,
    pub agents: Seq<ActiveSquadAgentView>,
}

pub open spec fn squad_agent_view(a: ActiveSquadAgent) -> ActiveSquadAgentView {
    ActiveSquadAgentView { id: a.id, role: a.role@, goal: a.goal@, status: a.status@ }
}

pub open spec fn active_squad_view(s: ActiveSquad) -> ActiveSquadView {
    ActiveSquadView {
        id: s.id,
        name: s.name@,
        agents: Seq::new(s.agents@.len(), |i: int| squad_agent_view(s.agents@[i])),
    }
}

pub open spec fn agent_id_key() -> spec_fn((u128, Seq<char>)) -> u128 {
    |a: (u128, Seq<char>)| a.0
}

pub open spec fn squad_id_key() -> spec_fn(ActiveSquadView) -> u128 {
    |s: ActiveSquadView| s.id
}

pub open spec fn agent_pairs(v: Seq<SwarmAgent>) -> Seq<(u128, Seq<char>)> {
    Seq::new(v.len(), |i: int| (v[i].id, v[i].role@))
}

pub open spec fn squad_views(v: Seq<ActiveSquad>) -> Seq<ActiveSquadView> {
    Seq::new(v.len(), |i: int| active_squad_view(v[i]))
}

/// The role of each agent by id.
pub open spec fn roles_by_id(pairs: Seq<(u128, Seq<char>)>) -> Map<u128, Seq<char>> {
    let m = keyed_map(pairs, agent_id_key());
    Map::new(|k: u128| m.contains_key(k), |k: u128| m[k].1)
}

/// The position of the first agent with this id, or -1.
pub open spec fn first_with_id(agents: Seq<ActiveSquadAgentView>, id: u128) -> int
    decreases agents.len(),
{
    if agents.len() == 0 {
        -1
    } else {
        let i = first_with_id(agents.drop_last(), id);
        if i >= 0 {
            i
        } else if agents.last().id == id {
            agents.len() - 1
        } else {
            -1
        }
    }
}

/// The agents with the first one of this id given `status`.
pub open spec fn with_status(agents: Seq<ActiveSquadAgentView>, id: u128, status: Seq<char>) -> Seq<
    ActiveSquadAgentView,
> {
    let i = first_with_id(agents, id);
    if i >= 0 {
        agents.update(i, ActiveSquadAgentView { status, ..agents[i] })
    } else {
        agents
    }
}

proof fn lemma_first_with_id(agents: Seq<ActiveSquadAgentView>, id: u128, j: int)
    requires
        0 <= j <= agents.len(),
        forall|k: int| 0 <= k < j ==> agents[k].id != id,
    ensures
        j < agents.len() && agents[j].id == id ==> first_with_id(agents, id) == j,
        j == agents.len() ==> first_with_id(agents, id) == -1,
    decreases agents.len(),
{
    if agents.len() > 0 {
        let front = agents.drop_last();
        if j < agents.len() {
            if j < front.len() {
                lemma_first_with_id(front, id, j);
            } else {
                lemma_first_with_id(front, id, front.len() as int);
            }
        } else {
            lemma_first_with_id(front, id, front.len() as int);
        }
    }
}

/// The statuses an agent of a squad goes through: `starting`, `running`, `finished`.
pub open spec fn known_status(s: Seq<char>) -> bool {
    s == "starting"@ || s == "running"@ || s == "finished"@
}

/// How far along a status is: `starting` 0, `running` 1, `finished` 2.
pub open spec fn status_rank(s: Seq<char>) -> int {
    if s == "starting"@ {
        0
    } else if s == "running"@ {
        1
    } else {
        2
    }
}

/// Every agent of every squad has one of the known statuses.
pub open spec fn statuses_known(squads: Seq<ActiveSquadView>) -> bool {
    forall|i: int, k: int|
        0 <= i < squads.len() && 0 <= k < squads[i].agents.len() ==> known_status(
            #[trigger] squads[i].agents[k].status,
        )
}

/// The squads of a table, each by its view.
pub open spec fn squad_table_view(m: Map<u128, ActiveSquad>) -> Map<u128, ActiveSquadView> {
    Map::new(|k: u128| m.contains_key(k), |k: u128| active_squad_view(m[k]))
}

/// Every agent of every squad in the table has a known status.
pub open spec fn table_statuses_known(m: Map<u128, ActiveSquadView>) -> bool {
    forall|id: u128, k: int|
        m.contains_key(id) && 0 <= k < m[id].agents.len() ==> known_status(#[trigger] m[id].agents[k].status)
}

/// A copy of a squad.
fn copy_squad(s: &ActiveSquad) -> (c: ActiveSquad)
    ensures
        active_squad_view(c) == active_squad_view(*s),
{
    let mut agents: Vec<ActiveSquadAgent> = Vec::new();
    let mut k: usize = 0;
    while k < s.agents.len()
        invariant
            k <= s.agents@.len(),
            agents@.len() == k,
            forall|q: int| 0 <= q < k ==> squad_agent_view(#[trigger] agents@[q]) == squad_agent_view(s.agents@[q]),
        decreases s.agents@.len() - k,
    {
        let a = &s.agents[k];
        agents.push(ActiveSquadAgent { id: a.id, role: a.role.clone(), goal: a.goal.clone(), status: a.status.clone() });
        k = k + 1;
    }
    let copy = ActiveSquad { id: s.id, name: s.name.clone(), agents };
    assert(active_squad_view(copy).agents =~= active_squad_view(*s).agents);
    copy
}

/// The agents and squads at work, each table keyed by id.
pub struct SwarmState {
    agents: HashMap<u128, String>,
    squads: HashMap<u128, ActiveSquad>,
}

impl SwarmState {
    #[verifier::type_invariant]
    spec fn inv(self) -> bool {
        &&& forall|id: u128| #[trigger] self.squads@.contains_key(id) ==> self.squads@[id].id == id
        &&& table_statuses_known(squad_table_view(self.squads@))
    }

    /// The role of each active agent, by id.
    pub closed spec fn agents(&self) -> Map<u128, Seq<char>> {
        Map::new(|k: u128| self.agents@.contains_key(k), |k: u128| self.agents@[k]@)
    }

    /// The active squads, by id.
    pub closed spec fn squads(&self) -> Map<u128, ActiveSquadView> {
        squad_table_view(self.squads@)
    }

    pub fn new() -> (s: Self)
        ensures
            s.agents() == Map::<u128, Seq<char>>::empty(),
            s.squads() == Map::<u128, ActiveSquadView>::empty(),
    {
        let s = SwarmState { agents: HashMap::new(), squads: HashMap::new() };
        assert(s.agents() =~= Map::<u128, Seq<char>>::empty());
        assert(s.squads() =~= Map::<u128, ActiveSquadView>::empty());
        s
    }

    /// Records an agent of `role` as active under a fresh id, which it returns.
    pub fn register_agent(&mut self, role: &str) -> (id: u128)
        ensures
            final(self).agents() == old(self).agents().insert(id, role@),
            final(self).squads() == old(self).squads(),
    {
        proof {
            use_type_invariant(&*self);
        }
        let id = new_uuid();
        let mut agents: HashMap<u128, String> = HashMap::new();
        std::mem::swap(&mut agents, &mut self.agents);
        agents.insert(id, role.to_owned());
        self.agents = agents;
        assert(self.agents() =~= old(self).agents().insert(id, role@));
        id
    }

    /// Forgets the agent `id` once its task is over.
    pub fn finish_agent(&mut self, id: u128)
        ensures
            final(self).agents() == old(self).agents().remove(id),
            final(self).squads() == old(self).squads(),
    {
        proof {
            use_type_invariant(&*self);
        }
        let mut agents: HashMap<u128, String> = HashMap::new();
        std::mem::swap(&mut agents, &mut self.agents);
        agents.remove(&id);
        self.agents = agents;
        assert(self.agents() =~= old(self).agents().remove(id));
    }

    /// The active agents, each id once.
    pub fn list_active(&self) -> (r: Vec<SwarmAgent>)
        ensures
            roles_by_id(agent_pairs(r@)) == self.agents(),
            unique_keys(agent_pairs(r@), agent_id_key()),
    {
        let mut r: Vec<SwarmAgent> = Vec::new();
        for p in it: self.agents.iter()
            invariant
                r@.len() == it.index(),
                it.seq() == spec_hash_map_iter(&self.agents).remaining(),
                it.seq().no_duplicates(),
                forall|i: int|
                    0 <= i < it.index() ==> (#[trigger] r@[i]).id == *it.seq()[i].0 && r@[i].role@ == (
                    *it.seq()[i].1)@,
        {
            r.push(SwarmAgent { id: *p.0, role: p.1.clone() });
        }
        proof {
            let v = spec_hash_map_iter(&self.agents).remaining();
            let m = self.agents@;
            let pairs = agent_pairs(r@);
            assert forall|i: int| 0 <= i < r@.len() implies m.contains_key(#[trigger] pairs[i].0) && m[pairs[i].0]@
                == pairs[i].1 by {
                assert(m.contains_key(*v[i].0));
            }
            assert forall|i: int, j: int|
                0 <= i < pairs.len() && 0 <= j < pairs.len() && i != j implies agent_id_key()(pairs[i])
                != agent_id_key()(pairs[j]) by {
                if pairs[i].0 == pairs[j].0 {
                    assert(m.contains_key(*v[i].0));
                    assert(m.contains_key(*v[j].0));
                    assert(v[i] == v[j]);
                }
            }
            let km = keyed_map(pairs, agent_id_key());
            assert forall|k: u128| #[trigger] roles_by_id(pairs).contains_key(k) <==> self.agents().contains_key(k) by {
                lemma_keyed_map_domain(pairs, agent_id_key(), k);
                if m.contains_key(k) {
                    assert(v.contains((&k, &m[k])));
                    let i = choose|i: int| 0 <= i < v.len() && v[i] == (&k, &m[k]);
                    assert(agent_id_key()(pairs[i]) == k);
                }
                if km.contains_key(k) {
                    let i = choose|i: int| 0 <= i < pairs.len() && agent_id_key()(pairs[i]) == k;
                    assert(m.contains_key(pairs[i].0));
                }
            }
            assert forall|k: u128| #[trigger] roles_by_id(pairs).contains_key(k) implies roles_by_id(pairs)[k]
                == self.agents()[k] by {
                lemma_keyed_map_domain(pairs, agent_id_key(), k);
                let i = choose|i: int| 0 <= i < pairs.len() && agent_id_key()(pairs[i]) == k;
                lemma_keyed_map_value(pairs, agent_id_key(), i);
                assert(m.contains_key(pairs[i].0));
            }
            assert(roles_by_id(pairs) =~= self.agents());
        }
        r
    }

    /// Records a squad as active under a fresh id, which it returns: one agent
    /// per definition, in order, each under a fresh id, with the definition's
    /// role and goal and the status `starting`.
    pub fn start_squad(&mut self, squad: &Squad) -> (squad_id: u128)
        ensures
            final(self).agents() == old(self).agents(),
            final(self).squads() == old(self).squads().insert(squad_id, final(self).squads()[squad_id]),
            final(self).squads()[squad_id].id == squad_id,
            final(self).squads()[squad_id].name == squad.name@,
            final(self).squads()[squad_id].agents.len() == squad.agents@.len(),
            forall|k: int| 0 <= k < squad.agents@.len() ==> {
                let a = #[trigger] final(self).squads()[squad_id].agents[k];
                &&& a.role == squad.agents@[k].role@
                &&& a.goal == squad.agents@[k].goal@
                &&& a.status == "starting"@
            },
    {
        proof {
            use_type_invariant(&*self);
        }
        let squad_id = new_uuid();
        let mut agents: Vec<ActiveSquadAgent> = Vec::new();
        let mut i: usize = 0;
        while i < squad.agents.len()
            invariant
                i <= squad.agents@.len(),
                agents@.len() == i,
                forall|k: int| 0 <= k < i ==> {
                    &&& (#[trigger] agents@[k]).role@ == squad.agents@[k].role@
                    &&& agents@[k].goal@ == squad.agents@[k].goal@
                    &&& agents@[k].status@ == "starting"@
                },
            decreases squad.agents@.len() - i,
        {
            let agent_id = new_uuid();
            agents.push(ActiveSquadAgent {
                id: agent_id,
                role: squad.agents[i].role.clone(),
                goal: squad.agents[i].goal.clone(),
                status: "starting".to_owned(),
            });
            i = i + 1;
        }
        let active = ActiveSquad { id: squad_id, name: squad.name.clone(), agents };
        self.put_squad(active);
        squad_id
    }

    fn put_squad(&mut self, s: ActiveSquad)
        requires
            forall|k: int|
                0 <= k < active_squad_view(s).agents.len() ==> known_status(
                    #[trigger] active_squad_view(s).agents[k].status,
                ),
        ensures
            final(self).agents() == old(self).agents(),
            final(self).squads() == old(self).squads().insert(s.id, active_squad_view(s)),
    {
        proof {
            use_type_invariant(&*self);
        }
        let ghost sv = active_squad_view(s);
        let id = s.id;
        let mut squads: HashMap<u128, ActiveSquad> = HashMap::new();
        std::mem::swap(&mut squads, &mut self.squads);
        let ghost before = squads@;
        squads.insert(id, s);
        proof {
            let t = squad_table_view(squads@);
            assert forall|q: u128, k: int| t.contains_key(q) && 0 <= k < t[q].agents.len() implies known_status(
                #[trigger] t[q].agents[k].status,
            ) by {
                if q == id {
                    assert(known_status(sv.agents[k].status));
                } else {
                    assert(squad_table_view(before)[q] == t[q]);
                }
            }
        }
        self.squads = squads;
        assert(self.squads() =~= old(self).squads().insert(id, sv));
    }

    /// Marks the first agent of id `agent_id` in squad `squad_id` as running;
    /// nothing changes when there is no such squad or agent.
    fn mark_running(&mut self, squad_id: u128, agent_id: u128)
        ensures
            final(self).agents() == old(self).agents(),
            old(self).squads().contains_key(squad_id) ==> final(self).squads() == old(self).squads().insert(
                squad_id,
                ActiveSquadView {
                    agents: with_status(old(self).squads()[squad_id].agents, agent_id, "running"@),
                    ..old(self).squads()[squad_id]
                },
            ),
            !old(self).squads().contains_key(squad_id) ==> final(self).squads() == old(self).squads(),
    {
        self.set_agent_status(squad_id, agent_id, "running");
    }

    /// Marks the first agent of id `agent_id` in squad `squad_id` as finished;
    /// nothing changes when there is no such squad or agent.
    fn mark_finished(&mut self, squad_id: u128, agent_id: u128)
        ensures
            final(self).agents() == old(self).agents(),
            old(self).squads().contains_key(squad_id) ==> final(self).squads() == old(self).squads().insert(
                squad_id,
                ActiveSquadView {
                    agents: with_status(old(self).squads()[squad_id].agents, agent_id, "finished"@),
                    ..old(self).squads()[squad_id]
                },
            ),
            !old(self).squads().contains_key(squad_id) ==> final(self).squads() == old(self).squads(),
    {
        self.set_agent_status(squad_id, agent_id, "finished");
    }

    fn set_agent_status(&mut self, squad_id: u128, agent_id: u128, status: &str)
        requires
            known_status(status@),
        ensures
            final(self).agents() == old(self).agents(),
            old(self).squads().contains_key(squad_id) ==> final(self).squads() == old(self).squads().insert(
                squad_id,
                ActiveSquadView {
                    agents: with_status(old(self).squads()[squad_id].agents, agent_id, status@),
                    ..old(self).squads()[squad_id]
                },
            ),
            !old(self).squads().contains_key(squad_id) ==> final(self).squads() == old(self).squads(),
    {
        proof {
            use_type_invariant(&*self);
        }
        let mut squads: HashMap<u128, ActiveSquad> = HashMap::new();
        std::mem::swap(&mut squads, &mut self.squads);
        let ghost before = squads@;
        let mut target = match squads.remove(&squad_id) {
            Some(t) => t,
            None => {
                assert(squads@ =~= before);
                self.squads = squads;
                assert(self.squads() =~= old(self).squads());
                return;
            },
        };
        let ghost old_sv = active_squad_view(target);
        let ghost old_agents = old_sv.agents;
        assert(old_sv == old(self).squads()[squad_id]);
        let n = target.agents.len();
        let mut k: usize = 0;
        let mut found: Option<usize> = None;
        while k < n
            invariant_except_break
                n == target.agents@.len(),
                old_sv == active_squad_view(target),
                old_agents == old_sv.agents,
                k <= n,
                found is None,
                forall|q: int| 0 <= q < k ==> old_agents[q].id != agent_id,
            ensures
                n == target.agents@.len(),
                old_sv == active_squad_view(target),
                match found {
                    Some(f) => f < n && old_agents[f as int].id == agent_id && forall|q: int| 0 <= q < f ==> old_agents[q].id != agent_id,
                    None => forall|q: int| 0 <= q < n ==> old_agents[q].id != agent_id,
                },
            decreases n - k,
        {
            assert(old_agents[k as int].id == target.agents@[k as int].id);
            if target.agents[k].id == agent_id {
                found = Some(k);
                break;
            }
            k = k + 1;
        }
        match found {
            Some(f) => {
                proof {
                    lemma_first_with_id(old_agents, agent_id, f as int);
                }
                let mut list = Vec::new();
                std::mem::swap(&mut list, &mut target.agents);
                let mut a = list.remove(f);
                a.status = status.to_owned();
                list.insert(f, a);
                target.agents = list;
                assert(active_squad_view(target).agents =~= with_status(old_agents, agent_id, status@));
            },
            None => {
                proof {
                    lemma_first_with_id(old_agents, agent_id, old_agents.len() as int);
                }
                assert(active_squad_view(target).agents =~= with_status(old_agents, agent_id, status@));
            },
        }
        let ghost new_sv = active_squad_view(target);
        assert(new_sv == (ActiveSquadView { agents: with_status(old_agents, agent_id, status@), ..old_sv }));
        squads.insert(squad_id, target);
        proof {
            lemma_status_touches_one(old_agents, agent_id, status@);
            let t = squad_table_view(squads@);
            assert forall|q: u128, j: int| t.contains_key(q) && 0 <= j < t[q].agents.len() implies known_status(
                #[trigger] t[q].agents[j].status,
            ) by {
                if q == squad_id {
                    let b = with_status(old_agents, agent_id, status@)[j];
                    assert(known_status(old(self).squads()[squad_id].agents[j].status));
                } else {
                    assert(old(self).squads()[q] == t[q]);
                }
            }
        }
        self.squads = squads;
        assert(self.squads() =~= old(self).squads().insert(squad_id, new_sv));
    }

    /// A copy of the active squads; every agent in them is `starting`,
    /// `running` or `finished`.
    pub fn squads_snapshot(&self) -> (r: Vec<ActiveSquad>)
        ensures
            keyed_map(squad_views(r@), squad_id_key()) == self.squads(),
            unique_keys(squad_views(r@), squad_id_key()),
            statuses_known(squad_views(r@)),
    {
        proof {
            use_type_invariant(self);
        }
        let mut r: Vec<ActiveSquad> = Vec::new();
        for p in it: self.squads.iter()
            invariant
                r@.len() == it.index(),
                it.seq() == spec_hash_map_iter(&self.squads).remaining(),
                it.seq().no_duplicates(),
                forall|i: int| 0 <= i < it.index() ==> active_squad_view(#[trigger] r@[i]) == active_squad_view(*it.seq()[i].1),
        {
            r.push(copy_squad(p.1));
        }
        proof {
            let v = spec_hash_map_iter(&self.squads).remaining();
            let m = self.squads@;
            let views = squad_views(r@);
            assert forall|i: int| 0 <= i < views.len() implies m.contains_key(#[trigger] views[i].id) && self.squads()[views[i].id]
                == views[i] by {
                assert(m.contains_key(*v[i].0));
                assert(m[*v[i].0].id == *v[i].0);
            }
            assert forall|i: int, j: int|
                0 <= i < views.len() && 0 <= j < views.len() && i != j implies squad_id_key()(views[i])
                != squad_id_key()(views[j]) by {
                if views[i].id == views[j].id {
                    assert(m.contains_key(*v[i].0));
                    assert(m.contains_key(*v[j].0));
                    assert(m[*v[i].0].id == *v[i].0);
                    assert(m[*v[j].0].id == *v[j].0);
                    assert(v[i] == v[j]);
                }
            }
            let km = keyed_map(views, squad_id_key());
            assert forall|k: u128| #[trigger] km.contains_key(k) <==> self.squads().contains_key(k) by {
                lemma_keyed_map_domain(views, squad_id_key(), k);
                if m.contains_key(k) {
                    assert(v.contains((&k, &m[k])));
                    let i = choose|i: int| 0 <= i < v.len() && v[i] == (&k, &m[k]);
                    assert(m[k].id == k);
                    assert(squad_id_key()(views[i]) == k);
                }
                if km.contains_key(k) {
                    let i = choose|i: int| 0 <= i < views.len() && squad_id_key()(views[i]) == k;
                    assert(m.contains_key(views[i].id));
                }
            }
            assert forall|k: u128| #[trigger] km.contains_key(k) implies km[k] == self.squads()[k] by {
                lemma_keyed_map_domain(views, squad_id_key(), k);
                let i = choose|i: int| 0 <= i < views.len() && squad_id_key()(views[i]) == k;
                lemma_keyed_map_value(views, squad_id_key(), i);
                assert(m.contains_key(views[i].id));
            }
            assert(km =~= self.squads());
            assert forall|i: int, k: int| 0 <= i < views.len() && 0 <= k < views[i].agents.len() implies known_status(
                #[trigger] views[i].agents[k].status,
            ) by {
                assert(m.contains_key(views[i].id));
                assert(self.squads()[views[i].id].agents[k] == views[i].agents[k]);
            }
        }
        r
    }
}

impl SwarmState {
    /// One task per agent of squad `squad_id`, in the squad's order, each
    /// waiting to start; none when there is no such squad.
    pub fn member_tasks(&self, squad_id: u128) -> (r: Vec<SquadMemberTask>)
        ensures
            !self.squads().contains_key(squad_id) ==> r@.len() == 0,
            self.squads().contains_key(squad_id) ==> {
                let agents = self.squads()[squad_id].agents;
                &&& r@.len() == agents.len()
                &&& forall|k: int|
                    0 <= k < agents.len() ==> {
                        let t = #[trigger] r@[k];
                        &&& t.squad_id() == squad_id
                        &&& t.agent_id() == agents[k].id
                        &&& t.role() == agents[k].role
                        &&& t.goal() == agents[k].goal
                        &&& t.phase() == MemberPhase::Waiting
                    }
            },
    {
        let mut r: Vec<SquadMemberTask> = Vec::new();
        match self.squads.get(&squad_id) {
            None => {},
            Some(s) => {
                let ghost agents = active_squad_view(*s).agents;
                let mut k: usize = 0;
                while k < s.agents.len()
                    invariant
                        k <= s.agents@.len(),
                        agents == active_squad_view(*s).agents,
                        r@.len() == k,
                        forall|q: int|
                            0 <= q < k ==> {
                                let t = #[trigger] r@[q];
                                &&& t.squad_id() == squad_id
                                &&& t.agent_id() == agents[q].id
                                &&& t.role() == agents[q].role
                                &&& t.goal() == agents[q].goal
                                &&& t.phase() == MemberPhase::Waiting
                            },
                    decreases s.agents@.len() - k,
                {
                    let a = &s.agents[k];
                    r.push(
                        SquadMemberTask {
                            squad_id,
                            agent_id: a.id,
                            role: a.role.clone(),
                            goal: a.goal.clone(),
                            phase: MemberPhase::Waiting,
                        },
                    );
                    k = k + 1;
                }
            },
        }
        r
    }
}

/// How far the task of one squad agent has got.
#[derive(Debug, Clone, Copy, PartialEq, Eq, Structural)]
pub enum MemberPhase {
    /// The agent has not started.
    Waiting,
    /// The agent was marked running and its run handed out.
    Running,
    /// The run returned and the agent was marked finished.
    Finished,
}

/// The task of one agent of a squad: it marks the agent running and hands out
/// the role and goal to run; once that run has returned, whatever it returned,
/// it marks the agent finished. An agent is marked finished only by its task,
/// and only after its run was handed out and came back.
pub struct SquadMemberTask {
    squad_id: u128,
    agent_id: u128,
    role: String,
    goal: String,
    phase: MemberPhase,
}

impl SquadMemberTask {
    pub closed spec fn squad_id(&self) -> u128 {
        self.squad_id
    }

    pub closed spec fn agent_id(&self) -> u128 {
        self.agent_id
    }

    pub closed spec fn role(&self) -> Seq<char> {
        self.role@
    }

    pub closed spec fn goal(&self) -> Seq<char> {
        self.goal@
    }

    pub closed spec fn phase(&self) -> MemberPhase {
        self.phase
    }

    /// Marks the agent running and gives the role and goal of the run to make.
    pub fn start(&mut self, state: &mut SwarmState) -> (run: (String, String))
        requires
            old(self).phase() == MemberPhase::Waiting,
        ensures
            final(self).phase() == MemberPhase::Running,
            final(self).squad_id() == old(self).squad_id(),
            final(self).agent_id() == old(self).agent_id(),
            final(self).role() == old(self).role(),
            final(self).goal() == old(self).goal(),
            run.0@ == old(self).role(),
            run.1@ == old(self).goal(),
            final(state).agents() == old(state).agents(),
            old(state).squads().contains_key(old(self).squad_id()) ==> final(state).squads() == old(state).squads().insert(
                old(self).squad_id(),
                ActiveSquadView {
                    agents: with_status(old(state).squads()[old(self).squad_id()].agents, old(self).agent_id(), "running"@),
                    ..old(state).squads()[old(self).squad_id()]
                },
            ),
            !old(state).squads().contains_key(old(self).squad_id()) ==> final(state).squads() == old(state).squads(),
    {
        state.mark_running(self.squad_id, self.agent_id);
        self.phase = MemberPhase::Running;
        (self.role.clone(), self.goal.clone())
    }

    /// Marks the agent finished, once the run `start` handed out has returned.
    pub fn on_run_returned(&mut self, state: &mut SwarmState)
        requires
            old(self).phase() == MemberPhase::Running,
        ensures
            final(self).phase() == MemberPhase::Finished,
            final(self).squad_id() == old(self).squad_id(),
            final(self).agent_id() == old(self).agent_id(),
            final(self).role() == old(self).role(),
            final(self).goal() == old(self).goal(),
            final(state).agents() == old(state).agents(),
            old(state).squads().contains_key(old(self).squad_id()) ==> final(state).squads() == old(state).squads().insert(
                old(self).squad_id(),
                ActiveSquadView {
                    agents: with_status(old(state).squads()[old(self).squad_id()].agents, old(self).agent_id(), "finished"@),
                    ..old(state).squads()[old(self).squad_id()]
                },
            ),
            !old(state).squads().contains_key(old(self).squad_id()) ==> final(state).squads() == old(state).squads(),
    {
        state.mark_finished(self.squad_id, self.agent_id);
        self.phase = MemberPhase::Finished;
    }
}

/// Once its task is over, an agent is no longer listed, whatever the swarm
/// held under its id before it was registered.
pub proof fn lemma_register_then_finish(before: Map<u128, Seq<char>>, id: u128, role: Seq<char>)
    ensures
        before.insert(id, role).remove(id) == before.remove(id),
        !before.insert(id, role).remove(id).contains_key(id),
{
    assert(before.insert(id, role).remove(id) =~= before.remove(id));
}

proof fn lemma_first_with_id_range(agents: Seq<ActiveSquadAgentView>, id: u128)
    ensures
        -1 <= first_with_id(agents, id) < agents.len(),
        first_with_id(agents, id) >= 0 ==> agents[first_with_id(agents, id)].id == id,
    decreases agents.len(),
{
    if agents.len() > 0 {
        lemma_first_with_id_range(agents.drop_last(), id);
    }
}

/// Setting a squad agent's status changes only that agent's status: the
/// squad's length, every agent's id, role and goal, and every other agent's
/// status stay as they were.
pub proof fn lemma_status_touches_one(agents: Seq<ActiveSquadAgentView>, id: u128, status: Seq<char>)
    ensures
        with_status(agents, id, status).len() == agents.len(),
        forall|k: int| 0 <= k < agents.len() ==> {
            let b = #[trigger] with_status(agents, id, status)[k];
            &&& b.id == agents[k].id
            &&& b.role == agents[k].role
            &&& b.goal == agents[k].goal
            &&& (k != first_with_id(agents, id) ==> b.status == agents[k].status)
            &&& (k == first_with_id(agents, id) ==> b.status == status)
        },
{
    lemma_first_with_id_range(agents, id);
}

/// A squad agent's status only moves forward: marking an agent running or
/// finished keeps every status among `starting`, `running` and `finished`, and
/// sets none further back than it was, unless a finished agent is marked
/// running again.
pub proof fn lemma_status_moves_forward(agents: Seq<ActiveSquadAgentView>, id: u128, status: Seq<char>)
    requires
        status == "running"@ || status == "finished"@,
        forall|k: int| 0 <= k < agents.len() ==> known_status(#[trigger] agents[k].status),
        first_with_id(agents, id) >= 0 ==> status_rank(agents[first_with_id(agents, id)].status) <= status_rank(
            status,
        ),
    ensures
        forall|k: int|
            0 <= k < agents.len() ==> {
                let b = #[trigger] with_status(agents, id, status)[k];
                &&& known_status(b.status)
                &&& status_rank(agents[k].status) <= status_rank(b.status)
            },
{
    lemma_status_touches_one(agents, id, status);
    assert forall|k: int| 0 <= k < agents.len() implies {
        let b = #[trigger] with_status(agents, id, status)[k];
        &&& known_status(b.status)
        &&& status_rank(agents[k].status) <= status_rank(b.status)
    } by {
        assert(known_status(agents[k].status));
    }
}

/// The role and task of a delegation request: its `role` and `task` strings,
/// `default` and nothing where it has none; `None` when it is not JSON.
pub open spec fn delegation_of(payload: Seq<char>) -> Option<(Seq<char>, Seq<char>)> {
    if crate::json::json_field_of(payload, "role"@) == crate::json::JsonFieldView::Invalid {
        None
    } else {
        Some(
            (
                match crate::json::str_field(payload, "role"@) { Some(r) => r, None => "default"@ },
                match crate::json::str_field(payload, "task"@) { Some(t) => t, None => Seq::empty() },
            ),
        )
    }
}

/// Reads a delegation request.
pub fn parse_delegation(payload: &str) -> (r: Option<(String, String)>)
    ensures
        match delegation_of(payload@) {
            Some((role, task)) => r matches Some(p) && p.0@ == role && p.1@ == task,
            None => r is None,
        },
{
    match crate::json::json_field(payload, "role") {
        crate::json::JsonField::Invalid => None,
        role_field => {
            let role = match role_field {
                crate::json::JsonField::Present(v) => match v.as_str {
                    Some(s) => s,
                    None => "default".to_owned(),
                },
                _ => "default".to_owned(),
            };
            let task = match crate::json::json_str_field(payload, "task") {
                Some(t) => t,
                None => String::new(),
            };
            Some((role, task))
        },
    }
}

// ───────────────────────── status reply ─────────────────────────

/// The `k`-th hexadecimal digit of `id`, most significant first (`0 <= k < 32`).
pub open spec fn uuid_nibble(id: u128, k: int) -> int {
    (id as int / pow2((124 - 4 * k) as nat) as int) % 16
}

/// Which digit the `p`-th character of a hyphenated UUID shows.
pub open spec fn uuid_digit_index(p: int) -> int {
    if p < 8 {
        p
    } else if p < 13 {
        p - 1
    } else if p < 18 {
        p - 2
    } else if p < 23 {
        p - 3
    } else {
        p - 4
    }
}

/// The hyphenated lower-case text of a UUID: its 32 hexadecimal digits, most
/// significant first, in groups of 8, 4, 4, 4 and 12 joined by `-`.
pub open spec fn uuid_text(id: u128) -> Seq<char> {
    Seq::new(
        36,
        |p: int|
            if p == 8 || p == 13 || p == 18 || p == 23 {
                '-'
            } else {
                hex_digit(uuid_nibble(id, uuid_digit_index(p)))
            },
    )
}

/// `uuid::Uuid::from_u128(id).to_string()`: the UUID whose big-endian value is
/// `id`, written hyphenated in lower case.
#[verifier::external_body]
fn uuid_string(id: u128) -> (s: String)
    ensures
        s@ == uuid_text(id),
{
    uuid::Uuid::from_u128(id).to_string()
}

/// Every item when none is missing; nothing otherwise.
pub open spec fn all_some(s: Seq<Option<Seq<char>>>) -> Option<Seq<Seq<char>>> {
    if forall|i: int| 0 <= i < s.len() ==> (#[trigger] s[i]) is Some {
        Some(Seq::new(s.len(), |i: int| s[i]->0))
    } else {
        None
    }
}

/// The JSON object of an active agent: its id as UUID text, and its role.
pub open spec fn agent_json(a: (u128, Seq<char>)) -> Option<Seq<char>> {
    json_raw_object_text(seq![("id"@, json_string_text(uuid_text(a.0))), ("role"@, json_string_text(a.1))])
}

/// The JSON object of an agent of a squad: id, role, goal and status.
pub open spec fn squad_agent_json(a: ActiveSquadAgentView) -> Option<Seq<char>> {
    json_raw_object_text(
        seq![
            ("id"@, json_string_text(uuid_text(a.id))),
            ("role"@, json_string_text(a.role)),
            ("goal"@, json_string_text(a.goal)),
            ("status"@, json_string_text(a.status)),
        ],
    )
}

/// The JSON object of an active squad: id, name and its agents in order.
pub open spec fn squad_json(s: ActiveSquadView) -> Option<Seq<char>> {
    match all_some(Seq::new(s.agents.len(), |i: int| squad_agent_json(s.agents[i]))) {
        Some(items) => match json_raw_array_text(items) {
            Some(arr) => json_raw_object_text(
                seq![("id"@, json_string_text(uuid_text(s.id))), ("name"@, json_string_text(s.name)), ("agents"@, arr)],
            ),
            None => None,
        },
        None => None,
    }
}

/// The answer to a status request: the active agents, the active squads and
/// the number of agents, as one JSON object.
pub open spec fn status_json(agents: Seq<(u128, Seq<char>)>, squads: Seq<ActiveSquadView>) -> Option<Seq<char>> {
    match (
        all_some(Seq::new(agents.len(), |i: int| agent_json(agents[i]))),
        all_some(Seq::new(squads.len(), |i: int| squad_json(squads[i]))),
    ) {
        (Some(a), Some(q)) => match (json_raw_array_text(a), json_raw_array_text(q)) {
            (Some(aa), Some(qa)) => json_raw_object_text(
                seq![("agents"@, aa), ("squads"@, qa), ("count"@, decimal(agents.len()))],
            ),
            _ => None,
        },
        _ => None,
    }
}

fn agent_json_exec(a: &SwarmAgent) -> (r: Option<String>)
    ensures
        opt_view(r) == agent_json((a.id, a.role@)),
{
    let mut fields: Vec<(String, String)> = Vec::new();
    let id = uuid_string(a.id);
    fields.push(("id".to_owned(), json_string(id.as_str())));
    fields.push(("role".to_owned(), json_string(a.role.as_str())));
    assert(field_views(fields@) =~= seq![
        ("id"@, json_string_text(uuid_text(a.id))),
        ("role"@, json_string_text(a.role@)),
    ]);
    json_raw_object(&fields)
}

fn squad_agent_json_exec(a: &ActiveSquadAgent) -> (r: Option<String>)
    ensures
        opt_view(r) == squad_agent_json(squad_agent_view(*a)),
{
    let mut fields: Vec<(String, String)> = Vec::new();
    let id = uuid_string(a.id);
    fields.push(("id".to_owned(), json_string(id.as_str())));
    fields.push(("role".to_owned(), json_string(a.role.as_str())));
    fields.push(("goal".to_owned(), json_string(a.goal.as_str())));
    fields.push(("status".to_owned(), json_string(a.status.as_str())));
    assert(field_views(fields@) =~= seq![
        ("id"@, json_string_text(uuid_text(a.id))),
        ("role"@, json_string_text(a.role@)),
        ("goal"@, json_string_text(a.goal@)),
        ("status"@, json_string_text(a.status@)),
    ]);
    json_raw_object(&fields)
}

fn squad_json_exec(s: &ActiveSquad) -> (r: Option<String>)
    ensures
        opt_view(r) == squad_json(active_squad_view(*s)),
{
    let ghost sv = active_squad_view(*s);
    let ghost parts = Seq::new(sv.agents.len(), |i: int| squad_agent_json(sv.agents[i]));
    let mut items: Vec<String> = Vec::new();
    let mut i: usize = 0;
    while i < s.agents.len()
        invariant
            i <= s.agents@.len(),
            sv == active_squad_view(*s),
            parts == Seq::new(sv.agents.len(), |k: int| squad_agent_json(sv.agents[k])),
            items@.len() == i,
            forall|k: int| 0 <= k < i ==> (#[trigger] parts[k]) == Some(items@[k]@),
        decreases s.agents@.len() - i,
    {
        match squad_agent_json_exec(&s.agents[i]) {
            Some(t) => {
                items.push(t);
            },
            None => {
                assert(parts[i as int] is None);
                return None;
            },
        }
        i = i + 1;
    }
    assert(all_some(parts) == Some(strings_view(items@))) by {
        assert(strings_view(items@) =~= Seq::new(parts.len(), |k: int| parts[k]->0));
    }
    match json_raw_array(&items) {
        Some(arr) => {
            let mut fields: Vec<(String, String)> = Vec::new();
            let id = uuid_string(s.id);
            fields.push(("id".to_owned(), json_string(id.as_str())));
            fields.push(("name".to_owned(), json_string(s.name.as_str())));
            let ghost av = arr@;
            fields.push(("agents".to_owned(), arr));
            assert(field_views(fields@) =~= seq![
                ("id"@, json_string_text(uuid_text(s.id))),
                ("name"@, json_string_text(s.name@)),
                ("agents"@, av),
            ]);
            json_raw_object(&fields)
        },
        None => None,
    }
}

/// The answer to a status request, as the swarm's status listener sends it:
/// `{"agents": [...], "squads": [...], "count": n}` with each agent's id and
/// role, each squad's id, name and agents, and the number of agents.
pub fn status_reply(agents: &Vec<SwarmAgent>, squads: &Vec<ActiveSquad>) -> (r: Option<String>)
    ensures
        opt_view(r) == status_json(agent_pairs(agents@), squad_views(squads@)),
{
    let ghost ap = agent_pairs(agents@);
    let ghost sq = squad_views(squads@);
    let ghost aparts = Seq::new(ap.len(), |k: int| agent_json(ap[k]));
    let ghost sparts = Seq::new(sq.len(), |k: int| squad_json(sq[k]));
    let mut a_items: Vec<String> = Vec::new();
    let mut i: usize = 0;
    while i < agents.len()
        invariant
            i <= agents@.len(),
            ap == agent_pairs(agents@),
            aparts == Seq::new(ap.len(), |k: int| agent_json(ap[k])),
            a_items@.len() == i,
            forall|k: int| 0 <= k < i ==> (#[trigger] aparts[k]) == Some(a_items@[k]@),
        decreases agents@.len() - i,
    {
        match agent_json_exec(&agents[i]) {
            Some(t) => {
                a_items.push(t);
            },
            None => {
                assert(aparts[i as int] is None);
                return None;
            },
        }
        i = i + 1;
    }
    assert(all_some(aparts) == Some(strings_view(a_items@))) by {
        assert(strings_view(a_items@) =~= Seq::new(aparts.len(), |k: int| aparts[k]->0));
    }
    let mut s_items: Vec<String> = Vec::new();
    let mut j: usize = 0;
    while j < squads.len()
        invariant
            j <= squads@.len(),
            sq == squad_views(squads@),
            sparts == Seq::new(sq.len(), |k: int| squad_json(sq[k])),
            s_items@.len() == j,
            forall|k: int| 0 <= k < j ==> (#[trigger] sparts[k]) == Some(s_items@[k]@),
        decreases squads@.len() - j,
    {
        match squad_json_exec(&squads[j]) {
            Some(t) => {
                s_items.push(t);
            },
            None => {
                assert(sparts[j as int] is None);
                return None;
            },
        }
        j = j + 1;
    }
    assert(all_some(sparts) == Some(strings_view(s_items@))) by {
        assert(strings_view(s_items@) =~= Seq::new(sparts.len(), |k: int| sparts[k]->0));
    }
    let aa = match json_raw_array(&a_items) {
        Some(x) => x,
        None => {
            return None;
        },
    };
    let qa = match json_raw_array(&s_items) {
        Some(x) => x,
        None => {
            return None;
        },
    };
    let mut fields: Vec<(String, String)> = Vec::new();
    let ghost aav = aa@;
    let ghost qav = qa@;
    fields.push(("agents".to_owned(), aa));
    fields.push(("squads".to_owned(), qa));
    fields.push(("count".to_owned(), decimal_string(agents.len() as u64)));
    assert(field_views(fields@) =~= seq![("agents"@, aav), ("squads"@, qav), ("count"@, decimal(ap.len()))]);
    json_raw_object(&fields)
}

} // verus!
