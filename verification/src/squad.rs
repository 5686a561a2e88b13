//! Squads: groups of agents that work on a domain together.

use vstd::prelude::*;
use crate::text::{clone_opt_string, opt_view};

verus! {

/// A definition of an agent within a squad.
#[derive(Debug)]
pub struct SquadAgentDef {
    pub role: String,
    pub goal: String,
    pub name: Option<String>,
    pub specialization: Option<String>,
}

pub struct SquadAgentDefView {
    pub role: Seq<char>,
    pub goal: Seq<char>,
    pub name: Option<Seq<char>>,
    pub specialization: Option<Seq<char>>,
}

impl View for SquadAgentDef {
    type V = SquadAgentDefView;

    open spec fn view(&self) -> SquadAgentDefView {
        SquadAgentDefView {
            role: self.role@,
            goal: self.goal@,
            name: opt_view(self.name),
            specialization: opt_view(self.specialization),
        }
    }
}

impl SquadAgentDef {
    /// A copy of this definition.
    pub fn copy(&self) -> (r: Self)
        ensures
            r@ == self@,
    {
        SquadAgentDef {
            role: self.role.clone(),
            goal: self.goal.clone(),
            name: clone_opt_string(&self.name),
            specialization: clone_opt_string(&self.specialization),
        }
    }
}

/// A group of agents (squad) that work together in parallel.
#[derive(Debug)]
pub struct Squad {
    pub name: String,
    pub description: Option<String>,
    pub agents: Vec<SquadAgentDef>,
}

pub struct SquadView {
    pub name: Seq<char>,
    pub description: Option<Seq<char>>,
    pub agents: Seq<SquadAgentDefView>,
}

/// The views of a sequence of agent definitions.
pub open spec fn def_views(v: Seq<SquadAgentDef>) -> Seq<SquadAgentDefView> {
    Seq::new(v.len(), |i: int| v[i]@)
}

impl View for Squad {
    type V = SquadView;

    open spec fn view(&self) -> SquadView {
        SquadView { name: self.name@, description: opt_view(self.description), agents: def_views(self.agents@) }
    }
}

impl Squad {
    /// A copy of this squad.
    pub fn copy(&self) -> (r: Self)
        ensures
            r@ == self@,
    {
        let mut agents: Vec<SquadAgentDef> = Vec::new();
        let mut i: usize = 0;
        while i < self.agents.len()
            invariant
                i <= self.agents@.len(),
                agents@.len() == i,
                forall|k: int| 0 <= k < i ==> #[trigger] agents@[k]@ == self.agents@[k]@,
            decreases self.agents@.len() - i,
        {
            agents.push(self.agents[i].copy());
            i = i + 1;
        }
        assert(def_views(agents@) =~= def_views(self.agents@));
        Squad { name: self.name.clone(), description: clone_opt_string(&self.description), agents }
    }
}

/// The runtime state of a squad agent; `id` is the UUID as a 128-bit integer.
#[derive(Debug)]
pub struct ActiveSquadAgent {
    pub id: u128,
    pub role: String,
    pub goal: String,
    pub status: String,
}

/// The runtime state of an active squad; `id` is the UUID as a 128-bit integer.
#[derive(Debug)]
pub struct ActiveSquad {
    pub id: u128,
    pub name: String,
    pub agents: Vec<ActiveSquadAgent>,
}

} // verus!
