//! The agent playground: an arena that runs rounds on a 4-6-4 native mesh,
//! and battles whose report names the agent with the best round.

use vstd::prelude::*;
use crate::neural::{NeuralMesh, best_index, is_last_max};
use crate::text::{decimal, push_decimal};

verus! {

/// An arena whose rounds run on one mesh.
#[derive(Clone, Debug)]
pub struct AgentArena {
    pub mesh: NeuralMesh,
}

/// The outcome of a battle.
#[derive(Clone, Debug)]
pub struct BattleReport {
    pub winner: String,
    pub rounds: usize,
    pub summary: String,
}

/// A battle between agents in an arena.
#[derive(Clone, Debug)]
pub struct AgentBattle {
    pub arena: AgentArena,
}

/// The summary of a battle of `rounds` rounds.
pub open spec fn summary_text(rounds: nat) -> Seq<char> {
    "battle complete with "@ + decimal(rounds) + " rounds"@
}

/// The mesh that arenas run on: 4 inputs, 6 hidden units, 4 outputs, native.
pub open spec fn is_arena_mesh(m: NeuralMesh) -> bool {
    &&& m.input_dim == 4
    &&& m.hidden_dim == 6
    &&& m.output_dim == 4
    &&& m.backend is Native
}

impl AgentArena {
    pub fn new() -> (a: Self)
        ensures
            is_arena_mesh(a.mesh),
    {
        AgentArena { mesh: NeuralMesh::new(4, 6, 4) }
    }
}

impl AgentBattle {
    pub fn new() -> (b: Self)
        ensures
            is_arena_mesh(b.arena.mesh),
    {
        AgentBattle { arena: AgentArena::new() }
    }

    /// The report of a battle in which `agents[k]` played one round and
    /// scored a confidence whose order key is `confidence_keys[k]`: one round
    /// per agent, and the winner is the agent with the greatest confidence
    /// (the last such agent where several share it).
    pub fn conclude(&self, agents: &Vec<String>, confidence_keys: &Vec<u64>) -> (r: BattleReport)
        requires
            agents@.len() == confidence_keys@.len(),
            agents@.len() > 0,
        ensures
            r.rounds == agents@.len(),
            exists|i: int| is_last_max(confidence_keys@, i) && r.winner@ == agents@[i]@,
            r.summary@ == summary_text(agents@.len()),
    {
        let w = best_index(confidence_keys);
        let rounds = agents.len();
        let mut summary = String::from_str("battle complete with ");
        push_decimal(&mut summary, rounds as u64);
        summary.append(" rounds");
        let winner = agents[w].clone();
        BattleReport { winner, rounds, summary }
    }
}

/// At most one index is the last greatest, so a battle's winner is
/// determined by the scores.
pub proof fn lemma_last_max_unique(keys: Seq<u64>, i: int, j: int)
    requires
        is_last_max(keys, i),
        is_last_max(keys, j),
    ensures
        i == j,
{
    assert(keys[i] <= keys[j] && keys[j] <= keys[i]);
}

} // verus!
