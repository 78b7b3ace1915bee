//! The typed contract between the Hatcher control plane and the mesh:
//! agent roles, execution modes and model descriptions.

use vstd::prelude::*;

verus! {

/// The role an agent plays in the mesh.
#[derive(Clone, Copy, Debug, PartialEq, Eq, Structural)]
pub enum AgentRole {
    Orchestrator,
    Executor,
    Critic,
    Explorer,
    Guardian,
}

/// How far a request's effects may reach.
#[derive(Clone, Copy, Debug, PartialEq, Eq, Structural)]
pub enum ExecutionMode {
    Sandbox,
    Controlled,
    Production,
}

/// A description of a model that the mesh can run.
#[derive(Clone, Debug)]
pub struct ModelSpec {
    pub name: String,
    pub version: String,
    pub input_dim: usize,
    pub hidden_dim: usize,
    pub output_dim: usize,
}

/// The name of a role, as `{:?}` writes it.
pub open spec fn role_name(r: AgentRole) -> Seq<char> {
    match r {
        AgentRole::Orchestrator => "Orchestrator"@,
        AgentRole::Executor => "Executor"@,
        AgentRole::Critic => "Critic"@,
        AgentRole::Explorer => "Explorer"@,
        AgentRole::Guardian => "Guardian"@,
    }
}

/// The name of a mode, as `{:?}` writes it.
pub open spec fn mode_name(m: ExecutionMode) -> Seq<char> {
    match m {
        ExecutionMode::Sandbox => "Sandbox"@,
        ExecutionMode::Controlled => "Controlled"@,
        ExecutionMode::Production => "Production"@,
    }
}

/// Whether the mesh accepts requests made in mode `m`.
pub open spec fn admits(m: ExecutionMode) -> bool {
    match m {
        ExecutionMode::Sandbox => true,
        ExecutionMode::Controlled => true,
        ExecutionMode::Production => true,
    }
}

impl AgentRole {
    /// The role's name.
    pub fn label(&self) -> (s: &'static str)
        ensures
            s@ == role_name(*self),
    {
        match self {
            AgentRole::Orchestrator => "Orchestrator",
            AgentRole::Executor => "Executor",
            AgentRole::Critic => "Critic",
            AgentRole::Explorer => "Explorer",
            AgentRole::Guardian => "Guardian",
        }
    }
}

impl ExecutionMode {
    /// The mode's name.
    pub fn label(&self) -> (s: &'static str)
        ensures
            s@ == mode_name(*self),
    {
        match self {
            ExecutionMode::Sandbox => "Sandbox",
            ExecutionMode::Controlled => "Controlled",
            ExecutionMode::Production => "Production",
        }
    }

    /// Whether the mesh accepts a request made in this mode.
    pub fn is_accepted(&self) -> (b: bool)
        ensures
            b == admits(*self),
    {
        match self {
            ExecutionMode::Sandbox => true,
            ExecutionMode::Controlled => true,
            ExecutionMode::Production => true,
        }
    }
}

/// Every execution mode is accepted.
pub proof fn lemma_every_mode_accepted(m: ExecutionMode)
    ensures
        admits(m),
{
}

} // verus!
