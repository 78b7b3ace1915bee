//! The neural mesh: its shape and backend, and the parts of an evaluation
//! that decide on integers and text: which score wins, the action that the
//! winning index names, the rationale and the trace id.
//!
//! Scores themselves are floating point and are computed outside this
//! library; they arrive here as order keys, one `u64` per score, that order
//! as the scores do.

use vstd::prelude::*;
use crate::agents::{AgentRole, ExecutionMode, admits, mode_name, role_name};
use crate::text::{decimal, push_decimal};

verus! {

/// Where inference runs.
#[derive(Clone, Debug)]
pub enum InferenceBackend {
    Native,
    Onnx { model_path: String },
}

/// A neural mesh of the given layer widths on a backend.
#[derive(Clone, Debug)]
pub struct NeuralMesh {
    pub input_dim: usize,
    pub hidden_dim: usize,
    pub output_dim: usize,
    pub backend: InferenceBackend,
}

/// The non-numeric parts of a mesh decision.
#[derive(Clone, Debug)]
pub struct DecisionFrame {
    /// The index of the winning score.
    pub best_index: usize,
    /// Whether the request is accepted.
    pub accepted: bool,
    /// The action that the winning index names.
    pub action: String,
    /// Why the decision was made.
    pub rationale: String,
    /// The trace id of the request.
    pub trace_id: String,
}

/// `i` is the last index at which `keys` takes its greatest value.
pub open spec fn is_last_max(keys: Seq<u64>, i: int) -> bool {
    &&& 0 <= i < keys.len()
    &&& forall|j: int| 0 <= j < keys.len() ==> keys[j] <= keys[i]
    &&& forall|j: int| i < j < keys.len() ==> keys[j] < keys[i]
}

/// The best index of a longer sequence of keys follows from the best index
/// of its prefix: a new key at least as great as the best wins, a smaller
/// one leaves the best where it was.
pub proof fn lemma_last_max_push(keys: Seq<u64>, i: int, x: u64)
    requires
        is_last_max(keys, i),
    ensures
        x >= keys[i] ==> is_last_max(keys.push(x), keys.len() as int),
        x < keys[i] ==> is_last_max(keys.push(x), i),
{
    let k = keys.push(x);
    assert forall|j: int| 0 <= j < keys.len() implies #[trigger] k[j] == keys[j] by {}
}

/// A single key is its own best.
pub proof fn lemma_last_max_single(x: u64)
    ensures
        is_last_max(seq![x], 0),
{
}

/// The action that output index `i` names.
pub open spec fn action_name(i: nat) -> Seq<char> {
    if i == 0 {
        "observe"@
    } else if i == 1 {
        "stabilize"@
    } else if i == 2 {
        "escalate"@
    } else if i == 3 {
        "delegate"@
    } else {
        "review"@
    }
}

/// The trace id of a request whose agent id is `agent_bytes` long in UTF-8.
pub open spec fn trace_text(agent_bytes: nat) -> Seq<char> {
    "trace-"@ + decimal(agent_bytes)
}

/// The rationale of a decision for an agent of role `r` in mode `m`.
pub open spec fn rationale_text(r: AgentRole, m: ExecutionMode) -> Seq<char> {
    "Rust neural mesh evaluated "@ + role_name(r) + " under "@ + mode_name(m)
}

/// The index of the greatest key, the last one where several are greatest
/// (as `Iterator::max_by` picks); 0 for no keys.
pub fn best_index(keys: &Vec<u64>) -> (i: usize)
    ensures
        keys@.len() == 0 ==> i == 0,
        keys@.len() > 0 ==> is_last_max(keys@, i as int),
{
    if keys.len() == 0 {
        return 0;
    }
    let mut best: usize = 0;
    let mut k: usize = 1;
    while k < keys.len()
        invariant
            1 <= k <= keys@.len(),
            best < k,
            forall|j: int| 0 <= j < k ==> keys@[j] <= keys@[best as int],
            forall|j: int| best < j < k ==> keys@[j] < keys@[best as int],
        decreases keys@.len() - k,
    {
        if keys[k] >= keys[best] {
            best = k;
        }
        k = k + 1;
    }
    best
}

/// The action that output index `index` names.
pub fn action_label(index: usize) -> (s: &'static str)
    ensures
        s@ == action_name(index as nat),
{
    match index {
        0 => "observe",
        1 => "stabilize",
        2 => "escalate",
        3 => "delegate",
        _ => "review",
    }
}

/// `trace-` followed by the length of `agent_id` in bytes.
pub fn trace_id(agent_id: &str) -> (s: String)
    ensures
        s@ == trace_text(agent_id.len() as nat),
{
    let mut s = String::from_str("trace-");
    push_decimal(&mut s, agent_id.len() as u64);
    s
}

/// The rationale of a decision for an agent of role `role` in mode `mode`.
pub fn rationale(role: AgentRole, mode: ExecutionMode) -> (s: String)
    ensures
        s@ == rationale_text(role, mode),
{
    let mut s = String::from_str("Rust neural mesh evaluated ");
    s.append(role.label());
    s.append(" under ");
    s.append(mode.label());
    s
}

impl NeuralMesh {
    /// A mesh of the given widths on the native backend.
    pub fn new(input_dim: usize, hidden_dim: usize, output_dim: usize) -> (m: Self)
        ensures
            m.input_dim == input_dim,
            m.hidden_dim == hidden_dim,
            m.output_dim == output_dim,
            m.backend is Native,
    {
        NeuralMesh { input_dim, hidden_dim, output_dim, backend: InferenceBackend::Native }
    }

    /// A 4-6-4 mesh on the ONNX backend, loading the model at `model_path`.
    pub fn with_onnx(model_path: &str) -> (m: Self)
        ensures
            m.input_dim == 4,
            m.hidden_dim == 6,
            m.output_dim == 4,
            m.backend matches InferenceBackend::Onnx { model_path: p } && p@ == model_path@,
    {
        NeuralMesh {
            input_dim: 4,
            hidden_dim: 6,
            output_dim: 4,
            backend: InferenceBackend::Onnx { model_path: String::from_str(model_path) },
        }
    }

    /// The non-numeric parts of this mesh's decision on a request by
    /// `agent_id`, of role `role`, in mode `mode`, whose output scores order
    /// as `score_keys`.
    pub fn frame_decision(
        &self,
        agent_id: &str,
        role: AgentRole,
        mode: ExecutionMode,
        score_keys: &Vec<u64>,
    ) -> (f: DecisionFrame)
        requires
            score_keys@.len() == self.output_dim,
            self.output_dim > 0,
        ensures
            is_last_max(score_keys@, f.best_index as int),
            f.accepted == admits(mode),
            f.action@ == action_name(f.best_index as nat),
            f.rationale@ == rationale_text(role, mode),
            f.trace_id@ == trace_text(agent_id.len() as nat),
    {
        let best = best_index(score_keys);
        DecisionFrame {
            best_index: best,
            accepted: mode.is_accepted(),
            action: String::from_str(action_label(best)),
            rationale: rationale(role, mode),
            trace_id: trace_id(agent_id),
        }
    }
}

} // verus!
