use hatcher::agents::{AgentRole, ExecutionMode, ModelSpec};
use hatcher::neural::{action_label, best_index, rationale, trace_id, InferenceBackend, NeuralMesh};

#[test]
fn new_mesh_is_native_with_given_widths() {
    let mesh = NeuralMesh::new(4, 6, 4);
    assert_eq!((mesh.input_dim, mesh.hidden_dim, mesh.output_dim), (4, 6, 4));
    assert!(matches!(mesh.backend, InferenceBackend::Native));
    let mesh = NeuralMesh::new(7, 0, 2);
    assert_eq!((mesh.input_dim, mesh.hidden_dim, mesh.output_dim), (7, 0, 2));
}

#[test]
fn onnx_mesh_keeps_model_path() {
    let mesh = NeuralMesh::with_onnx("models/mesh.onnx");
    assert_eq!((mesh.input_dim, mesh.hidden_dim, mesh.output_dim), (4, 6, 4));
    match mesh.backend {
        InferenceBackend::Onnx { model_path } => assert_eq!(model_path, "models/mesh.onnx"),
        InferenceBackend::Native => panic!("expected the onnx backend"),
    }
}

#[test]
fn best_index_takes_the_last_greatest() {
    assert_eq!(best_index(&vec![]), 0);
    assert_eq!(best_index(&vec![5]), 0);
    assert_eq!(best_index(&vec![1, 9, 3, 2]), 1);
    assert_eq!(best_index(&vec![4, 9, 3, 9]), 3);
    assert_eq!(best_index(&vec![7, 7, 7]), 2);
}

#[test]
fn actions_by_index() {
    assert_eq!(action_label(0), "observe");
    assert_eq!(action_label(1), "stabilize");
    assert_eq!(action_label(2), "escalate");
    assert_eq!(action_label(3), "delegate");
    assert_eq!(action_label(4), "review");
    assert_eq!(action_label(99), "review");
}

#[test]
fn trace_id_counts_bytes() {
    assert_eq!(trace_id("agent-1"), "trace-7");
    assert_eq!(trace_id(""), "trace-0");
    assert_eq!(trace_id("guardian-01"), "trace-11");
    assert_eq!(trace_id("é"), "trace-2");
    assert_eq!(trace_id(&"x".repeat(1234)), "trace-1234");
}

#[test]
fn rationale_names_role_and_mode() {
    assert_eq!(
        rationale(AgentRole::Orchestrator, ExecutionMode::Controlled),
        "Rust neural mesh evaluated Orchestrator under Controlled"
    );
    assert_eq!(
        rationale(AgentRole::Explorer, ExecutionMode::Sandbox),
        "Rust neural mesh evaluated Explorer under Sandbox"
    );
    for role in [
        AgentRole::Orchestrator,
        AgentRole::Executor,
        AgentRole::Critic,
        AgentRole::Explorer,
        AgentRole::Guardian,
    ] {
        for mode in [ExecutionMode::Sandbox, ExecutionMode::Controlled, ExecutionMode::Production] {
            assert_eq!(
                rationale(role, mode),
                format!("Rust neural mesh evaluated {:?} under {:?}", role, mode)
            );
        }
    }
}

#[test]
fn every_mode_is_accepted() {
    assert!(ExecutionMode::Sandbox.is_accepted());
    assert!(ExecutionMode::Controlled.is_accepted());
    assert!(ExecutionMode::Production.is_accepted());
}

#[test]
fn frame_decision_for_the_sample_request() {
    let mesh = NeuralMesh::new(4, 6, 4);
    let frame = mesh.frame_decision("agent-1", AgentRole::Orchestrator, ExecutionMode::Controlled, &vec![
        10, 20, 40, 30,
    ]);
    assert_eq!(frame.best_index, 2);
    assert!(frame.accepted);
    assert_eq!(frame.action, "escalate");
    assert_eq!(frame.rationale, "Rust neural mesh evaluated Orchestrator under Controlled");
    assert_eq!(frame.trace_id, "trace-7");
}

#[test]
fn model_spec_holds_its_fields() {
    let spec = ModelSpec {
        name: "mesh".to_string(),
        version: "1.0".to_string(),
        input_dim: 4,
        hidden_dim: 6,
        output_dim: 4,
    };
    let copy = spec.clone();
    assert_eq!(copy.name, "mesh");
    assert_eq!(copy.output_dim, 4);
}
