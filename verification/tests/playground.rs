use hatcher::neural::InferenceBackend;
use hatcher::playground::{AgentArena, AgentBattle};

fn roster() -> Vec<String> {
    vec!["guardian".to_string(), "critic".to_string(), "explorer".to_string()]
}

#[test]
fn arena_runs_a_native_4_6_4_mesh() {
    let arena = AgentArena::new();
    assert_eq!((arena.mesh.input_dim, arena.mesh.hidden_dim, arena.mesh.output_dim), (4, 6, 4));
    assert!(matches!(arena.mesh.backend, InferenceBackend::Native));
    let battle = AgentBattle::new();
    assert_eq!(battle.arena.mesh.output_dim, 4);
}

#[test]
fn battle_report_names_the_best_agent() {
    let battle = AgentBattle::new();
    let report = battle.conclude(&roster(), &vec![3, 9, 5]);
    assert_eq!(report.winner, "critic");
    assert_eq!(report.rounds, 3);
    assert_eq!(report.summary, "battle complete with 3 rounds");
    assert!(!report.winner.is_empty());
}

#[test]
fn battle_ties_go_to_the_later_agent() {
    let battle = AgentBattle::new();
    let report = battle.conclude(&roster(), &vec![9, 9, 1]);
    assert_eq!(report.winner, "critic");
}

#[test]
fn battle_of_one() {
    let battle = AgentBattle::new();
    let report = battle.conclude(&vec!["solo".to_string()], &vec![0]);
    assert_eq!(report.winner, "solo");
    assert_eq!(report.rounds, 1);
    assert_eq!(report.summary, "battle complete with 1 rounds");
}

#[test]
fn battle_summary_counts_many_rounds() {
    let battle = AgentBattle::new();
    let agents: Vec<String> = (0..12).map(|i| format!("agent-{}", i)).collect();
    let keys: Vec<u64> = (0..12).collect();
    let report = battle.conclude(&agents, &keys);
    assert_eq!(report.winner, "agent-11");
    assert_eq!(report.summary, "battle complete with 12 rounds");
}
