use bllvm_commons::build_monitor::{monitor_step, recorded_status, workflow_run_status, BuildState, BuildStatus, MonitorStep};
use bllvm_commons::dependency::DependencyGraph;
use std::collections::HashSet;

fn position(order: &[String], name: &str) -> usize {
    order.iter().position(|r| r == name).unwrap()
}

#[test]
fn test_build_order() {
    let graph = DependencyGraph::new("BTCDecoded".to_string());
    let order = graph.get_build_order().unwrap();
    assert!(position(&order, "bllvm-consensus") < position(&order, "bllvm-protocol"));
    assert!(position(&order, "bllvm-protocol") < position(&order, "bllvm-node"));
}

#[test]
fn test_dependencies() {
    let graph = DependencyGraph::new("BTCDecoded".to_string());
    let deps = graph.get_dependencies("bllvm-node");
    assert!(deps.contains(&"bllvm-protocol".to_string()));
    assert!(deps.contains(&"bllvm-consensus".to_string()));
}

#[test]
fn test_dependents() {
    let graph = DependencyGraph::new("BTCDecoded".to_string());
    let dependents = graph.get_dependents("bllvm-consensus");
    assert!(dependents.contains(&"bllvm-protocol".to_string()));
}

#[test]
fn test_dependency_graph_build_order() {
    let graph = DependencyGraph::new("BTCDecoded".to_string());
    let order = graph.get_build_order().unwrap();
    let consensus_pos = position(&order, "bllvm-consensus");
    assert_eq!(consensus_pos, 0, "bllvm-consensus should be first");
    let protocol_pos = position(&order, "bllvm-protocol");
    assert!(protocol_pos > consensus_pos, "bllvm-protocol should come after bllvm-consensus");
    let node_pos = position(&order, "bllvm-node");
    assert!(node_pos > protocol_pos, "bllvm-node should come after bllvm-protocol");
}

#[test]
fn test_dependency_graph_no_circular_dependencies() {
    let graph = DependencyGraph::new("BTCDecoded".to_string());
    let order = graph.get_build_order();
    assert!(order.is_ok(), "Should not have circular dependencies");
}

#[test]
fn test_dependency_graph_all_repos_included() {
    let graph = DependencyGraph::new("BTCDecoded".to_string());
    let order = graph.get_build_order().unwrap();
    let repos = graph.repositories();
    for repo in &repos {
        assert!(order.contains(repo), "Repository {} should be in build order", repo);
    }
    let unique: HashSet<_> = order.iter().collect();
    assert_eq!(unique.len(), order.len(), "Build order should not have duplicates");
}

#[test]
fn test_dependency_graph_dependencies_respected() {
    let graph = DependencyGraph::new("BTCDecoded".to_string());
    let order = graph.get_build_order().unwrap();
    for (repo, deps) in [
        ("bllvm-protocol", vec!["bllvm-consensus"]),
        ("bllvm-node", vec!["bllvm-protocol", "bllvm-consensus"]),
        ("bllvm-commons", vec!["bllvm-sdk"]),
        ("bllvm", vec!["bllvm-node"]),
    ] {
        let repo_pos = position(&order, repo);
        for dep in deps {
            let dep_pos = position(&order, dep);
            assert!(dep_pos < repo_pos, "Dependency {} should come before {}", dep, repo);
        }
    }
}

#[test]
fn test_parallel_groups() {
    let graph = DependencyGraph::new("BTCDecoded".to_string());
    let groups = graph.get_parallel_groups().unwrap();
    assert!(!groups.is_empty(), "Should have at least one parallel group");
    let first_group = &groups[0];
    assert!(
        first_group.contains(&"bllvm-consensus".to_string())
            || first_group.contains(&"bllvm-sdk".to_string()),
        "First group should contain repos with no dependencies"
    );
}

#[test]
fn parallel_groups_of_standard_graph() {
    let graph = DependencyGraph::new("BTCDecoded".to_string());
    let groups = graph.get_parallel_groups().unwrap();
    let expected: Vec<Vec<String>> = vec![
        vec!["bllvm-consensus".into(), "bllvm-sdk".into()],
        vec!["bllvm-protocol".into(), "bllvm-commons".into()],
        vec!["bllvm-node".into()],
        vec!["bllvm".into()],
    ];
    assert_eq!(groups, expected);
    // every dependency sits in an earlier group than its dependent
    let group_of = |name: &str| groups.iter().position(|g| g.iter().any(|r| r == name)).unwrap();
    for repo in graph.repositories() {
        for dep in graph.get_dependencies(&repo) {
            assert!(group_of(&dep) < group_of(&repo), "{} must come before {}", dep, repo);
        }
    }
    assert!(group_of("bllvm-node") < group_of("bllvm"));
}

#[test]
fn cycle_is_refused() {
    let mut graph = DependencyGraph::new("BTCDecoded".to_string());
    graph.add_dependency("bllvm-consensus".to_string(), vec!["bllvm-node".to_string()]);
    let err = graph.get_build_order().unwrap_err();
    assert_eq!(err, "Circular dependency detected in build graph");
    assert_eq!(graph.get_parallel_groups().unwrap_err(), "Circular dependency detected in build graph");
}

#[test]
fn self_dependency_is_a_cycle() {
    let mut graph = DependencyGraph::new("org".to_string());
    graph.add_dependency("bllvm-sdk".to_string(), vec!["bllvm-sdk".to_string()]);
    assert!(graph.get_build_order().is_err());
}

#[test]
fn unknown_dependencies_are_ignored_in_order_but_block_grouping() {
    let mut graph = DependencyGraph::new("org".to_string());
    graph.add_dependency("extra".to_string(), vec!["not-a-repo".to_string()]);
    let order = graph.get_build_order().unwrap();
    assert_eq!(order.len(), 7);
    assert!(order.contains(&"extra".to_string()));
    let groups = graph.get_parallel_groups().unwrap();
    let placed: Vec<&String> = groups.iter().flatten().collect();
    assert_eq!(placed.len(), 6);
    assert!(!placed.contains(&&"extra".to_string()));
}

#[test]
fn add_dependency_replaces_and_appends() {
    let mut graph = DependencyGraph::new("org".to_string());
    graph.add_dependency("bllvm".to_string(), vec![]);
    assert!(graph.get_dependencies("bllvm").is_empty());
    assert_eq!(graph.repositories().len(), 6);
    graph.add_dependency("new-repo".to_string(), vec!["bllvm".to_string()]);
    assert_eq!(graph.repositories().len(), 7);
    assert_eq!(graph.get_dependents("bllvm"), vec!["new-repo".to_string()]);
    assert!(graph.get_dependencies("missing").is_empty());
}

#[test]
fn test_build_status_equality() {
    assert_eq!(BuildStatus::Success, BuildStatus::Success);
    assert_ne!(BuildStatus::Success, BuildStatus::Failure);
    assert_ne!(BuildStatus::Pending, BuildStatus::InProgress);
}

#[test]
fn test_build_state_creation() {
    let state = BuildState {
        repo: "test-repo".to_string(),
        status: BuildStatus::Pending,
        workflow_run_id: Some(12345),
        started_at: None,
        completed_at: None,
        error: None,
        retry_count: 0,
    };
    assert_eq!(state.repo, "test-repo");
    assert_eq!(state.status, BuildStatus::Pending);
    assert_eq!(state.workflow_run_id, Some(12345));
    assert_eq!(state.retry_count, 0);
}

#[test]
fn workflow_run_status_mapping() {
    assert_eq!(workflow_run_status("Completed", Some("Success")), BuildStatus::Success);
    assert_eq!(workflow_run_status("Completed", Some("Failure")), BuildStatus::Failure);
    assert_eq!(workflow_run_status("Completed", Some("Cancelled")), BuildStatus::Cancelled);
    assert_eq!(workflow_run_status("Completed", Some("Skipped")), BuildStatus::Failure);
    assert_eq!(workflow_run_status("Completed", None), BuildStatus::Failure);
    assert_eq!(workflow_run_status("InProgress", None), BuildStatus::InProgress);
    assert_eq!(workflow_run_status("Queued", None), BuildStatus::Pending);
    assert_eq!(workflow_run_status("weird", Some("Success")), BuildStatus::Pending);
}

#[test]
fn monitor_steps() {
    assert_eq!(monitor_step(10, 5, Some(BuildStatus::Success)), MonitorStep::Done(BuildStatus::TimedOut));
    assert_eq!(monitor_step(5, 5, Some(BuildStatus::Success)), MonitorStep::Done(BuildStatus::Success));
    assert_eq!(monitor_step(1, 5, Some(BuildStatus::Cancelled)), MonitorStep::Done(BuildStatus::Cancelled));
    assert_eq!(monitor_step(1, 5, Some(BuildStatus::InProgress)), MonitorStep::KeepPolling);
    assert_eq!(monitor_step(1, 5, Some(BuildStatus::TimedOut)), MonitorStep::KeepPolling);
    assert_eq!(monitor_step(1, 5, None), MonitorStep::KeepPolling);
    assert_eq!(recorded_status(None), BuildStatus::Failure);
    assert_eq!(recorded_status(Some(BuildStatus::Success)), BuildStatus::Success);
}

#[test]
fn add_dependency_replaces_one_entry() {
    let mut graph = DependencyGraph::new("BTCDecoded".to_string());
    let before_sdk = graph.get_dependencies("bllvm-sdk");
    graph.add_dependency("bllvm-node".to_string(), vec!["bllvm-sdk".to_string()]);
    assert_eq!(graph.get_dependencies("bllvm-node"), vec!["bllvm-sdk".to_string()]);
    assert_eq!(graph.get_dependencies("bllvm-sdk"), before_sdk);
    assert_eq!(graph.repositories().len(), 6);
    graph.add_dependency("bllvm-extra".to_string(), vec![]);
    assert_eq!(graph.repositories().len(), 7);
    let dependents = graph.get_dependents("bllvm-sdk");
    assert_eq!(dependents, vec!["bllvm-node".to_string(), "bllvm-commons".to_string()]);
    let order = graph.get_build_order().unwrap();
    // repositories without known dependencies come first, in graph order
    assert_eq!(&order[..3], &["bllvm-consensus".to_string(), "bllvm-sdk".to_string(), "bllvm-extra".to_string()]);
}
