use shuji::workflow::graph::{GraphNode, NodeStatus, WorkflowGraph};

fn lookup<T: Copy>(v: &[(String, T)], k: &str) -> Option<T> {
    v.iter().find(|(key, _)| key == k).map(|(_, x)| *x)
}

#[test]
fn test_new_graph_has_neige() {
    let g = WorkflowGraph::new();
    assert_eq!(g.nodes.len(), 1);
    assert_eq!(g.nodes[0].role, "内阁");
    assert_eq!(lookup(&g.current_nodes, "内阁"), Some(1));
    assert_eq!(g.current_node("内阁"), Some(1));
}

#[test]
fn test_add_edge_simple() {
    let mut g = WorkflowGraph::new();
    g.add_edge("内阁", "尚书令", "task_001", "执行任务");
    assert_eq!(g.nodes.len(), 2);
    assert_eq!(g.edges.len(), 1);
    assert_eq!(g.edges[0].source, 1);
    assert_eq!(g.edges[0].target, 2);
}

#[test]
fn test_reuse_node_when_no_cycle() {
    let mut g = WorkflowGraph::new();
    g.add_edge("内阁", "尚书令", "t1", "任务A");
    g.add_edge("内阁", "工部", "t2", "任务B");
    g.add_edge("工部", "尚书令", "t3", "任务C");
    assert_eq!(g.nodes.len(), 3, "不应创建新尚书令节点");
    let shangshu = g.nodes.iter().find(|n| n.role == "尚书令").unwrap();
    assert_eq!(shangshu.task_summary, "任务C");
}

#[test]
fn test_creates_new_instance_on_cycle() {
    let mut g = WorkflowGraph::new();
    g.add_edge("内阁", "尚书令", "t1", "执行");
    g.add_edge("尚书令", "工部", "t2", "编码");
    g.add_edge("工部", "内阁", "t3", "汇报");
    let neige_nodes: Vec<&GraphNode> = g.nodes.iter().filter(|n| n.role == "内阁").collect();
    assert_eq!(neige_nodes.len(), 2);
    assert_eq!(neige_nodes[1].instance, 2);
    assert_eq!(g.edges[2].target, 4);
}

#[test]
fn test_multi_hop_cycle() {
    let mut g = WorkflowGraph::new();
    g.add_edge("内阁", "中书令", "t1", "设计");
    g.add_edge("中书令", "门下侍中", "t2", "审查");
    g.add_edge("门下侍中", "内阁", "t3", "批复");
    let neige_nodes: Vec<&GraphNode> = g.nodes.iter().filter(|n| n.role == "内阁").collect();
    assert_eq!(neige_nodes.len(), 2);
    assert_eq!(neige_nodes[1].instance, 2);
}

#[test]
fn test_has_path() {
    let mut g = WorkflowGraph::new();
    g.add_edge("内阁", "尚书令", "t1", "执行");
    g.add_edge("尚书令", "工部", "t2", "编码");
    assert!(g.has_path(1, 3));
    assert!(!g.has_path(3, 1));
}

#[test]
fn test_rebuild_state() {
    let mut g = WorkflowGraph::new();
    g.add_edge("内阁", "尚书令", "t1", "A");
    g.add_edge("尚书令", "工部", "t2", "B");
    g.add_edge("工部", "内阁", "t3", "C");

    let mut restored = g.clone();
    restored.current_nodes.clear();
    restored.instance_counts.clear();
    restored.rebuild_state();

    assert_eq!(restored.nodes.len(), 4);
    assert_eq!(restored.edges.len(), 3);
    assert_eq!(lookup(&restored.current_nodes, "内阁").unwrap(), 4);
    assert_eq!(lookup(&restored.instance_counts, "内阁").unwrap(), 2);
}

#[test]
fn test_mark_completed() {
    let mut g = WorkflowGraph::new();
    g.add_edge("内阁", "尚书令", "t1", "执行");
    g.mark_completed("尚书令");
    assert_eq!(
        g.nodes.iter().find(|n| n.role == "尚书令").unwrap().status,
        NodeStatus::Completed
    );
}

#[test]
fn mark_failed_touches_only_the_current_node() {
    let mut g = WorkflowGraph::new();
    g.add_edge("内阁", "尚书令", "t1", "执行");
    g.mark_failed("尚书令");
    assert_eq!(g.nodes[1].status, NodeStatus::Failed);
    assert_eq!(g.nodes[0].status, NodeStatus::Active);
    g.mark_failed("不存在");
    assert_eq!(g.nodes[0].status, NodeStatus::Active);
}

#[test]
fn a_cycle_never_closes_through_an_edge() {
    let mut g = WorkflowGraph::new();
    g.add_edge("内阁", "尚书令", "t1", "执行");
    g.add_edge("尚书令", "内阁", "t2", "汇报");
    g.add_edge("内阁", "尚书令", "t3", "再执行");
    for e in &g.edges {
        assert!(!g.has_path(e.target, e.source));
    }
}

#[test]
fn new_graph_is_stamped_with_a_time_of_day() {
    let g = WorkflowGraph::new();
    let t: Vec<char> = g.nodes[0].created_at.chars().collect();
    assert_eq!(t.len(), 8);
    assert_eq!((t[2], t[5]), (':', ':'));
    assert!([0, 1, 3, 4, 6, 7].iter().all(|&i| t[i].is_ascii_digit()));
}
