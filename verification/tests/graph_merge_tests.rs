use cargo_vendormod::global_dep_graph::{DependencyEdge, DependencyEdgeType, DependencyNode};
use cargo_vendormod::graph_merge::{merge_graphs, ProjectGraph};
use cargo_vendormod::str_map::StrMap;

fn node(id: &str, version: &str, source: &str, member: bool) -> DependencyNode {
    DependencyNode {
        id: id.to_string(),
        crate_name: id.trim_start_matches("lock:").to_string(),
        version: version.to_string(),
        source: source.to_string(),
        is_workspace_member: member,
        is_direct_dependency: false,
        features: vec![],
        categories: vec![],
        properties: StrMap::new(),
    }
}

fn edge(from: &str, to: &str) -> DependencyEdge {
    DependencyEdge {
        from: from.to_string(),
        to: to.to_string(),
        edge_type: DependencyEdgeType::Direct,
        required_features: vec![],
        optional_features: vec![],
        is_dev_dependency: false,
        is_build_dependency: false,
        properties: StrMap::new(),
    }
}

fn projects() -> Vec<ProjectGraph> {
    vec![
        ProjectGraph {
            project: "alpha".to_string(),
            nodes: vec![
                node("lock:alpha", "0.1.0", "workspace", true),
                node("lock:serde", "1.0.100", "crates.io", false),
                node("lock:cid", "0.9.0", "https://github.com/multiformats/rust-cid", false),
            ],
            edges: vec![edge("lock:alpha", "lock:serde"), edge("lock:alpha", "lock:cid"), edge("lock:cid", "lock:serde")],
        },
        ProjectGraph {
            project: "beta".to_string(),
            nodes: vec![
                node("lock:beta", "0.2.0", "workspace", true),
                node("lock:serde", "1.0.200", "crates.io", false),
                node("lock:cid", "0.9.0", "https://github.com/multiformats/rust-cid", true),
            ],
            edges: vec![edge("lock:beta", "lock:serde"), edge("lock:cid", "lock:serde")],
        },
    ]
}

#[test]
fn merge_dedups_nodes_and_edges() {
    let m = merge_graphs("/graphs", &projects()).unwrap();
    let ids: Vec<&str> = m.nodes.iter().map(|n| n.id.as_str()).collect();
    assert_eq!(ids, vec!["lock:alpha", "lock:serde", "lock:cid", "lock:beta"]);
    assert_eq!(m.nodes[1].version, "1.0.100");
    assert!(m.nodes[2].is_workspace_member);
    assert_eq!(m.edges.len(), 4);
    assert_eq!(m.projects, vec!["alpha", "beta"]);
    assert_eq!(m.sources, vec!["https://github.com/multiformats/rust-cid"]);
}

#[test]
fn merge_orders_and_plans_upgrades() {
    let m = merge_graphs("/graphs", &projects()).unwrap();
    assert!(m.cycle_at.is_none());
    assert_eq!(m.build_order.len(), 4);
    let pos = |name: &str| m.build_order.iter().position(|c| c == name).unwrap();
    assert!(pos("alpha") < pos("cid"));
    assert!(pos("cid") < pos("serde"));
    assert!(pos("beta") < pos("serde"));
    assert_eq!(m.upgrade_plan.len(), 1);
    let p = &m.upgrade_plan[0];
    assert_eq!(p.crate_name, "serde");
    assert_eq!(p.versions, vec!["1.0.100", "1.0.200"]);
    assert_eq!(p.oldest, "1.0.100");
    assert_eq!(p.newest, "1.0.200");
    assert_eq!(p.used_by, vec!["alpha", "beta"]);
    assert_eq!(p.action, "upgrade from 1.0.100 to 1.0.200");
}

#[test]
fn merge_reports_cycles_and_empty_input() {
    let g = ProjectGraph {
        project: "c".to_string(),
        nodes: vec![node("lock:a", "1", "workspace", true), node("lock:b", "1", "workspace", true)],
        edges: vec![edge("lock:a", "lock:b"), edge("lock:b", "lock:a"), edge("lock:a", "lock:missing")],
    };
    let m = merge_graphs("/g", &vec![g]).unwrap();
    assert!(m.cycle_at.is_some());
    assert_eq!(m.build_order, vec!["a", "b"]);
    assert_eq!(merge_graphs("/g", &vec![]).err(), Some("No graph.json files found under /g".to_string()));
}
