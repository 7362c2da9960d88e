use cargo_vendormod::global_dep_graph::{GlobalDependencyGraph, GlobalDependencyGraphBuilder};
use cargo_vendormod::lockfile_parser::{LockDepEntry, LockTable};
use cargo_vendormod::partitioning::{
    parse_algorithm, PartitioningAlgorithm,
    fallback_partition, group_assignment, import_partitions, partition_edge_counts, partition_header_count,
    partition_input_text, round_robin_assignment, FallbackError, PartitionGroup,
};

fn lock_table(name: &str, deps: &[&str]) -> LockTable {
    LockTable {
        name: Some(name.to_string()),
        version: Some("1.0.0".to_string()),
        source: None,
        checksum: None,
        dependencies: deps.iter().map(|d| LockDepEntry::Text(d.to_string())).collect(),
    }
}

fn three_crates() -> GlobalDependencyGraph {
    let tables = vec![
        lock_table("app", &["lib-a", "serde"]),
        lock_table("lib-a", &["serde"]),
        lock_table("serde", &[]),
    ];
    let mut b = GlobalDependencyGraphBuilder::new("/ws".to_string());
    b.analyze_from_lockfile(&tables);
    b.build_global_graph()
}

#[test]
fn tool_input_lists_edges_by_node_index() {
    let g = three_crates();
    assert_eq!(partition_input_text(&g), "3 3\n0 1 1\n0 2 1\n1 2 1\n");
}

#[test]
fn round_robin_cycles_through_partitions() {
    assert_eq!(round_robin_assignment(5, 2), "0\n1\n0\n1\n0\n");
    assert_eq!(round_robin_assignment(3, 4), "0\n1\n2\n");
    assert_eq!(round_robin_assignment(0, 0), "");
}

#[test]
fn fallback_reads_the_header() {
    assert_eq!(fallback_partition("4 9\n0 1 1\n", 3), Ok("0\n1\n2\n0\n".to_string()));
    assert_eq!(partition_header_count(" +7 \t 2\n"), Ok(7));
    assert_eq!(fallback_partition("", 2), Err(FallbackError::InvalidInput));
    assert_eq!(fallback_partition("5\n", 2), Err(FallbackError::InvalidFormat));
    assert_eq!(fallback_partition("x 3\n", 2), Err(FallbackError::InvalidCount));
    assert_eq!(fallback_partition("0 0\n", 0), Ok(String::new()));
}

#[test]
fn import_groups_nodes_by_partition() {
    let gs = import_partitions("1\n0\n1\n 2 \n").unwrap();
    let ids: Vec<usize> = gs.iter().map(|g| g.partition_id).collect();
    assert_eq!(ids, vec![0, 1, 2]);
    assert_eq!(gs[0].node_ids, vec!["1"]);
    assert_eq!(gs[1].node_ids, vec!["0", "2"]);
    assert_eq!(gs[1].node_count, 2);
    assert_eq!(gs[2].node_ids, vec!["3"]);
    assert_eq!(import_partitions("0\nx\n").err(), Some(1));
    assert!(import_partitions("").unwrap().is_empty());
}

#[test]
fn grouping_skips_unused_numbers() {
    let gs = group_assignment(&vec![7, 3, 7]);
    assert_eq!(gs.len(), 2);
    assert_eq!(gs[0].partition_id, 3);
    assert_eq!(gs[1].partition_id, 7);
    assert_eq!(gs[1].node_ids, vec!["0", "2"]);
}

#[test]
fn edges_inside_and_across_partitions() {
    let g = three_crates();
    let ids: Vec<String> = g.nodes.iter().map(|n| n.id.clone()).collect();
    let gs = vec![
        PartitionGroup { partition_id: 0, node_ids: vec![ids[0].clone(), ids[1].clone()], node_count: 2 },
        PartitionGroup { partition_id: 1, node_ids: vec![ids[2].clone()], node_count: 1 },
    ];
    assert_eq!(partition_edge_counts(&gs, &g.edges), vec![(1, 2), (0, 2)]);
}

#[test]
fn partition_picture_lists_its_nodes_and_inner_edges() {
    let g = three_crates();
    let ids: Vec<String> = g.nodes.iter().map(|n| n.id.clone()).collect();
    let p = PartitionGroup { partition_id: 4, node_ids: vec![ids[0].clone(), ids[1].clone(), "nope".to_string()], node_count: 3 };
    let dot = cargo_vendormod::partitioning::partition_dot_text(&g, &p);
    assert!(dot.starts_with("digraph Partition_4 {\n    rankdir=LR;\n    label=\"Partition 4 \";\n4\";\n"));
    assert!(dot.contains("    node_0 [label=\"app\\nv1.0.0\"];\n    node_1 [label=\"lib-a\\nv1.0.0\"];\n"));
    assert!(dot.contains("    node_0 -> node_1 [label=\""));
    assert!(!dot.contains("node_2"));
}

#[test]
fn algorithms_are_named_in_any_case() {
    assert_eq!(parse_algorithm("KaMinPar"), Ok(PartitioningAlgorithm::KaMinPar));
    assert_eq!(parse_algorithm("GREEDY"), Ok(PartitioningAlgorithm::Greedy));
    let a: PartitioningAlgorithm = "louvain".parse().unwrap();
    assert_eq!(a, PartitioningAlgorithm::Louvain);
    assert_eq!(parse_algorithm("quick"), Err("Unknown partitioning algorithm: quick".to_string()));
}
