use cargo_vendormod::global_dep_graph::{
    DependencyEdge, DependencyEdgeType, DependencyNode, GlobalDependencyGraphBuilder,
};
use cargo_vendormod::lockfile_parser::{LockDepEntry, LockTable};
use cargo_vendormod::solana_analysis::ReportMeasures;
use cargo_vendormod::str_map::StrMap;
use cargo_vendormod::toml_structure::GlobalDependencyGraphAnalyzer;

fn table(name: &str, deps: &[&str]) -> LockTable {
    LockTable {
        name: Some(name.to_string()),
        version: Some("1.0.0".to_string()),
        source: Some("registry+https://github.com/rust-lang/crates.io-index".to_string()),
        checksum: None,
        dependencies: deps.iter().map(|d| LockDepEntry::Text(d.to_string())).collect(),
    }
}

fn node(id: &str, name: &str, features: &[&str]) -> DependencyNode {
    DependencyNode {
        id: id.to_string(),
        crate_name: name.to_string(),
        version: "0.1.0".to_string(),
        source: "registry".to_string(),
        is_workspace_member: id.starts_with("workspace:"),
        is_direct_dependency: false,
        features: features.iter().map(|s| s.to_string()).collect(),
        categories: vec![],
        properties: StrMap::new(),
    }
}

fn edge(from: &str, to: &str, required: &[&str]) -> DependencyEdge {
    DependencyEdge {
        from: from.to_string(),
        to: to.to_string(),
        edge_type: DependencyEdgeType::FeatureGated,
        required_features: required.iter().map(|s| s.to_string()).collect(),
        optional_features: vec![],
        is_dev_dependency: false,
        is_build_dependency: false,
        properties: StrMap::new(),
    }
}

fn hub_builder() -> GlobalDependencyGraphBuilder {
    let mut tables = vec![table("hub", &["a", "b", "c", "d", "e", "f"])];
    for n in ["a", "b", "c", "d", "e", "f"] {
        tables.push(table(n, &[]));
    }
    let mut b = GlobalDependencyGraphBuilder::new("/ws".to_string());
    b.analyze_from_lockfile(&tables);
    b
}

#[test]
fn degrees_core_components_and_critical_path() {
    let mut b = hub_builder();
    let w = b.add_node(node("workspace:app", "app", &[]));
    assert_eq!(b.out_degree_of(0), 6);
    assert_eq!(b.max_out_degree(), 6);
    let core = b.identify_core_components();
    assert_eq!(core.len(), 1);
    assert_eq!(core[0].crate_name, "hub");
    assert_eq!(core[0].degree, 6);
    assert_eq!(b.find_critical_path(), vec!["workspace:app"]);
    assert_eq!(b.out_degree_of(w), 0);
    let a = b.analyze_solana_patterns().unwrap();
    assert!(a.circular_dependencies.is_empty());
    assert_eq!(a.counts.node_count, 8);
}

#[test]
fn feature_sets_collect_what_features_pull_in() {
    let mut b = GlobalDependencyGraphBuilder::new("/ws".to_string());
    let x = b.add_node(node("pkg:x", "x", &["default", "std", "default-tls", "std"]));
    let y = b.add_node(node("pkg:y", "y", &[]));
    let z = b.add_node(node("pkg:z", "z", &[]));
    let _w = b.add_node(node("workspace:w", "w", &["std"]));
    b.link(x, y, edge("pkg:x", "pkg:y", &["std", "tls"]));
    b.link(x, z, edge("pkg:x", "pkg:z", &["std"]));
    let sets = b.collect_feature_information();
    assert_eq!(sets.len(), 1);
    let s = &sets[0];
    assert_eq!(s.crate_name, "x");
    assert_eq!(s.features, vec!["default", "std", "default-tls"]);
    assert_eq!(s.default_features, vec!["default", "default-tls"]);
    assert_eq!(s.feature_dependencies.len(), 2);
    assert_eq!(s.feature_dependencies[0].0, "std");
    assert_eq!(s.feature_dependencies[0].1, vec!["y", "z"]);
    assert_eq!(s.feature_dependencies[1].0, "tls");
    assert_eq!(s.feature_dependencies[1].1, vec!["y"]);
}

#[test]
fn analysis_report_sections() {
    let mut b = hub_builder();
    b.add_node(node("workspace:app", "app", &[]));
    let analysis = b.analyze_solana_patterns().unwrap();
    let features = b.collect_feature_information();
    let graph = b.build_global_graph();
    let analyzer = GlobalDependencyGraphAnalyzer::new("/ws".to_string());
    let measures = ReportMeasures {
        average_degree: "1.50".to_string(),
        max_betweenness: "0.7500".to_string(),
        max_closeness: "0.3333".to_string(),
    };
    let report = analyzer.generate_report(&graph, &analysis, &features, "today", &measures);
    assert!(report.starts_with("# Global Dependency Graph Analysis Report\n\nGenerated: today\n\n"));
    assert!(report.contains("- **Total Nodes**: 8\n"));
    assert!(report.contains("- **Graph Diameter**: 3\n"));
    assert!(report.contains("- **Average Degree**: 1.50\n\n"));
    assert!(report.contains("1. workspace:app\n"));
    assert!(report.contains("| hub | 1.0.0 | 6 | External |\n"));
    assert!(report.contains("\n## Circular Dependencies\n\nNo circular dependencies found.\n"));
    assert!(report.contains("- **Max Degree**: 6\n"));
    assert!(report.contains("- **Total Feature Sets**: 0\n"));
    assert!(report.contains("Found 0 SCCs (excluding single nodes):\n\n"));
    assert!(!report.contains("High Connectivity"));
    assert!(report.ends_with("clear critical path and core components.\n"));
}
