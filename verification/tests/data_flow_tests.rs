use cargo_vendormod::data_flow_analyzer::{DataFlowAnalyzer, DataFlowEdgeType, DataFlowNodeType, WorkloadDataFlowAnalyzer};

#[test]
fn nodes_get_prefixed_ids_and_the_current_phase() {
    let mut a = DataFlowAnalyzer::new("init");
    a.add_input("x", "r1", "u64", "a.rs:1").unwrap();
    a.add_register("r1", "u64", "a.rs:2").unwrap();
    a.add_output("y", "r1", "u64", "a.rs:3").unwrap();
    let ids: Vec<&str> = a.nodes.iter().map(|n| n.id.as_str()).collect();
    assert_eq!(ids, vec!["input_x", "reg_r1", "output_y"]);
    assert_eq!(a.nodes[1].register.as_deref(), Some("r1"));
    assert_eq!(a.nodes[0].phase, "init");
    assert_eq!(a.nodes[2].node_type, DataFlowNodeType::Output);
}

#[test]
fn flow_needs_both_ends() {
    let mut a = DataFlowAnalyzer::new("p");
    a.add_input("x", "r", "t", "l").unwrap();
    let e = a.add_flow("input_x", "reg_r", DataFlowEdgeType::Copy, None, true).unwrap_err();
    assert_eq!(e, "Destination node reg_r not found");
    let e = a.add_flow("nope", "also_nope", DataFlowEdgeType::Copy, None, true).unwrap_err();
    assert_eq!(e, "Source node nope not found");
    assert!(a.edges.is_empty());
    a.add_register("r", "t", "l").unwrap();
    a.add_flow("input_x", "reg_r", DataFlowEdgeType::Move, Some("f"), false).unwrap();
    assert_eq!(a.edges.len(), 1);
    assert_eq!(a.links, vec![(0, 1)]);
    assert_eq!(a.edges[0].transformation.as_deref(), Some("f"));
}

#[test]
fn flow_ends_at_the_latest_node_with_an_id() {
    let mut a = DataFlowAnalyzer::new("p");
    a.add_register("r", "t", "l1").unwrap();
    a.add_register("r", "t", "l2").unwrap();
    a.add_register("s", "t", "l3").unwrap();
    a.add_flow("reg_r", "reg_s", DataFlowEdgeType::DirectFlow, None, true).unwrap();
    assert_eq!(a.links, vec![(1, 2)]);
}

#[test]
fn phases_record_transitions_and_boundaries() {
    let mut a = DataFlowAnalyzer::new("");
    a.start_phase("one").unwrap();
    assert!(a.phase_transitions.is_empty());
    a.start_phase("two").unwrap();
    assert_eq!(a.phase_transitions.len(), 1);
    assert_eq!(a.phase_transitions[0].phase_name, "one=>two");
    assert_eq!(a.phase_transitions[0].location, "phase_boundary");
    assert_eq!(a.current_phase, "two");
    assert_eq!(a.nodes[1].id, "phase_two");
    assert_eq!(a.nodes[1].location, "phase_start");
    assert_eq!(a.nodes[1].node_type, DataFlowNodeType::PhaseBoundary);
}

#[test]
fn invariants_are_verified_only_in_their_phases() {
    let mut a = DataFlowAnalyzer::new("p");
    a.add_invariant("i1", "d", &["r"], "a == b", "m", &["p"]).unwrap();
    a.add_invariant("i2", "d", &["r"], "unsafe { x }", "m", &["p"]).unwrap();
    a.add_invariant("i3", "d", &["r"], "a == b", "m", &["q"]).unwrap();
    a.add_invariant("i4", "d", &["r"], "x.unchecked_add(y)", "m", &["q", "p"]).unwrap();
    a.verify_invariants().unwrap();
    let v: Vec<bool> = a.invariants.iter().map(|i| i.verified).collect();
    assert_eq!(v, vec![true, false, false, false]);
}

#[test]
fn register_flow_matches_ids_containing_the_register() {
    let mut a = DataFlowAnalyzer::new("p");
    a.add_register("abc", "t", "l").unwrap();
    a.add_register("xyz", "t", "l").unwrap();
    a.add_register("b", "t", "l").unwrap();
    a.add_flow("reg_abc", "reg_xyz", DataFlowEdgeType::Load, None, true).unwrap();
    a.add_flow("reg_xyz", "reg_b", DataFlowEdgeType::Store, None, true).unwrap();
    let f = a.analyze_register_flow("b").unwrap();
    assert_eq!(f.len(), 2);
    let f = a.analyze_register_flow("abc").unwrap();
    assert_eq!(f.len(), 1);
    assert_eq!(f[0].to, "reg_xyz");
    assert!(a.analyze_register_flow("q").unwrap().is_empty());
}

#[test]
fn workload_analysis_builds_the_graph() {
    let mut w = WorkloadDataFlowAnalyzer::new("validator");
    w.add_source_files(&["src/validator.rs".to_string()]).unwrap();
    w.analyze_rust_source().unwrap();
    let a = w.analyzer();
    assert_eq!(a.nodes.len(), 12);
    assert_eq!(a.edges.len(), 6);
    assert_eq!(a.phase_transitions.len(), 3);
    assert_eq!(a.phase_transitions[0].phase_name, "initial=>input_validation");
    assert_eq!(a.current_phase, "output");
    assert_eq!(a.invariants.len(), 2);
    // Neither invariant applies to the output phase, so neither is verified.
    assert!(a.invariants.iter().all(|i| !i.verified));
    assert_eq!(a.links[2], (3, 7));
    assert_eq!(w.source_files, vec!["src/validator.rs"]);
}

#[test]
fn report_lists_counts_kinds_and_flows() {
    let mut a = DataFlowAnalyzer::new("p");
    a.add_input("x", "r", "t", "l").unwrap();
    a.add_register("r", "t", "l").unwrap();
    a.add_register("s", "t", "l").unwrap();
    a.add_flow("input_x", "reg_r", DataFlowEdgeType::DirectFlow, None, true).unwrap();
    a.start_phase("q").unwrap();
    a.add_invariant("i1", "keeps r", &["r"], "r == r", "check", &["q"]).unwrap();
    a.verify_invariants().unwrap();
    let text = a.generate_report("2024-01-01 00:00:00");
    let expected = [
        "# Data Flow Analysis Report\n\n",
        "Generated: 2024-01-01 00:00:00\n\n",
        "## Graph Statistics\n\n",
        "- **Nodes**: 4\n",
        "- **Edges**: 1\n",
        "- **Phases**: 2\n",
        "- **Invariants**: 1\n\n",
        "## Node Types\n\n",
        "| Type | Count |\n",
        "|------|-------|\n",
        "| Input | 1 |\n",
        "| Register | 2 |\n",
        "| Phase Boundary | 1 |\n",
        "\n## Phase Transitions\n\n",
        "1. **p=>q**\n",
        "   - Input registers: 0\n",
        "   - Output registers: 0\n",
        "   - Invariants preserved: 0\n\n",
        "## Invariant Verification\n\n",
        "| ID | Description | Verified | Method |\n",
        "|----|-------------|----------|--------|\n",
        "| i1 | keeps r | \u{2713} Yes | check |\n",
        "\n## Register Flow Analysis\n\n",
        "### Register: r\n\n",
        "| From | To | Type | Preserves Invariant |\n",
        "|------|----|------|---------------------|\n",
        "| input_x | reg_r | Direct Flow | \u{2713} |\n",
        "\n",
        "### Register: s\n\n",
        "- No flow data available\n\n",
    ]
    .concat();
    assert_eq!(text, expected);
}

#[test]
fn flow_picture_has_the_nodes_and_links() {
    let mut a = DataFlowAnalyzer::new("p");
    a.add_input("x", "r", "t", "l").unwrap();
    a.add_register("r", "t", "l").unwrap();
    a.add_flow("input_x", "reg_r", DataFlowEdgeType::Move, None, true).unwrap();
    let dot = a.visualization_dot();
    assert!(dot.starts_with("digraph {"));
    assert!(dot.contains("input_x"));
    assert!(dot.contains("0 -> 1"));
}
