use cargo_vendormod::toml_structure::{
    analyze_cargo_toml, has_test_patterns, BinTable, FeatureEntry, GlobalDependencyGraphAnalyzer, ManifestDoc,
    SchemaElementType, TableItem, WorkloadPatternType,
};

fn sample_doc() -> ManifestDoc {
    ManifestDoc {
        package: Some(TableItem {
            is_table: true,
            entries: vec![
                ("name".to_string(), Some("demo".to_string())),
                ("version".to_string(), Some("0.3.1".to_string())),
                ("authors".to_string(), None),
            ],
        }),
        dependencies: Some(vec![("serde".to_string(), true), ("log".to_string(), false)]),
        dev_dependencies: None,
        build_dependencies: Some(vec![("cc".to_string(), false)]),
        features: Some(vec![
            FeatureEntry { name: "default".to_string(), is_array: true, is_table: false, is_inline_table: false },
            FeatureEntry { name: "test-utils".to_string(), is_array: true, is_table: false, is_inline_table: false },
        ]),
        bins: Some(vec![
            Some(BinTable { name: Some("tool".to_string()), path: Some("src/tool.rs".to_string()) }),
            None,
            Some(BinTable { name: None, path: None }),
        ]),
        has_bin: true,
        has_bench: false,
        has_test: false,
        has_workspace: true,
    }
}

#[test]
fn manifest_structure_is_read() {
    let doc = sample_doc();
    assert!(has_test_patterns(&doc));
    let s = analyze_cargo_toml(&doc, "/w/Cargo.toml");
    assert_eq!(s.crate_name, "demo");
    assert_eq!(s.crate_version, "0.3.1");
    assert!(s.is_workspace && s.has_binaries && s.has_tests && !s.has_benchmarks);
    let paths: Vec<&str> = s.schema_elements.iter().map(|e| e.path.as_str()).collect();
    assert_eq!(
        paths,
        vec!["package", "dependencies.serde", "dependencies.log", "build-dependencies.cc", "features.default", "features.test-utils", "bin[0]"]
    );
    assert_eq!(s.schema_elements[0].children, vec!["package.name", "package.version", "package.authors"]);
    assert_eq!(s.schema_elements[0].properties.len(), 2);
    assert!(s.schema_elements[1].is_inline_table);
    assert_eq!(s.schema_elements[3].element_type, SchemaElementType::BuildDependency);
    let kinds: Vec<WorkloadPatternType> = s.workload_patterns.iter().map(|p| p.pattern_type).collect();
    assert_eq!(
        kinds,
        vec![
            WorkloadPatternType::BinaryTarget,
            WorkloadPatternType::TestSuite,
            WorkloadPatternType::FeatureFlag,
            WorkloadPatternType::FeatureFlag,
            WorkloadPatternType::WorkspaceMember,
        ]
    );
    assert_eq!(s.workload_patterns[1].related_elements, vec!["features.default", "features.test-utils"]);
}

#[test]
fn missing_package_defaults() {
    let mut doc = sample_doc();
    doc.package = None;
    let s = analyze_cargo_toml(&doc, "x");
    assert_eq!(s.crate_name, "unknown");
    assert_eq!(s.crate_version, "0.0.0");
}

#[test]
fn structure_markdown_and_graph() {
    let s = analyze_cargo_toml(&sample_doc(), "/w/Cargo.toml");
    let analyzer = GlobalDependencyGraphAnalyzer::new("/w".to_string());
    let md = analyzer.generate_toml_structure_visualization(&vec![s], "2024-01-01 00:00:00").unwrap();
    assert!(md.starts_with("# TOML Structure Analysis\n\nGenerated: 2024-01-01 00:00:00\n\n"));
    assert!(md.contains("- **Total Cargo.toml Files Analyzed**: 1\n"));
    assert!(md.contains("- **Workspace Files**: 1\n"));
    assert!(md.contains("### 1 - demo v0.3.1\n\n"));
    assert!(md.contains("- **build-dependencies.cc** (dependency): Build Dependency\n"));
    assert!(md.contains("  - Children: package.name, package.version, package.authors\n"));
    assert!(md.contains("    - name: demo\n"));
    assert!(md.contains("- **Feature Flags**: 2\n"));
    assert!(md.contains("- **Binary Targets**: 1\n"));
    assert!(!md.contains("Benchmark Suites"));
    let s = analyze_cargo_toml(&sample_doc(), "/w/Cargo.toml");
    let dot = analyzer.generate_toml_structure_graph(&vec![s]);
    assert!(dot.starts_with("digraph TOML_Structure {\n    rankdir=LR;\n"));
    assert!(dot.contains("    file_0 [label=\"demo\n0.3.1\", shape=folder, fillcolor=lightgreen];\n"));
    assert!(dot.contains("        file_0_elem_3 [label=\"build-dependencies.cc\nBuildDep\", shape=box, style=filled, fillcolor=lightpink];\n"));
    assert!(dot.contains("    file_0 -> pattern_0_4 [color=red, style=bold];\n"));
    assert!(dot.ends_with("}\n"));
}
