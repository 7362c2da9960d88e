use cargo_vendormod::cargo_tool_discovery::{
    copy_tool, listed_tool_names, local_tool_path, make_listed_tool, CargoToolDiscovery, IntegrationStatus, ToolSearchQuery,
    ToolSource,
};

fn query(keywords: &[&str], limit: usize) -> ToolSearchQuery {
    ToolSearchQuery {
        keywords: keywords.iter().map(|s| s.to_string()).collect(),
        categories: vec![],
        min_downloads: None,
        rust_version: None,
        platform: None,
        limit,
    }
}

fn discovery() -> CargoToolDiscovery {
    CargoToolDiscovery::new("tools".to_string(), "cache".to_string(), None)
}

#[test]
fn crates_io_search_filters_by_keyword_and_limit() {
    let d = discovery();
    let all = d.search_crates_io(&query(&[], 100)).unwrap();
    assert_eq!(all.len(), 8);
    assert_eq!(all[0].name, "cargo-zkperf");
    assert_eq!(all[0].crate_name, "zkperf");
    assert_eq!(all[0].documentation_url.as_deref(), Some("https://docs.rs/cargo-zkperf/0.1.0"));
    assert_eq!(all[0].compatibility.compatibility_score, 850);
    let perf = d.search_crates_io(&query(&["perf"], 100)).unwrap();
    let names: Vec<&str> = perf.iter().map(|t| t.name.as_str()).collect();
    assert_eq!(names, vec!["cargo-zkperf", "cargo-perf"]);
    let analysis = d.search_crates_io(&query(&["analysis"], 2)).unwrap();
    assert_eq!(analysis.len(), 2);
    assert_eq!(analysis[1].name, "cargo-perf");
}

#[test]
fn github_search_matches_repository_or_description() {
    let d = discovery();
    let found = d.search_github(&query(&["rust-lang"], 10)).unwrap();
    assert_eq!(found.len(), 1);
    assert_eq!(found[0].name, "cargo-perf");
    assert_eq!(found[0].source, ToolSource::GitHub);
    assert_eq!(found[0].documentation_url.as_deref(), Some("https://github.com/rust-lang/cargo-perf/README.md"));
    let flame = d.search_github(&query(&["Flamegraph"], 10)).unwrap();
    assert_eq!(flame[0].name, "flamegraph");
    assert_eq!(flame[0].crate_name, "flamegraph");
}

#[test]
fn local_tools_and_first_of_each_name() {
    let d = discovery();
    let listed = listed_tool_names("Installed Commands:\n    build\n    cargo-audit\n    clippy\n");
    assert_eq!(listed, vec!["audit"]);
    let local = d.discover_local_tools(&listed, &vec!["cargo-mine".to_string(), "other".to_string()], "linux");
    assert_eq!(local.len(), 2);
    assert_eq!(local[0].name, "cargo-audit");
    assert_eq!(local[0].description, "Locally installed audit tool");
    assert_eq!(local[1].name, "cargo-mine");
    assert_eq!(local[1].version, "dev");
    let all = d.search_all_sources(&query(&[], 100), &local).unwrap();
    // 8 from crates.io, 5 from GitHub of which 4 repeat a crates.io name,
    // and the local cargo-audit repeats one too.
    assert_eq!(all.len(), 8 + 1 + 1);
    let audit = all.iter().find(|t| t.name == "cargo-audit").unwrap();
    assert_eq!(audit.source, ToolSource::CratesIo);
}

#[test]
fn compatibility_penalties_and_status() {
    let mut d = discovery();
    let t = make_listed_tool("x", "linux");
    let c = d.analyze_tool_compatibility(&t, "1.70.0", "linux").unwrap();
    assert_eq!(c.compatibility_score, 900);
    assert_eq!(c.integration_status, IntegrationStatus::Full);
    let c = d.analyze_tool_compatibility(&t, "1.70.0", "macos").unwrap();
    assert_eq!(c.compatibility_score, 450);
    assert_eq!(c.integration_status, IntegrationStatus::NotIntegrated);
    assert_eq!(c.dependency_conflicts, vec!["platform: macos not supported"]);

    let tools = d.search_crates_io(&query(&["audit"], 1)).unwrap();
    let audit = &tools[0];
    let c = d.analyze_tool_compatibility(audit, "0.9", "linux").unwrap();
    assert_eq!(c.compatibility_score, 595);
    assert_eq!(c.integration_status, IntegrationStatus::Partial);
    assert_eq!(c.dependency_conflicts, vec!["rust_version: 1.56.0 required, 0.9 found"]);

    let integrated = d.integrate_tool(copy_tool(&tools[0]), "1.70.0", "linux").unwrap();
    assert!(integrated.integrated);
    assert_eq!(d.integrated_tools.len(), 1);
    let again = d.integrate_tool(integrated, "1.70.0", "linux").unwrap();
    assert_eq!(d.integrated_tools.len(), 1);
    assert_eq!(again.compatibility.compatibility_score, 680);
    assert_eq!(again.compatibility.dependency_conflicts, vec!["already_integrated: cargo-audit"]);
    assert_eq!(d.get_integrated_tools().len(), 1);
}

#[test]
fn install_steps_and_paths() {
    let d = discovery();
    let tools = d.search_crates_io(&query(&["deny"], 1)).unwrap();
    assert_eq!(CargoToolDiscovery::install_source(&tools[0]), Some(ToolSource::CratesIo));
    assert_eq!(
        d.install_marker(&tools[0]),
        Some(("cache/cargo-deny.installed".to_string(), "installed".to_string()))
    );
    let local = make_listed_tool("x", "linux");
    assert_eq!(d.install_marker(&local), None);
    assert_eq!(local_tool_path("cargo-x"), "./target/release/cargo-x");
    assert_eq!(local_tool_path("x"), "./target/release/cargo-x");
}

#[test]
fn catalog_and_integration_report() {
    let mut d = discovery();
    let tools = d.search_crates_io(&query(&["audit"], 1)).unwrap();
    let audit = d.integrate_tool(copy_tool(&tools[0]), "1.70.0", "linux").unwrap();
    let catalog = d.generate_tool_catalog("now", &vec![]);
    assert!(catalog.starts_with("# Cargo Tool Catalog\n\nGenerated: now\n\n## Integrated Tools\n\n"));
    assert!(catalog.contains("| cargo-audit | 0.15.0 | crates.io | 85.0% | Partial |\n"));
    assert!(!catalog.contains("| cargo-audit | 0.15.0 | crates.io | Security audit |"));
    assert!(catalog.contains("- **Integrated Tools**: 1\n"));
    assert!(catalog.ends_with("- **Search Sources**: crates.io, GitHub, local installation\n"));

    let report = d.generate_integration_report(&audit);
    assert!(report.starts_with("# Tool Integration Report\n\nTool: cargo-audit\nVersion: 0.15.0\nSource: crates.io\n\n"));
    assert!(report.contains("- **Platform Support**: linux, macos, windows\n"));
    assert!(report.contains("\n### Dependency Conflicts\n\nNone detected\n"));
    assert!(report.contains("1. Run: `cargo install cargo-audit`\n"));
}
