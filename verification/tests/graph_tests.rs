use cargo_vendormod::error_to_llm_pipeline::{
    create_parallel_build_groups, is_retryable_error, ErrorToLLMPipeline, ParallelBuildConfig,
};
use cargo_vendormod::git_wrapper::GitOutput;
use cargo_vendormod::global_dep_graph::{GlobalDependencyGraph, GlobalDependencyGraphBuilder};
use cargo_vendormod::layer_processor::{
    choose_tag, cleaned_version, layer_flake_text, needs_compile, parse_github_url, patch_file_pattern,
    tags_from_output, BranchAnswers, BranchStep, CheckoutPhase, LayerProcessor,
};
use cargo_vendormod::lockfile_parser::{LockDepEntry, LockTable};

fn table(name: &str, source: Option<&str>, deps: &[&str]) -> LockTable {
    LockTable {
        name: Some(name.to_string()),
        version: Some("1.0.0".to_string()),
        source: source.map(|s| s.to_string()),
        checksum: None,
        dependencies: deps.iter().map(|d| LockDepEntry::Text(d.to_string())).collect(),
    }
}

fn sample_builder() -> GlobalDependencyGraphBuilder {
    let tables = vec![
        table("app", None, &["lib-a", "serde (registry+https://github.com/rust-lang/crates.io-index)"]),
        table("lib-a", Some("git+https://github.com/o/lib-a"), &["serde"]),
        table("serde", Some("registry+https://github.com/rust-lang/crates.io-index"), &[]),
    ];
    let mut b = GlobalDependencyGraphBuilder::new("/ws".to_string());
    b.analyze_from_lockfile(&tables);
    b
}

fn sample_graph() -> GlobalDependencyGraph {
    sample_builder().build_global_graph()
}

#[test]
fn lockfile_graph_nodes_and_edges() {
    let b = sample_builder();
    let ids: Vec<String> = b.nodes.iter().map(|n| n.id.clone()).collect();
    assert_eq!(ids, vec!["lock:app", "lock:lib-a", "lock:serde"]);
    assert_eq!(b.nodes[1].source, "https://github.com/o/lib-a");
    assert_eq!(b.nodes[2].source, "crates.io");
    assert!(b.nodes[0].is_workspace_member);
    assert_eq!(b.edges.len(), 3);
    assert_eq!(b.get_workspace_members(), vec!["lock:app".to_string()]);
}

#[test]
fn lockfile_graph_orders() {
    let b = sample_builder();
    assert_eq!(
        b.get_topological_order().unwrap(),
        vec!["lock:app".to_string(), "lock:lib-a".to_string(), "lock:serde".to_string()]
    );
    assert_eq!(b.get_publish_order().unwrap(), vec!["lock:app".to_string()]);
    assert_eq!(
        b.get_external_dependency_order().unwrap(),
        vec!["lock:lib-a".to_string(), "lock:serde".to_string()]
    );
    assert!(b.find_strongly_connected_components().is_empty());
}

#[test]
fn cycle_is_reported() {
    let tables = vec![table("a", None, &["b"]), table("b", None, &["a"])];
    let mut b = GlobalDependencyGraphBuilder::new("/ws".to_string());
    b.analyze_from_lockfile(&tables);
    let err = b.get_topological_order().unwrap_err();
    assert!(err.starts_with("Circular dependency detected in dependency graph involving: "));
    assert!(b.get_publish_order().is_err());
    let sccs = b.find_strongly_connected_components();
    assert_eq!(sccs.len(), 1);
    let mut c = sccs[0].clone();
    c.sort();
    assert_eq!(c, vec!["lock:a".to_string(), "lock:b".to_string()]);
    let g = b.build_global_graph();
    assert!(g.topological_order.is_empty());
    assert_eq!(g.strongly_connected_components.len(), 1);
}

#[test]
fn pipeline_groups_follow_the_graph() {
    let mut p = ErrorToLLMPipeline::new(ParallelBuildConfig::default());
    assert_eq!(p.partition_independent_groups().unwrap_err(), "Dependency graph not loaded");
    p.load_dependency_graph(sample_graph());
    let groups = p.partition_independent_groups().unwrap();
    assert_eq!(groups.len(), 2);
    assert_eq!(groups[0], vec!["lock:lib-a".to_string(), "lock:serde".to_string()]);
    assert_eq!(groups[1].len(), 3);
    assert_eq!(p.get_max_independent_builds().unwrap(), 2);
}

#[test]
fn build_groups_chunking() {
    let files: Vec<String> = (0..7).map(|i| format!("f{}", i)).collect();
    let groups = create_parallel_build_groups(files.clone(), 3);
    assert_eq!(groups.len(), 3);
    assert_eq!(groups[0], vec!["f0", "f1", "f2"]);
    assert_eq!(groups[2], vec!["f6"]);
    let all: Vec<String> = groups.concat();
    assert_eq!(all, files);
    let one = create_parallel_build_groups(files.clone(), 0);
    assert_eq!(one.len(), 1);
    assert!(create_parallel_build_groups(vec![], 4).is_empty());
}

#[test]
fn retryable_errors() {
    assert!(is_retryable_error("network timeout"));
    assert!(!is_retryable_error("error: file not found"));
    assert!(!is_retryable_error("parse error at line 3"));
}

#[test]
fn github_url_forms() {
    let p = |u: &str| parse_github_url(u);
    assert_eq!(p("https://github.com/rust-lang/cargo.git"), ("rust-lang".to_string(), "cargo".to_string()));
    assert_eq!(p("git@github.com:serde-rs/serde"), ("serde-rs".to_string(), "serde".to_string()));
    assert_eq!(p("  crates.io "), ("crates-io".to_string(), "unknown".to_string()));
    assert_eq!(
        p("registry+https://github.com/rust-lang/crates.io-index"),
        ("crates-io".to_string(), "unknown".to_string())
    );
    assert_eq!(p("ssh://git@github.com/a/b"), ("a".to_string(), "b".to_string()));
    assert_eq!(p("https://gitlab.com/x/y/z"), ("y".to_string(), "z".to_string()));
    assert_eq!(p("plain"), ("unknown".to_string(), "plain".to_string()));
}

#[test]
fn version_cleaning_and_tags() {
    assert_eq!(cleaned_version("^1.2.3"), "1.2.3");
    assert_eq!(cleaned_version(">= 1.0, < 2.0"), "1.0,2.0");
    let tags = vec!["v0.9.0".to_string(), "1.2.7".to_string(), "1.5.0".to_string()];
    assert_eq!(choose_tag("1.2", &tags), Some("1.2.7".to_string()));
    assert_eq!(choose_tag("1.9", &tags), Some("1.2.7".to_string()));
    assert_eq!(choose_tag("0.9.0", &tags), Some("v0.9.0".to_string()));
    assert_eq!(choose_tag("3.0", &tags), None);
    let out = GitOutput { success: true, stdout: " a \nb\n".to_string(), stderr: String::new() };
    assert_eq!(tags_from_output(&out), vec!["a".to_string(), "b".to_string()]);
    let failed = GitOutput { success: false, stdout: "a".to_string(), stderr: String::new() };
    assert!(tags_from_output(&failed).is_empty());
}

fn processor() -> LayerProcessor {
    LayerProcessor::new(sample_graph(), "/ws".to_string(), "/out".to_string(), "git".to_string(), "/home/u".to_string())
}

#[test]
fn branch_search_steps() {
    let lp = processor();
    let node = lp.find_crate_node("lock:lib-a").unwrap();
    let mut known = BranchAnswers { version_branch: None, v_branch: None, tags: None, major_branch: None };
    match cargo_vendormod::layer_processor::find_branch_for_version(node, &known) {
        BranchStep::CheckBranch(b) => assert_eq!(b, "1.0.0"),
        _ => panic!("expected a branch check"),
    }
    known.version_branch = Some(false);
    match cargo_vendormod::layer_processor::find_branch_for_version(node, &known) {
        BranchStep::CheckBranch(b) => assert_eq!(b, "v1.0.0"),
        _ => panic!("expected a branch check"),
    }
    known.v_branch = Some(false);
    assert!(matches!(cargo_vendormod::layer_processor::find_branch_for_version(node, &known), BranchStep::ListTags));
    known.tags = Some(vec!["2.0.0".to_string()]);
    match cargo_vendormod::layer_processor::find_branch_for_version(node, &known) {
        BranchStep::CheckBranch(b) => assert_eq!(b, "v1."),
        _ => panic!("expected a branch check"),
    }
    known.major_branch = Some(false);
    match cargo_vendormod::layer_processor::find_branch_for_version(node, &known) {
        BranchStep::Answer(b) => assert_eq!(b, "1.0.0"),
        _ => panic!("expected an answer"),
    }
    let serde = lp.find_crate_node("lock:serde").unwrap();
    match cargo_vendormod::layer_processor::find_branch_for_version(serde, &known) {
        BranchStep::Answer(b) => assert_eq!(b, "1.0.0"),
        _ => panic!("expected an answer"),
    }
    assert_eq!(lp.find_crate_node("lock:none").err(), Some("Crate lock:none not found in graph".to_string()));
}

#[test]
fn repository_probes_and_choice() {
    let lp = processor();
    let lib = lp.find_crate_node("lock:lib-a").unwrap();
    let probes = lp.repository_probe_paths(lib);
    assert_eq!(
        probes,
        vec![
            "/mnt/data1/nix/vendor/rust/cargo2nix/submodules/lib-a".to_string(),
            "/home/u/git/github.com/o/lib-a.git".to_string(),
            "/out/submodules/lib-a".to_string(),
            "/out/external/lib-a".to_string(),
        ]
    );
    assert_eq!(lp.find_repository(lib, &vec![false, false, true, true]).unwrap(), "/out/submodules/lib-a");
    assert_eq!(
        lp.find_repository(lib, &vec![false; 4]).unwrap_err(),
        "Repository not found for lib-a at any expected location"
    );
    let serde = lp.find_crate_node("lock:serde").unwrap();
    assert!(lp.repository_probe_paths(serde).is_empty());
    assert_eq!(lp.find_repository(serde, &vec![]).unwrap(), "/out/crates-io-cache/serde");
    assert_eq!(lp.layer_output_dir("serde", true), "/out/layer1/serde");
    assert_eq!(lp.layer_output_dir("app", false), "/out/layer2/app");
    assert!(!needs_compile("/out/crates-io-cache/serde"));
    assert_eq!(patch_file_pattern("/out/submodules/lib-a"), "lib-a-*.patch");
}

#[test]
fn checkout_with_local_changes() {
    let lp = processor();
    let ok = |out: &str| GitOutput { success: true, stdout: out.to_string(), stderr: String::new() };
    let repo = "/out/submodules/lib-a";
    let s = lp.checkout_branch(repo, "v1", CheckoutPhase::Begin, false, &ok(""));
    assert_eq!(s.run.as_ref().unwrap().args, vec!["-C", repo, "status", "--porcelain"]);
    let s = lp.checkout_branch(repo, "v1", s.phase, s.had_changes, &ok(" M x"));
    assert!(s.had_changes);
    assert_eq!(s.run.as_ref().unwrap().args[2..], ["stash", "push", "--include-untracked", "-m", "Auto-stash before checkout to v1"]);
    let s = lp.checkout_branch(repo, "v1", s.phase, s.had_changes, &ok(""));
    assert_eq!(s.run.as_ref().unwrap().args[2..], ["fetch", "origin", "v1"]);
    let s = lp.checkout_branch(repo, "v1", s.phase, s.had_changes, &ok(""));
    assert_eq!(s.run.as_ref().unwrap().args[2..], ["checkout", "v1"]);
    let failed = GitOutput { success: false, stdout: String::new(), stderr: "no such branch".to_string() };
    let bad = lp.checkout_branch(repo, "v1", s.phase, s.had_changes, &failed);
    assert!(bad.run.is_none());
    assert_eq!(bad.outcome, Some(Err("Failed to checkout branch v1: no such branch".to_string())));
    let s = lp.checkout_branch(repo, "v1", s.phase, s.had_changes, &ok(""));
    assert_eq!(s.run.as_ref().unwrap().args[2..], ["stash", "pop"]);
    let s = lp.checkout_branch(repo, "v1", s.phase, s.had_changes, &ok(""));
    assert_eq!(s.run.as_ref().unwrap().args[2..], ["status", "--porcelain"]);
    let s = lp.checkout_branch(repo, "v1", s.phase, s.had_changes, &ok(""));
    assert!(s.run.is_none());
    assert_eq!(s.outcome, Some(Ok(())));
}

#[test]
fn checkout_skips_workspace_and_cache() {
    let lp = processor();
    let ok = GitOutput { success: true, stdout: String::new(), stderr: String::new() };
    let s = lp.checkout_branch("/ws/member", "main", CheckoutPhase::Begin, false, &ok);
    assert!(s.run.is_none());
    assert_eq!(s.outcome, Some(Ok(())));
    let s = lp.checkout_branch("/out/crates-io-cache/x", "main", CheckoutPhase::Begin, false, &ok);
    assert_eq!(s.note, Some("  Skipping git checkout for crates.io dependency".to_string()));
}

#[test]
fn layer_flake_mentions_crate() {
    let f = layer_flake_text("serde", "1.0.0");
    assert!(f.contains("description = \"serde v1.0.0 - Auto-generated flake\";"));
    assert!(f.contains("default = self.packages.${system}.serde; "));
    assert!(f.contains("serde = inputs.nixpkgs.legacyPackages.${system}.callPackage ./. { };"));
}
