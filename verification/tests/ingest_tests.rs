use cargo_vendormod::config::{Config, WarmDir};
use cargo_vendormod::git_wrapper::GitOutput;
use cargo_vendormod::global_dep_graph::{DependencyEdge, DependencyEdgeType, DependencyNode};
use cargo_vendormod::graph_merge::analyze_cbor_usage;
use cargo_vendormod::ingest::{
    cid_input, compute_cid, git_state, ingest_all, mark_warmed, registered_submodules, render_lock, state_text, ConfigSection,
    GitState, SubmoduleObservation,
};
use cargo_vendormod::str_map::StrMap;

fn section(name: &str, sub: Option<&str>, path: Option<&str>, url: Option<&str>) -> ConfigSection {
    ConfigSection {
        name: name.to_string(),
        subsection: sub.map(|s| s.to_string()),
        path: path.map(|s| s.to_string()),
        url: url.map(|s| s.to_string()),
        branch: None,
    }
}

fn out(success: bool, stdout: &str) -> Option<GitOutput> {
    Some(GitOutput { success, stdout: stdout.to_string(), stderr: String::new() })
}

#[test]
fn only_complete_submodule_sections_register() {
    let sections = vec![
        section("core", None, None, None),
        section("submodule", Some("vendor/a"), Some("vendor/a"), Some("https://x/a")),
        section("submodule", Some("b"), Some(""), Some("https://x/b")),
        section("submodule", None, Some("c"), Some("https://x/c")),
    ];
    let recs = registered_submodules(&sections);
    assert_eq!(recs.len(), 2);
    assert_eq!(recs[0].name, "vendor/a");
    assert_eq!(recs[1].name, "");
    assert_eq!(recs[1].path, "c");
}

#[test]
fn submodule_states() {
    assert!(matches!(git_state(true, true, &None), GitState::Skipped));
    assert!(matches!(git_state(true, false, &None), GitState::Missing));
    assert!(matches!(git_state(false, true, &out(true, "  \n")), GitState::Clean));
    assert!(matches!(git_state(false, true, &out(true, " M a\n?? b\n")), GitState::Dirty(2)));
    assert!(matches!(git_state(false, true, &out(false, "")), GitState::Unknown));
    assert!(matches!(git_state(false, false, &None), GitState::Missing));
    assert_eq!(state_text(&GitState::Dirty(2)), "dirty (2 changes)");
    assert_eq!(state_text(&GitState::Skipped), "unknown (skipped)");
}

#[test]
fn ingest_counts_and_lock() {
    let sections = vec![
        section("submodule", Some("a"), Some("a"), Some("https://x/a")),
        section("submodule", Some("b"), Some("b"), Some("https://x/b")),
        section("submodule", Some("c"), Some("c"), Some("https://x/c")),
    ];
    let recs = registered_submodules(&sections);
    let found = vec![
        SubmoduleObservation {
            exists: true,
            status: out(true, ""),
            manifest: Some("[package]\nname = \"a\"\nversion = \"1.2.3\"\n".to_string()),
            cargo_toml_exists: true,
            flake_nix_exists: false,
            head: out(true, "abc123\n"),
        },
        SubmoduleObservation {
            exists: true,
            status: out(true, " M x\n"),
            manifest: None,
            cargo_toml_exists: false,
            flake_nix_exists: true,
            head: out(true, "def\n"),
        },
        SubmoduleObservation {
            exists: false,
            status: None,
            manifest: None,
            cargo_toml_exists: false,
            flake_nix_exists: false,
            head: None,
        },
    ];
    let (subs, summary) = ingest_all(&recs, false, &found);
    assert_eq!(subs[0].version, "1.2.3");
    assert_eq!(subs[0].git_status, "clean");
    assert_eq!(subs[0].current_commit, "abc123");
    assert_eq!(subs[1].version, "unknown");
    assert_eq!(subs[1].git_status, "dirty (1 changes)");
    assert_eq!(subs[2].version, "N/A");
    assert_eq!(subs[2].current_commit, "N/A");
    assert_eq!((summary.total, summary.clean, summary.dirty, summary.missing), (3, 1, 1, 1));
    assert_eq!((summary.has_cargo_toml, summary.has_flake_nix), (1, 1));
    assert_eq!(cid_input(&subs[0]), "https://x/a:main:abc123");
    let cids = vec!["c1".to_string(), "c2".to_string(), "c3".to_string()];
    let lock = render_lock(&subs, &cids);
    assert!(lock.contains("# Total: 3 submodules\n\n"));
    assert!(lock.ends_with("c3 c N/A missing https://x/c\n"));
}

#[test]
fn warm_dir_is_marked() {
    let mut config = Config::with_defaults(None, None, 1);
    config.warm_dirs.push(WarmDir {
        path: "/src".to_string(),
        prefix: "p".to_string(),
        exts: vec![],
        max_size: 10,
        last_warmed: None,
    });
    config.warm_dirs.push(WarmDir {
        path: "/other".to_string(),
        prefix: "q".to_string(),
        exts: vec![],
        max_size: 10,
        last_warmed: None,
    });
    mark_warmed(&mut config, "/src", "2024-01-01");
    assert_eq!(config.warm_dirs[0].last_warmed, Some("2024-01-01".to_string()));
    assert_eq!(config.warm_dirs[1].last_warmed, None);
}

fn node(id: &str, name: &str) -> DependencyNode {
    DependencyNode {
        id: id.to_string(),
        crate_name: name.to_string(),
        version: "1".to_string(),
        source: String::new(),
        is_workspace_member: false,
        is_direct_dependency: false,
        features: vec![],
        categories: vec![],
        properties: StrMap::new(),
    }
}

fn edge(from: &str, to: &str) -> DependencyEdge {
    DependencyEdge {
        from: from.to_string(),
        to: to.to_string(),
        edge_type: DependencyEdgeType::Direct,
        required_features: vec![],
        optional_features: vec![],
        is_dev_dependency: false,
        is_build_dependency: false,
        properties: StrMap::new(),
    }
}

#[test]
fn cbor_users_are_found() {
    let nodes = vec![node("1", "app"), node("2", "serde_ipld_dagcbor"), node("3", "other"), node("4", "app")];
    let edges = vec![edge("1", "2"), edge("3", "1")];
    assert_eq!(analyze_cbor_usage(&nodes, &edges), vec!["app".to_string(), "serde_ipld_dagcbor".to_string()]);
    assert!(analyze_cbor_usage(&vec![node("1", "app")], &vec![]).is_empty());
}

#[test]
fn content_ids_are_fnv1a_in_hex() {
    assert_eq!(compute_cid(""), "cbf29ce484222325");
    assert_eq!(compute_cid("a"), "af63dc4c8601ec8c");
    assert_eq!(compute_cid("foobar"), "85944171f73967e8");
}
