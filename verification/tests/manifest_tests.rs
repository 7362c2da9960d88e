use cargo_vendormod::fix_cargo_toml::{
    crate_input_path, crate_output_path, edition_fix, minimal_manifest, placeholder_lib_text, CrateConfig,
    ManifestError, WorkspaceConfig,
};
use cargo_vendormod::global_dep_graph::GlobalDependencyGraphBuilder;
use cargo_vendormod::lockfile_parser::{member_patterns, parse_lockfile_text};

const LOCK: &str = "version = 3\n\n[[package]]\nname = \"app\"\nversion = \"0.1.0\"\ndependencies = [\n \"serde\",\n]\n\n[[package]]\nname = \"serde\"\nversion = \"1.0.0\"\nsource = \"registry+https://github.com/rust-lang/crates.io-index\"\nchecksum = \"abc\"\n";

#[test]
fn lockfile_text_gives_packages() {
    let ps = parse_lockfile_text(LOCK).unwrap();
    let names: Vec<&str> = ps.iter().map(|p| p.name.as_str()).collect();
    assert_eq!(names, vec!["app", "serde"]);
    assert_eq!(ps[1].version, "1.0.0");
    assert!(parse_lockfile_text("[[package]\nname =").is_err());
    assert!(parse_lockfile_text("version = 3\n").unwrap().is_empty());
}

#[test]
fn lockfile_text_builds_the_graph() {
    let mut b = GlobalDependencyGraphBuilder::new("/ws".to_string());
    assert!(b.analyze_from_lockfile_text(LOCK).is_ok());
    let ids: Vec<String> = b.nodes.iter().map(|n| n.id.clone()).collect();
    assert_eq!(ids, vec!["lock:app", "lock:serde"]);
    assert_eq!(b.edges.len(), 1);
    let dot = b.visualization_dot();
    assert!(dot.starts_with("digraph {"));
    assert!(dot.contains("0 -> 1"));
    let mut c = GlobalDependencyGraphBuilder::new("/ws".to_string());
    assert!(c.analyze_from_lockfile_text("not = [toml").is_err());
    assert!(c.nodes.is_empty());
}

#[test]
fn workspace_member_patterns() {
    let text = "[workspace]\nmembers = [\"crates/*\", 3, \"tools/x\"]\n";
    assert_eq!(member_patterns(text), vec!["crates/*", "tools/x"]);
    assert!(member_patterns("[package]\nname = \"a\"\n").is_empty());
    assert!(member_patterns("[workspace\n").is_empty());
}

#[test]
fn edition_is_added_once() {
    let fixed = edition_fix("[package]\nname = \"a\"\n", "2021").unwrap().unwrap();
    assert!(fixed.contains("edition = \"2021\""));
    assert!(fixed.contains("name = \"a\""));
    assert_eq!(edition_fix(&fixed, "2018").unwrap(), None);
    assert_eq!(edition_fix("[package", "2021"), Err(ManifestError::NotToml));
    assert_eq!(edition_fix("workspace = 3\n", "2021"), Err(ManifestError::NotEditable));
}

#[test]
fn minimal_manifest_keeps_the_package() {
    let m = minimal_manifest("[package]\nname = \"a\"\nversion = \"1.0.0\"\n\n[dependencies]\nserde = \"1\"\n", "2021").unwrap();
    assert!(m.contains("name = \"a\""));
    assert!(!m.contains("serde"));
    assert!(m.contains("edition = \"2021\""));
    assert_eq!(minimal_manifest("[", "2021"), Err(ManifestError::NotToml));
}

#[test]
fn crate_paths_follow_the_source() {
    let c = |t: &str| CrateConfig { display_name: "d".to_string(), actual_name: "a".to_string(), source_type: t.to_string() };
    assert_eq!(crate_input_path(&c("submodule"), "/s", "/b"), "/s/a/Cargo.toml");
    assert_eq!(crate_input_path(&c("crates.io"), "/s", "/b"), "/s/crates-io-cache/a/Cargo.toml");
    assert_eq!(crate_input_path(&c("local"), "/s", "/b"), "/b/a/Cargo.toml");
    assert_eq!(crate_input_path(&c("other"), "/s", "/b"), "/s/a/Cargo.toml");
    assert_eq!(crate_output_path(&c("local"), "/b"), "/b/d/Cargo.toml");
}

#[test]
fn placeholder_and_default_config() {
    let lib = placeholder_lib_text("cargo");
    assert!(lib.starts_with("//! Minimal implementation for cargo-vendormod processing\n"));
    assert!(lib.ends_with("    \"cargo - vendored by cargo-vendormod\"\n}"));
    let w = WorkspaceConfig::default();
    assert_eq!(w.edition, "2021");
    let names: Vec<&str> = w.crates.iter().map(|c| c.display_name.as_str()).collect();
    assert_eq!(names, vec!["cargo", "cargo_metadata", "compiler-builtins", "rustc-demangle", "rustc_apfloat"]);
    assert!(w.crates.iter().all(|c| c.source_type == "submodule"));
}
