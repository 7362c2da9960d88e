use cargo_vendormod::lattice::{generate_lattice_node, render_pipelight_toml, render_skill_md, LatticeProject};

fn project(mirror: Option<&str>, deps: Vec<&str>) -> LatticeProject {
    LatticeProject {
        name: "ipld-core".to_string(),
        crate_name: "libipld-core".to_string(),
        version: "0.4.3".to_string(),
        source_dir: "/home/mdupont/dasl/rust/ipld-core".to_string(),
        language: "Rust".to_string(),
        description: "IPLD core types".to_string(),
        git_mirror: mirror.map(|m| m.to_string()),
        dependencies: deps.into_iter().map(|d| d.to_string()).collect(),
    }
}

#[test]
fn test_render_pipelight_rust() {
    let project = project(Some("/home/mdupont/git/github.com/ipld/rust-ipld-core.git"), vec!["cid", "serde"]);
    let toml = render_pipelight_toml(&project, true);
    assert!(toml.contains("build-libipld-core"));
    assert!(toml.contains("publish-libipld-core"));
    assert!(toml.contains("ci-libipld-core"));
    assert!(toml.contains("cargo publish --registry nora"));
}

#[test]
fn test_render_skill_md() {
    let project = project(None, vec!["cid"]);
    let md = render_skill_md(&project);
    assert!(md.contains("# libipld-core"));
    assert!(md.contains("cid"));
    assert!(md.contains("nora"));
}

#[test]
fn pipelight_without_nora_has_only_build() {
    let toml = render_pipelight_toml(&project(None, vec![]), false);
    assert!(toml.contains("build-libipld-core"));
    assert!(!toml.contains("publish-"));
}

#[test]
fn skill_md_without_dependencies() {
    let mut p = project(None, vec![]);
    p.description = String::new();
    let md = render_skill_md(&p);
    assert!(md.contains("(none detected)"));
    assert!(md.contains("libipld-core crate (v0.4.3)"));
    assert!(md.contains("(no mirror configured)"));
}

#[test]
fn lattice_node_counts_files() {
    let p = project(None, vec![]);
    let plan = generate_lattice_node(&p, "/out", true, None, true, None);
    assert!(plan.is_err());
    let mut q = project(None, vec![]);
    q.language = "Go".to_string();
    let plan = generate_lattice_node(&q, "/out", true, None, true, None).unwrap();
    assert_eq!(plan.file_count, 4);
    assert_eq!(plan.node_dir, "/out/libipld-core");
}
