use cargo_vendormod::monolith_render::{
    generate_crate_toml, generate_flake_nix, generate_lib_rs, generate_workspace_readme, generate_workspace_toml,
    suggest_plan, SrcEntry,
};
use cargo_vendormod::monolith_split::{CrateDef, FeatureGatedModule, SplitContext, SplitPlan, WorkspaceMeta};

fn crate_def(name: &str, depends_on: &[&str]) -> CrateDef {
    CrateDef {
        name: name.to_string(),
        modules: vec!["a".to_string()],
        dir_modules: vec![],
        depends_on: depends_on.iter().map(|s| s.to_string()).collect(),
        external_deps: vec![],
        features: vec![],
        raw_deps: vec![],
        feature_gated: vec![],
    }
}

fn context() -> SplitContext {
    let mut core = crate_def("pi-core", &[]);
    core.external_deps = vec![("serde".to_string(), "1".to_string())];
    core.features = vec![("default".to_string(), vec![]), ("full".to_string(), vec!["a".to_string(), "b".to_string()])];
    core.raw_deps = vec!["tokio = { version = \"1\" }".to_string()];
    core.feature_gated = vec![FeatureGatedModule { module: "net".to_string(), feature: "full".to_string() }];
    let plan = SplitPlan {
        workspace: WorkspaceMeta {
            name: "pi-agent".to_string(),
            version: "0.9.0".to_string(),
            edition: "2021".to_string(),
            description: "An agent".to_string(),
            license: String::new(),
            repository: String::new(),
            readme: String::new(),
        },
        crates: vec![crate_def("pi-tools", &["pi-core", "pi-x"]), core, crate_def("pi-x", &["pi-core"])],
        external_deps: vec![],
    };
    SplitContext::new("/w".to_string(), plan, false)
}

#[test]
fn crate_manifest_lines() {
    let ctx = context();
    let toml = generate_crate_toml(&ctx, &ctx.plan.crates[1]);
    assert!(toml.starts_with("[package]\nname = \"pi-core\"\nversion = \"0.9.0\"\nedition = \"2021\"\ndescription = \"An agent\"\n\n[lib]\nname = \"pi_core\"\n"));
    assert!(!toml.contains("license"));
    assert!(toml.contains("[features]\ndefault = []\nfull = [\"a\", \"b\"]\n"));
    assert!(toml.contains("[dependencies]\nserde = \"1\"\ntokio = { version = \"1\" }\n"));
    assert!(toml.ends_with("\n[lints.rust]\nunsafe_code = \"forbid\"\n"));
    let tools = generate_crate_toml(&ctx, &ctx.plan.crates[0]);
    assert!(tools.contains("pi-core = { path = \"../pi-core\" }\npi-x = { path = \"../pi-x\" }\n"));
}

#[test]
fn lib_rs_declares_modules() {
    let ctx = context();
    let lib = generate_lib_rs(&ctx, &ctx.plan.crates[1]);
    assert!(lib.starts_with("//! pi-core \u{2014} Pi agent sub-crate\n//!\n//! Part of the pi-agent workspace.\n\n#![forbid(unsafe_code)]\n"));
    assert!(lib.ends_with("\n#[cfg(feature = \"full\")]\npub mod net;\n\npub mod a;\n"));
}

#[test]
fn workspace_manifest_and_flake() {
    let ctx = context();
    let ws = generate_workspace_toml(&ctx);
    assert!(ws.starts_with("[workspace]\nresolver = \"3\"\nmembers = [\n    \"pi-tools\",\n    \"pi-core\",\n    \"pi-x\",\n    \".\",\n]\n"));
    assert!(ws.contains("[[bin]]\nname = \"pi_agent\"\npath = \"src/main.rs\"\n"));
    assert!(ws.ends_with("[dependencies]\npi-tools = { path = \"pi-tools\" }\npi-core = { path = \"pi-core\" }\npi-x = { path = \"pi-x\" }\n"));
    let flake = generate_flake_nix(&ctx);
    assert!(flake.starts_with("{\n  description = \"pi-agent \u{2014} Modular Rust workspace\";\n"));
    assert!(flake.contains("        pi-core = mkCrate \"pi-core\" \"pi-core\";\n"));
    assert!(flake.contains("          version = \"0.9.0\";\n"));
    assert!(flake.ends_with("    };\n}\n"));
}

#[test]
fn readme_orders_by_dependency_count() {
    let ctx = context();
    let readme = generate_workspace_readme(&ctx);
    let core = readme.find("| `pi-core` | 1 files | depends: none |").unwrap();
    let x = readme.find("| `pi-x` | 1 files | depends: `pi-core` |").unwrap();
    let tools = readme.find("| `pi-tools` | 1 files | depends: `pi-core`, `pi-x` |").unwrap();
    assert!(core < x && x < tools);
    assert!(readme.starts_with("# pi-agent \u{2014} Workspace Monolith Split\n\nGenerated by `cargo-vendormod split`.\n\n## Sub-crates (3)\n\n"));
}

#[test]
fn plan_suggested_from_listing() {
    let e = |name: &str, is_dir: bool, has_mod_rs: bool| SrcEntry { name: name.to_string(), is_dir, has_mod_rs };
    let entries = vec![
        e("main.rs", false, false),
        e("tools.rs", false, false),
        e("error.rs", false, false),
        e("providers", true, true),
        e("notes", true, false),
        e("README.md", false, false),
        e("bin", true, true),
    ];
    let plan = suggest_plan("mono", None, &entries);
    assert_eq!(plan.workspace.name, "mono");
    assert_eq!(plan.workspace.version, "0.1.0");
    let names: Vec<&str> = plan.crates.iter().map(|c| c.name.as_str()).collect();
    assert!(names.iter().all(|n| n.starts_with("pi-")));
    let all_files: Vec<String> = plan.crates.iter().flat_map(|c| c.modules.clone()).collect();
    let mut sorted = all_files.clone();
    sorted.sort();
    assert_eq!(sorted, vec!["error".to_string(), "tools".to_string()]);
    let all_dirs: Vec<String> = plan.crates.iter().flat_map(|c| c.dir_modules.clone()).collect();
    assert_eq!(all_dirs, vec!["providers".to_string()]);
}
