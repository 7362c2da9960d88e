use cargo_vendormod::monolith_split::{default_edition, group_modules_by_prefix, validate_plan, PlanError, SplitPlan, WorkspaceMeta, CrateDef, SplitContext};

#[test]
fn test_group_modules_by_prefix() {
    let files = vec![
        "error".to_string(), "tools".to_string(), "agent".to_string(),
        "vcr".to_string(), "tui".to_string(), "theme".to_string(),
    ];
    let dirs = vec!["providers".to_string(), "interactive".to_string()];

    let groups = group_modules_by_prefix(&files, &dirs);
    assert!(!groups.is_empty());

    // error → traits
    let traits = groups.iter().find(|(k, _)| k == "traits").unwrap();
    assert!(traits.1.0.contains(&"error".to_string()));

    // tools → tools
    let tools = groups.iter().find(|(k, _)| k == "tools").unwrap();
    assert!(tools.1.0.contains(&"tools".to_string()));
}

#[test]
fn groups_are_sorted_and_misc_collects_the_rest() {
    let files = vec!["zeta".to_string(), "auth_x".to_string(), "alpha".to_string()];
    let groups = group_modules_by_prefix(&files, &vec![]);
    let names: Vec<&str> = groups.iter().map(|(k, _)| k.as_str()).collect();
    assert_eq!(names, vec!["auth", "misc"]);
    assert_eq!(groups[1].1 .0, vec!["zeta".to_string(), "alpha".to_string()]);
}

fn meta() -> WorkspaceMeta {
    WorkspaceMeta {
        name: "w".to_string(),
        version: "0.1.0".to_string(),
        edition: default_edition(),
        description: String::new(),
        license: String::new(),
        repository: String::new(),
        readme: String::new(),
    }
}

fn crate_def(name: &str) -> CrateDef {
    CrateDef {
        name: name.to_string(),
        modules: vec![],
        dir_modules: vec![],
        depends_on: vec![],
        external_deps: vec![],
        features: vec![],
        raw_deps: vec![],
        feature_gated: vec![],
    }
}

#[test]
fn plan_validation() {
    let empty = SplitPlan { workspace: meta(), crates: vec![], external_deps: vec![] };
    assert!(matches!(validate_plan(&empty), Err(PlanError::NoCrates)));
    let dup = SplitPlan { workspace: meta(), crates: vec![crate_def("a"), crate_def("b"), crate_def("a")], external_deps: vec![] };
    match validate_plan(&dup) {
        Err(PlanError::DuplicateCrate(n)) => assert_eq!(n, "a"),
        _ => panic!("expected a duplicate"),
    }
    let ok = SplitPlan { workspace: meta(), crates: vec![crate_def("a"), crate_def("b")], external_deps: vec![] };
    assert!(validate_plan(&ok).is_ok());
    assert_eq!(default_edition(), "2021");
}

#[test]
fn split_context_paths() {
    let plan = SplitPlan { workspace: meta(), crates: vec![], external_deps: vec![] };
    let ctx = SplitContext::new("/repo".to_string(), plan, true);
    assert_eq!(ctx.src_dir, "/repo/src");
    assert_eq!(ctx.crate_dir("pi-core"), "/repo/pi-core");
    assert_eq!(ctx.crate_src_dir("pi-core"), "/repo/pi-core/src");
}
