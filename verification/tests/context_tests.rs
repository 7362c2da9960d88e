use cargo_vendormod::context::{manifest_glob_pattern, AppContext, ContextArgs, ContextEnv};

fn args_for(root: &str) -> ContextArgs {
    ContextArgs {
        root_dir: root.to_string(),
        manifest_path: None,
        submodules_path: None,
        mirrors_path: None,
        vendor_dir: None,
        target_branch: None,
        version_branch_format: None,
        create_version_branches: None,
        dry_run: false,
        verbose: false,
    }
}

fn env_for(root: &str) -> ContextEnv {
    ContextEnv {
        canonical_root: Some(root.to_string()),
        own_manifest: None,
        root_manifest_exists: true,
        manifest_matches: vec![],
    }
}

#[test]
fn test_app_context_default_paths() {
    let args = args_for("/tmp/ctxtest");
    let ctx = AppContext::from_args(&args, &env_for("/tmp/ctxtest")).unwrap();
    assert!(ctx.root_dir.ends_with("ctxtest"));
    assert_eq!(ctx.submodules_dir, "/tmp/ctxtest/submodules");
    assert_eq!(ctx.vendor_dir, "/tmp/ctxtest/vendor");
    assert_eq!(ctx.mirrors_path, "/home/mdupont/git/host");
    assert_eq!(ctx.target_branch, "feature/CRQ-016-nixify");
    assert_eq!(ctx.version_branch_format, "v{}");
    assert!(!ctx.create_version_branches);
    assert_eq!(ctx.git_executable_path, "git");
    assert_eq!(ctx.manifest_path, "/tmp/ctxtest/Cargo.toml");
    assert_eq!(ctx.temp_symlink, None);
}

#[test]
fn test_app_context_absolute_paths() {
    let mut args = args_for("/tmp/ctxtest");
    args.submodules_path = Some("/absolute/path".to_string());
    args.mirrors_path = Some("/absolute/mirrors".to_string());
    let ctx = AppContext::from_args(&args, &env_for("/tmp/ctxtest")).unwrap();
    assert_eq!(ctx.submodules_dir, "/absolute/path");
    assert_eq!(ctx.mirrors_path, "/absolute/mirrors");
}

#[test]
fn test_app_context_relative_paths() {
    let mut args = args_for("/tmp/ctxtest");
    args.submodules_path = Some("relative/submodules".to_string());
    let ctx = AppContext::from_args(&args, &env_for("/tmp/ctxtest")).unwrap();
    assert!(ctx.submodules_dir.ends_with("relative/submodules"));
    assert_eq!(ctx.submodules_dir, "/tmp/ctxtest/relative/submodules");
}

#[test]
fn test_app_context_dry_run() {
    let mut args = args_for("/tmp/ctxtest");
    args.dry_run = true;
    let ctx = AppContext::from_args(&args, &env_for("/tmp/ctxtest")).unwrap();
    assert!(ctx.dry_run);
}

#[test]
fn context_fails_without_canonical_root() {
    let args = args_for("/nowhere");
    let mut env = env_for("/nowhere");
    env.canonical_root = None;
    match AppContext::from_args(&args, &env) {
        Err(e) => assert_eq!(e, "Failed to canonicalize root_dir"),
        Ok(_) => panic!("expected an error"),
    }
}

#[test]
fn context_reads_own_metadata() {
    let args = args_for("/r");
    let mut env = env_for("/r");
    env.own_manifest = Some(
        "[package]\nname = \"x\"\n\n[package.metadata.repo-manager]\ngit_path = \"/opt/git\"\n\n[package.metadata.cargo-vendormod]\nsubmodules-dir = \"subs\"\nbare-mirrors-dir = \"/m\"\nvendor-dir = \"v\"\ndefault-target-branch = \"dev\"\nversion-branch-format = \"release-{}\"\ncreate-version-branches = true\n"
            .to_string(),
    );
    let ctx = AppContext::from_args(&args, &env).unwrap();
    assert_eq!(ctx.git_executable_path, "/opt/git");
    assert_eq!(ctx.submodules_dir, "/r/subs");
    assert_eq!(ctx.mirrors_path, "/m");
    assert_eq!(ctx.vendor_dir, "/r/v");
    assert_eq!(ctx.target_branch, "dev");
    assert_eq!(ctx.version_branch_format, "release-{}");
    assert!(ctx.create_version_branches);
}

#[test]
fn command_line_wins_over_metadata() {
    let mut args = args_for("/r");
    args.target_branch = Some("main".to_string());
    args.create_version_branches = Some(false);
    let mut env = env_for("/r");
    env.own_manifest = Some(
        "[package.metadata.cargo-vendormod]\ndefault-target-branch = \"dev\"\ncreate-version-branches = true\n".to_string(),
    );
    let ctx = AppContext::from_args(&args, &env).unwrap();
    assert_eq!(ctx.target_branch, "main");
    assert!(!ctx.create_version_branches);
}

#[test]
fn glob_match_needs_a_link() {
    let args = args_for("/r");
    let mut env = env_for("/r");
    env.root_manifest_exists = false;
    env.manifest_matches = vec![
        "/r/.hiddenCargo.toml".to_string(),
        "/r/#Cargo.toml".to_string(),
        "/r/MyCargo.toml".to_string(),
    ];
    let ctx = AppContext::from_args(&args, &env).unwrap();
    assert_eq!(ctx.manifest_path, "/r/Cargo.toml");
    assert_eq!(ctx.temp_symlink, Some("/r/Cargo.toml".to_string()));
}

#[test]
fn explicit_manifest_kept_when_root_manifest_exists() {
    let mut args = args_for("/r");
    args.manifest_path = Some("/elsewhere/Other.toml".to_string());
    let ctx = AppContext::from_args(&args, &env_for("/r")).unwrap();
    assert_eq!(ctx.manifest_path, "/elsewhere/Other.toml");
    assert_eq!(ctx.temp_symlink, None);
}

#[test]
fn manifest_pattern_shapes() {
    assert_eq!(manifest_glob_pattern("/r"), "/r/*Cargo.toml");
    assert_eq!(manifest_glob_pattern("/"), "//Cargo.toml");
}
