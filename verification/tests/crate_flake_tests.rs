use cargo_vendormod::crate_flake::{
    find_cargo_lock, generate_flake, render_flake_nix_crate2nix, render_flake_nix_simple,
    render_package_nix, CargoPackage, FlakeError, FlakeSource, FlakeStyle, LockSource,
};

#[test]
fn test_render_package_nix_with_lock() {
    let result = render_package_nix("my-crate", "1.2.3", true, None, None, false);
    assert!(result.contains("pname = \"my-crate\";"), "expected pname");
    assert!(result.contains("version = \"1.2.3\";"), "expected version");
    assert!(result.contains("cargoLock.lockFile"), "expected lock file reference");
}

#[test]
fn test_render_package_nix_with_vendor() {
    let result = render_package_nix("my-crate", "0.1.0", false, Some("vendor"), None, false);
    assert!(result.contains("cargoVendorDir = ./vendor;"), "expected vendored dir");
    assert!(!result.contains("cargoLock.lockFile"), "lock file should not appear");
}

#[test]
fn test_render_flake_nix() {
    let result = render_flake_nix_simple("hello", "0.1.0", &FlakeSource::LocalDir);
    assert!(result.contains("description = \"hello - 0.1.0\";"));
    assert!(result.contains("flake-utils"));
    assert!(result.contains("package.nix"));
    assert!(result.contains("devShells.default"));
    assert!(result.contains("checks.default"));
}

#[test]
fn package_nix_notes_workspace_lock() {
    let result = render_package_nix("c", "1.0.0", false, None, Some("/ws/Cargo.lock"), false);
    assert!(result.contains("# (workspace lock originally at: /ws/Cargo.lock)"));
}

#[test]
fn flake_style_parsing() {
    assert_eq!(FlakeStyle::from_str(Some("crate2nix")), FlakeStyle::Crate2Nix);
    assert_eq!(FlakeStyle::from_str(Some("other")), FlakeStyle::Simple);
    assert_eq!(FlakeStyle::from_str(None), FlakeStyle::Simple);
}

#[test]
fn crate2nix_flake_names_mirror() {
    let result = render_flake_nix_crate2nix("c", "1.0.0", "/nix-common", "/m/c.git", "github.com/o/c");
    assert!(result.contains("/nix-common"));
    assert!(result.contains("/m/c.git"));
}

#[test]
fn generate_flake_simple_plans_two_files() {
    let pkg = CargoPackage { name: Some("test-crate".to_string()), version: Some("0.5.0".to_string()) };
    let plan = generate_flake(
        "/src/my-crate",
        "/out",
        Some(pkg),
        true,
        None,
        None,
        FlakeStyle::Simple,
        None,
        &FlakeSource::LocalDir,
        false,
    )
    .unwrap();
    assert_eq!(plan.file_count, 2);
    assert_eq!(plan.flake_dir, "/out/flakes/test-crate");
    assert_eq!(plan.files[0].0, "/out/flakes/test-crate/package.nix");
    assert_eq!(plan.files[1].0, "/out/flakes/test-crate/flake.nix");
    assert!(plan.files[1].1.contains("test-crate - 0.5.0"));
    assert!(plan.nora_lock.is_none());
}

#[test]
fn generate_flake_virtual_manifest_is_refused() {
    let r = generate_flake(
        "/src/ws",
        "/out",
        None,
        false,
        None,
        None,
        FlakeStyle::Simple,
        None,
        &FlakeSource::LocalDir,
        false,
    );
    match r {
        Err(FlakeError::VirtualManifest(m)) => assert_eq!(m, "/src/ws/Cargo.toml"),
        _ => panic!("expected a virtual manifest error"),
    }
}

#[test]
fn generate_flake_crate2nix_errors() {
    let pkg = || Some(CargoPackage { name: None, version: None });
    let r = generate_flake("/c", "/o", pkg(), true, None, None, FlakeStyle::Crate2Nix, None, &FlakeSource::LocalDir, false);
    assert!(matches!(r, Err(FlakeError::MissingNixCommon)));
    let r = generate_flake("/c", "/o", pkg(), true, None, None, FlakeStyle::Crate2Nix, Some("/nc"), &FlakeSource::LocalDir, false);
    assert!(matches!(r, Err(FlakeError::NeedsGitMirror)));
    let src = FlakeSource::GitMirror { mirror_path: "/m/c.git".to_string(), display: "github.com/o/c".to_string() };
    let plan = generate_flake("/c", "/o", pkg(), true, None, None, FlakeStyle::Crate2Nix, Some("/nc"), &src, false).unwrap();
    assert_eq!(plan.file_count, 1);
    assert_eq!(plan.flake_dir, "/o/flakes/crate");
}

#[test]
fn generate_flake_nora_uses_workspace_lock() {
    let pkg = CargoPackage { name: Some("c".to_string()), version: None };
    let plan = generate_flake(
        "/ws/c",
        "/o",
        Some(pkg),
        false,
        Some("/ws/Cargo.lock"),
        None,
        FlakeStyle::Simple,
        None,
        &FlakeSource::LocalDir,
        true,
    )
    .unwrap();
    match plan.nora_lock {
        Some(LockSource::WorkspaceLock(p)) => assert_eq!(p, "/ws/Cargo.lock"),
        _ => panic!("expected the workspace lock"),
    }
    assert_eq!(plan.nora_cargo_config, Some(("/o/.cargo".to_string(), "/o/.cargo/config.toml".to_string())));
}

#[test]
fn cargo_lock_search_takes_nearest() {
    assert_eq!(find_cargo_lock("/a/b", &vec![false, true, true]), Some("/a/Cargo.lock".to_string()));
    assert_eq!(find_cargo_lock("/a/b", &vec![true]), Some("/a/b/Cargo.lock".to_string()));
    assert_eq!(find_cargo_lock("/a/b", &vec![]), None);
}
