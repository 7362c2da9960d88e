use cargo_vendormod::config::{generate_sample_config, Config, ConfigFile, EnvOverrides};

#[test]
fn test_default_config() {
    let config = Config::default();
    assert!(!config.git_path.is_empty());
    assert_eq!(config.target_branch, "main");
}

#[test]
fn test_version_branch() {
    let config = Config::default();
    assert_eq!(config.version_branch("1.0.0"), "v1.0.0");

    let mut config = Config::default();
    config.version_branch_format = "{}".to_string();
    assert_eq!(config.version_branch("1.0.0"), "1.0.0");
}

#[test]
fn version_branch_replaces_every_placeholder() {
    let mut config = Config::default();
    config.version_branch_format = "release-{}-{}".to_string();
    assert_eq!(config.version_branch("2.1"), "release-2.1-2.1");
}

#[test]
fn mirror_and_submodule_paths() {
    let mut config = Config::default();
    config.mirrors_dir = "/mirrors".to_string();
    config.submodules_dir = "submodules".to_string();
    assert_eq!(config.get_mirror_path("rust-lang", "cargo"), "/mirrors/rust-lang/cargo.git");
    assert_eq!(config.get_submodule_path("cargo"), "submodules/cargo");
}

#[test]
fn sample_config_mentions_every_setting() {
    let sample = generate_sample_config();
    assert!(sample.contains("git_path"));
    assert!(sample.contains("version_branch_format"));
    assert!(sample.contains("default_threads"));
}

#[test]
fn environment_beats_file_beats_defaults() {
    let defaults = Config::with_defaults(Some("/home/u".to_string()), None, 4);
    let file = ConfigFile {
        git_path: Some("/opt/git".to_string()),
        vendor_dir: Some("deps".to_string()),
        submodules_dir: None,
        mirrors_dir: None,
        manifest_path: None,
        target_branch: Some("dev".to_string()),
        version_branch_format: None,
        create_version_branches: None,
        default_threads: None,
        warm_dirs: None,
    };
    let env = EnvOverrides {
        git_path: None,
        vendor_dir: Some("env-vendor".to_string()),
        submodules_dir: None,
        mirrors_dir: None,
        target_branch: None,
        create_version_branches: None,
        threads: Some("7".to_string()),
    };
    let c = Config::layered(defaults, Some(file), env);
    assert_eq!(c.git_path, "/opt/git");
    assert_eq!(c.vendor_dir, "env-vendor");
    assert_eq!(c.submodules_dir, "submodules");
    assert_eq!(c.mirrors_dir, "/home/u/git");
    assert_eq!(c.target_branch, "dev");
    assert_eq!(c.default_threads, 7);
}

#[test]
fn overrides_of_flags_threads_and_manifest() {
    let defaults = Config::with_defaults(None, None, 4);
    let file = ConfigFile {
        git_path: None,
        vendor_dir: None,
        submodules_dir: None,
        mirrors_dir: None,
        manifest_path: Some("ws/Cargo.toml".to_string()),
        target_branch: None,
        version_branch_format: Some("release-{}".to_string()),
        create_version_branches: Some(true),
        default_threads: Some(3),
        warm_dirs: None,
    };
    let env = EnvOverrides {
        git_path: None,
        vendor_dir: None,
        submodules_dir: None,
        mirrors_dir: None,
        target_branch: None,
        create_version_branches: Some("yes".to_string()),
        threads: Some("many".to_string()),
    };
    let c = Config::layered(defaults, Some(file), env);
    assert!(!c.create_version_branches);
    assert_eq!(c.default_threads, 3);
    assert_eq!(c.manifest_path.as_deref(), Some("ws/Cargo.toml"));
    assert_eq!(c.version_branch_format, "release-{}");
    assert!(c.warm_dirs.is_empty());
    let c2 = Config::layered(Config::with_defaults(None, None, 4), None, EnvOverrides {
        git_path: None,
        vendor_dir: None,
        submodules_dir: None,
        mirrors_dir: None,
        target_branch: None,
        create_version_branches: Some("true".to_string()),
        threads: None,
    });
    assert!(c2.create_version_branches);
    assert_eq!(c2.default_threads, 4);
}
