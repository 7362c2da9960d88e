use cargo_vendormod::lockfile_parser::{
    compute_bare_repo_path, package_from_table, parse_github_url, parse_lockfiles_parallel, LockTable,
    LockfilePackage,
};

fn pkg(name: &str, source: &str) -> LockfilePackage {
    LockfilePackage {
        name: name.to_string(),
        version: "1.0.0".to_string(),
        source: source.to_string(),
        commit: None,
        is_workspace_member: false,
        bare_repo_path: None,
        github_owner: String::new(),
        github_repo: String::new(),
    }
}

#[test]
fn test_parse_github_url_git_at_format() {
    let result = parse_github_url("git@github.com:rust-lang/cargo");
    assert_eq!(result, Some(("rust-lang".to_string(), "cargo".to_string())));
}

#[test]
fn test_parse_github_url_https_format() {
    let result = parse_github_url("https://github.com/rust-lang/cargo");
    assert_eq!(result, Some(("rust-lang".to_string(), "cargo".to_string())));
}

#[test]
fn test_parse_github_url_with_git_extension() {
    let result = parse_github_url("https://github.com/rust-lang/cargo.git");
    assert_eq!(result, Some(("rust-lang".to_string(), "cargo".to_string())));
}

#[test]
fn test_is_git() {
    let p = pkg("test", "git+https://github.com/foo/bar");
    assert!(p.is_git());
}

#[test]
fn test_is_registry() {
    let p = pkg("test", "registry+crates-io");
    assert!(p.is_registry());
}

#[test]
fn test_compute_bare_repo_path() {
    let path = compute_bare_repo_path("rust-lang", "cargo", "/home/user/git");
    assert_eq!(path, "/home/user/git/rust-lang/cargo.git");
}

#[test]
fn github_url_needs_owner_and_repo() {
    assert_eq!(parse_github_url("https://github.com/only"), None);
    assert_eq!(parse_github_url("https://gitlab.com/a/b"), None);
}

#[test]
fn git_package_gets_its_mirror() {
    let t = LockTable {
        name: Some("bar".to_string()),
        version: Some("0.1.0".to_string()),
        source: Some("git+https://github.com/foo/bar?branch=main#abc123".to_string()),
        checksum: None,
        dependencies: vec![],
    };
    let p = package_from_table(&t).unwrap();
    assert_eq!(p.github_owner, "foo");
    assert_eq!(p.github_repo, "bar");
    assert_eq!(p.commit, Some("abc123".to_string()));
    assert_eq!(p.bare_repo_path, Some("/home/mdupont/git/host/foo/bar.git".to_string()));
    assert_eq!(p.github_url(), "https://github.com/foo/bar");
}

#[test]
fn merged_packages_keep_first_and_sort() {
    let a = vec![pkg("zeta", "x"), pkg("alpha", "first")];
    let b = vec![pkg("alpha", "second"), pkg("mid", "y")];
    let merged = parse_lockfiles_parallel(&vec![a, b]);
    let names: Vec<&str> = merged.iter().map(|p| p.name.as_str()).collect();
    assert_eq!(names, vec!["alpha", "mid", "zeta"]);
    assert_eq!(merged[0].source, "first");
}
