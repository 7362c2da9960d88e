use cargo_vendormod::dasl_metadata_processor::{gitmodules_paths, DaslMetadata};
use cargo_vendormod::dasl_pipeline::{
    format_lockfile_summary, lockfile_action, lockfile_result, render_aggregate_flake, resolve_crate_entries,
    resolve_crate_entry, CrateEntry, LockfileAction, LockfileOutcome, LockfileResult, LockfileStatus,
};
use cargo_vendormod::gitmodules_metadata::GitmodulesData;

#[test]
fn test_dasl_metadata_new() {
    let metadata = DaslMetadata::new();
    assert_eq!(metadata.total_projects, 0);
    assert_eq!(metadata.total_submodules, 0);
    assert!(metadata.all_submodules.is_empty());
}

#[test]
fn test_fuzzer_harnesses_empty() {
    let metadata = DaslMetadata::new();
    assert_eq!(metadata.fuzzer_harnesses().len(), 0);
}

#[test]
fn metadata_indexes_by_type_annotation() {
    let content = "# gemini-annotations:\n#   type: fuzzer-harness\n#   fuzzer-engine: libfuzzer\n[submodule \"fz\"]\n\tpath = fz\n\turl = u\n\n[submodule \"lib\"]\n\tpath = lib\n\turl = v\n";
    let data = GitmodulesData::parse(content).unwrap();
    let mut metadata = DaslMetadata::new();
    metadata.add_project(&data);
    assert_eq!(metadata.total_projects, 1);
    assert_eq!(metadata.total_submodules, 2);
    assert_eq!(metadata.all_submodules.len(), 2);
    let harnesses = metadata.fuzzer_harnesses();
    assert_eq!(harnesses.len(), 1);
    assert_eq!(harnesses[0].path, "fz");
    assert!(metadata.by_fuzzer_engine.contains_key("libfuzzer"));
}

#[test]
fn gitmodules_paths_from_list() {
    let paths = gitmodules_paths("a/.gitmodules\n  b/.gitmodules  \nREADME\n", "/root");
    assert_eq!(paths, vec!["/root/a/.gitmodules".to_string(), "/root/b/.gitmodules".to_string()]);
}

#[test]
fn test_render_aggregate_flake() {
    let entries = vec![
        CrateEntry {
            name: "crate-a".to_string(),
            source_path: "/src/a".to_string(),
            lock_path: Some("/src/a/Cargo.lock".to_string()),
            version: "1.0.0".to_string(),
        },
        CrateEntry {
            name: "crate-b".to_string(),
            source_path: "/src/b".to_string(),
            lock_path: None,
            version: "0.5.0".to_string(),
        },
    ];

    let result = render_aggregate_flake(&entries);
    assert!(result.contains("crate-a"));
    assert!(result.contains("crate-b"));
    assert!(result.contains("Cargo.lock"));
    assert!(result.contains("no Cargo.lock found"));
}

#[test]
fn aggregate_flake_ends_with_newline() {
    let result = render_aggregate_flake(&vec![]);
    assert!(result.ends_with("}\n"));
    assert!(result.starts_with("# THIS FILE IS AUTO-GENERATED"));
}

#[test]
fn test_resolve_crate_entries() {
    let entry = resolve_crate_entry("/tmp/test-crate", Some("test-crate"), Some("0.1.0"), &vec![true]);
    assert_eq!(entry.name, "test-crate");
    assert_eq!(entry.version, "0.1.0");
    assert!(entry.lock_path.is_some());
    assert_eq!(entry.source_path, "/tmp/test-crate");
}

#[test]
fn crate_entry_defaults() {
    let entry = resolve_crate_entry("/x/dir-name", None, None, &vec![false, false]);
    assert_eq!(entry.name, "dir-name");
    assert_eq!(entry.version, "0.0.0");
    assert_eq!(entry.lock_path, None);
}

#[test]
fn lockfile_summary_counts() {
    let results = vec![
        LockfileResult { workspace_name: "a".to_string(), workspace_path: "/a".to_string(), status: LockfileStatus::Generated },
        LockfileResult { workspace_name: "b".to_string(), workspace_path: "/b".to_string(), status: LockfileStatus::AlreadyExists },
        LockfileResult { workspace_name: "c".to_string(), workspace_path: "/c".to_string(), status: LockfileStatus::Failed("boom".to_string()) },
    ];
    let s = format_lockfile_summary(&results);
    assert_eq!(
        s,
        "Lockfile generation summary:\n  Total workspaces: 3\n  Generated:        1\n  Already existed:  1\n  Skipped:          0\n  Failed:           1\n\nFailed workspaces:\n  - c: boom\n"
    );
}

#[test]
fn crate_entries_skip_unreadable_and_unparsable_manifests() {
    let paths = vec!["/w/a".to_string(), "/w/b".to_string(), "/w/c".to_string(), "/w/d".to_string()];
    let manifests = vec![
        Some("[package]\nname = \"alpha\"\nversion = \"1.2.3\"\n".to_string()),
        None,
        Some("not [valid toml".to_string()),
        Some("[package]\nedition = \"2021\"\n".to_string()),
    ];
    let locks = vec![vec![false, true], vec![], vec![], vec![true]];
    let entries = resolve_crate_entries(&paths, &manifests, &locks);
    assert_eq!(entries.len(), 2);
    assert_eq!(entries[0].name, "alpha");
    assert_eq!(entries[0].version, "1.2.3");
    assert_eq!(entries[0].source_path, "/w/a");
    assert_eq!(entries[0].lock_path.as_deref(), Some("/w/Cargo.lock"));
    assert_eq!(entries[1].name, "d");
    assert_eq!(entries[1].version, "0.0.0");
    assert_eq!(entries[1].lock_path.as_deref(), Some("/w/d/Cargo.lock"));
}

#[test]
fn lockfile_actions_and_results() {
    assert_eq!(lockfile_action(true, false), LockfileAction::CopyExisting);
    assert_eq!(lockfile_action(false, false), LockfileAction::Skip);
    assert_eq!(lockfile_action(false, true), LockfileAction::Generate);
    let r = lockfile_result("/data/ws1", LockfileOutcome::Copied);
    assert_eq!(r.workspace_name, "ws1");
    assert!(matches!(r.status, LockfileStatus::AlreadyExists));
    let r = lockfile_result(
        "/data/ws2",
        LockfileOutcome::GenerationFinished { success: true, lock_exists: false, stderr: "oops".to_string() },
    );
    assert!(matches!(r.status, LockfileStatus::Failed(ref m) if m == "oops"));
    let r = lockfile_result(
        "/data/ws3",
        LockfileOutcome::GenerationFinished { success: true, lock_exists: true, stderr: String::new() },
    );
    assert!(matches!(r.status, LockfileStatus::Generated));
    let r = lockfile_result("/", LockfileOutcome::Skipped);
    assert_eq!(r.workspace_name, "unknown");
}
