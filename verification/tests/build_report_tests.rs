use cargo_vendormod::error_to_llm_pipeline::{
    error_window_on_boundaries, extract_dependencies, extract_error_message, flake_crate_name, BuildOutcome, ErrorToLLMPipeline,
    ParallelBuildConfig,
};

fn pipeline() -> ErrorToLLMPipeline {
    ErrorToLLMPipeline::new(ParallelBuildConfig::default())
}

#[test]
fn error_message_is_taken_around_the_first_error_word() {
    let log = format!("{}error: boom{}", "x".repeat(150), "y".repeat(600));
    let m = extract_error_message(&log);
    // From 100 bytes before `error:` for 500 bytes.
    assert_eq!(m.len(), 500);
    assert!(m.starts_with(&"x".repeat(100)));
    assert!(m.contains("error: boom"));
}

#[test]
fn error_words_are_tried_in_order() {
    // `failed` comes first in the log, but `error:` is looked for first.
    let log = "  step failed\nsomething else\nerror: real cause  ";
    assert_eq!(extract_error_message(log), "step failed\nsomething else\nerror: real cause");
    let short = "   all good   ";
    assert_eq!(extract_error_message(short), "all good");
    let long = "z".repeat(700);
    assert_eq!(extract_error_message(&long).len(), 500);
}

#[test]
fn error_window_counts_bytes() {
    // Each `é` is two bytes: the window of 500 bytes holds 250 of them.
    let log = "é".repeat(400);
    let m = extract_error_message(&log);
    assert_eq!(m.chars().count(), 250);
}

#[test]
fn dependencies_are_found_in_the_log() {
    let deps = extract_dependencies("foo depends on \"bar\" and requires baz-1 but needs 'qux'");
    assert_eq!(deps, vec!["bar", "baz-1", "qux"]);
    assert!(extract_dependencies("nothing here").is_empty());
}

#[test]
fn crate_names_come_from_flake_file_stems() {
    assert_eq!(flake_crate_name("/a/b/serde.nix"), "serde");
    assert_eq!(flake_crate_name("/a/b/flake"), "flake");
    assert_eq!(flake_crate_name("/a/b/.hidden"), ".hidden");
    assert_eq!(flake_crate_name("/a/b/x.tar.gz"), "x.tar");
    assert_eq!(flake_crate_name("/"), "unknown");
}

#[test]
fn build_outcomes_become_results() {
    let p = pipeline();
    let ok = p.build_single_package(
        "flakes/serde.nix",
        &BuildOutcome::Finished { success: true, stderr: String::new() },
        12,
    );
    assert!(ok.success);
    assert!(ok.error.is_none());
    assert_eq!(ok.crate_name, "serde");
    assert_eq!(ok.build_time_ms, 12);

    let failed = p.build_single_package(
        "flakes/tokio.nix",
        &BuildOutcome::Finished { success: false, stderr: "error: file not found; needs libc".to_string() },
        30,
    );
    assert!(!failed.success);
    let e = failed.error.as_ref().unwrap();
    assert_eq!(e.error_message, "error: file not found; needs libc");
    assert!(!e.is_retryable);
    assert_eq!(e.dependencies, vec!["libc"]);
    assert_eq!(failed.dependencies, vec!["libc"]);
    assert_eq!(e.nix_flake_path, "flakes/tokio.nix");

    let not_started = p.build_single_package("x.nix", &BuildOutcome::NotStarted("no nix".to_string()), 0);
    let e = not_started.error.unwrap();
    assert_eq!(e.error_message, "Failed to execute Nix command: no nix");
    assert!(e.is_retryable);
    assert_eq!(e.build_log, "");
    assert_eq!(p.log_path("serde"), "./build_logs/serde.log");
}

#[test]
fn llm_report_lists_failures() {
    let mut p = pipeline();
    assert_eq!(p.generate_llm_error_report().unwrap(), "All builds successful! No errors to report.");
    let ok = p.build_single_package("a.nix", &BuildOutcome::Finished { success: true, stderr: String::new() }, 1);
    let bad = p.build_single_package(
        "b.nix",
        &BuildOutcome::Finished { success: false, stderr: "error: timeout".to_string() },
        2,
    );
    p.add_build_results(vec![ok, bad]);
    let report = p.generate_llm_error_report().unwrap();
    let expected = [
        "# Nix Build Error Report for LLM Analysis\n\n",
        "Total builds: 2\n",
        "Failed builds: 1\n",
        "Success rate: 50%\n\n",
        "## Error 1: b\n",
        "- **Error Message**: error: timeout\n",
        "- **Dependencies**: None\n",
        "- **Retryable**: true\n",
        "- **Build Time**: 2ms\n",
        "- **Flake Path**: b.nix\n\n",
        "### Build Log (first 1000 chars):\n",
        "```\n",
        "error: timeout",
        "```\n\n",
        "## Summary\n",
        "- Total failed builds: 1\n",
        "- Retryable errors: 1\n",
        "- Non-retryable errors: 0\n",
    ]
    .concat();
    assert_eq!(report, expected);
}

#[test]
fn error_window_boundaries_are_checked() {
    assert!(error_window_on_boundaries("error: boom"));
    assert!(error_window_on_boundaries(&"\u{e9}".repeat(300)));
    assert!(!error_window_on_boundaries(&"\u{20ac}".repeat(200)));
}
