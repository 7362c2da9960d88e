//! The DASL pipeline: lockfile generation reports and the aggregate flake.
//!
//! Workspaces under a data directory get a `Cargo.lock` (kept when present,
//! generated otherwise); their outcomes are summarised for display. A list
//! of crate directories is resolved to crate entries (name, version,
//! source, lock) and rendered as one top-level `flake.nix` exposing every
//! crate as a package.
use vstd::prelude::*;
use crate::path::{
    file_name_of, first_existing, join_path, parent_of, path_file_name, path_join, path_parent,
    pick_existing, upward_candidates, upward_paths,
};
use crate::text::{cat, cat3, cat5, decimal, decimal_string, join, join_strings, owned, push_line, push_str, views};

verus! {

// ───────────────────────────── lockfiles ───────────────────────────────

/// What happened to one workspace's lockfile.
pub enum LockfileStatus {
    /// `Cargo.lock` already existed and was copied.
    AlreadyExists,
    /// Generated with `cargo generate-lockfile`.
    Generated,
    /// No `Cargo.toml`.
    Skipped,
    /// `cargo generate-lockfile` failed, with its error output.
    Failed(String),
}

/// The outcome for one workspace.
pub struct LockfileResult {
    pub workspace_name: String,
    pub workspace_path: String,
    pub status: LockfileStatus,
}

/// The number of results whose status satisfies `pred`.
pub open spec fn count_where(rs: Seq<LockfileResult>, pred: spec_fn(LockfileStatus) -> bool) -> nat
    decreases rs.len(),
{
    if rs.len() == 0 {
        0
    } else {
        count_where(rs.drop_last(), pred) + (if pred(rs.last().status) { 1nat } else { 0nat })
    }
}

/// The report lines of the failed workspaces, each ending in a newline.
pub open spec fn failed_lines(rs: Seq<LockfileResult>) -> Seq<char>
    decreases rs.len(),
{
    if rs.len() == 0 {
        Seq::empty()
    } else {
        failed_lines(rs.drop_last()) + match rs.last().status {
            LockfileStatus::Failed(msg) => "  - "@ + rs.last().workspace_name@ + ": "@ + msg@ + "\n"@,
            _ => Seq::empty(),
        }
    }
}

pub open spec fn is_generated(s: LockfileStatus) -> bool {
    s is Generated
}

pub open spec fn is_existing(s: LockfileStatus) -> bool {
    s is AlreadyExists
}

pub open spec fn is_skipped(s: LockfileStatus) -> bool {
    s is Skipped
}

pub open spec fn is_failed(s: LockfileStatus) -> bool {
    s is Failed
}

/// The lockfile summary shown after generation.
pub open spec fn lockfile_summary(rs: Seq<LockfileResult>) -> Seq<char> {
    let failed = count_where(rs, |s: LockfileStatus| is_failed(s));
    "Lockfile generation summary:\n  Total workspaces: "@ + decimal(rs.len()) + "\n  Generated:        "@
        + decimal(count_where(rs, |s: LockfileStatus| is_generated(s))) + "\n  Already existed:  "@
        + decimal(count_where(rs, |s: LockfileStatus| is_existing(s))) + "\n  Skipped:          "@
        + decimal(count_where(rs, |s: LockfileStatus| is_skipped(s))) + "\n  Failed:           "@
        + decimal(failed) + "\n"@ + (if failed > 0 {
        "\nFailed workspaces:\n"@ + failed_lines(rs)
    } else {
        Seq::empty()
    })
}

proof fn lemma_count_bound(rs: Seq<LockfileResult>, pred: spec_fn(LockfileStatus) -> bool)
    ensures
        count_where(rs, pred) <= rs.len(),
    decreases rs.len(),
{
    if rs.len() > 0 {
        lemma_count_bound(rs.drop_last(), pred);
    }
}

/// The four outcomes partition the results.
pub proof fn lemma_counts_partition(rs: Seq<LockfileResult>)
    ensures
        count_where(rs, |s: LockfileStatus| is_generated(s)) + count_where(
            rs,
            |s: LockfileStatus| is_existing(s),
        ) + count_where(rs, |s: LockfileStatus| is_skipped(s)) + count_where(
            rs,
            |s: LockfileStatus| is_failed(s),
        ) == rs.len(),
    decreases rs.len(),
{
    if rs.len() > 0 {
        lemma_counts_partition(rs.drop_last());
    }
}

/// Formats the lockfile generation results for display: the total, the
/// count of each outcome, and a line per failed workspace with its error.
pub fn format_lockfile_summary(results: &Vec<LockfileResult>) -> (r: String)
    ensures
        r@ == lockfile_summary(results@),
{
    let ghost rs = results@;
    let mut generated: usize = 0;
    let mut existing: usize = 0;
    let mut skipped: usize = 0;
    let mut failed: usize = 0;
    let mut failures = String::new();
    for i in 0..results.len()
        invariant
            rs == results@,
            generated == count_where(rs.take(i as int), |s: LockfileStatus| is_generated(s)),
            existing == count_where(rs.take(i as int), |s: LockfileStatus| is_existing(s)),
            skipped == count_where(rs.take(i as int), |s: LockfileStatus| is_skipped(s)),
            failed == count_where(rs.take(i as int), |s: LockfileStatus| is_failed(s)),
            failures@ == failed_lines(rs.take(i as int)),
    {
        proof {
            assert(rs.take(i + 1).drop_last() =~= rs.take(i as int));
            lemma_count_bound(rs.take(i as int), |s: LockfileStatus| is_generated(s));
            lemma_count_bound(rs.take(i as int), |s: LockfileStatus| is_existing(s));
            lemma_count_bound(rs.take(i as int), |s: LockfileStatus| is_skipped(s));
            lemma_count_bound(rs.take(i as int), |s: LockfileStatus| is_failed(s));
        }
        match &results[i].status {
            LockfileStatus::Generated => {
                generated += 1;
            },
            LockfileStatus::AlreadyExists => {
                existing += 1;
            },
            LockfileStatus::Skipped => {
                skipped += 1;
            },
            LockfileStatus::Failed(msg) => {
                failed += 1;
                push_str(&mut failures, "  - ");
                push_str(&mut failures, results[i].workspace_name.as_str());
                push_str(&mut failures, ": ");
                push_str(&mut failures, msg.as_str());
                push_str(&mut failures, "\n");
            },
        }
    }
    assert(rs.take(results.len() as int) =~= rs);
    let mut out = cat("Lockfile generation summary:\n  Total workspaces: ", decimal_string(results.len()).as_str());
    push_str(&mut out, "\n  Generated:        ");
    push_str(&mut out, decimal_string(generated).as_str());
    push_str(&mut out, "\n  Already existed:  ");
    push_str(&mut out, decimal_string(existing).as_str());
    push_str(&mut out, "\n  Skipped:          ");
    push_str(&mut out, decimal_string(skipped).as_str());
    push_str(&mut out, "\n  Failed:           ");
    push_str(&mut out, decimal_string(failed).as_str());
    push_str(&mut out, "\n");
    if failed > 0 {
        push_str(&mut out, "\nFailed workspaces:\n");
        push_str(&mut out, failures.as_str());
    }
    out
}

// ───────────────────────────── crate entries ───────────────────────────

/// A crate of the aggregate flake.
pub struct CrateEntry {
    pub name: String,
    pub source_path: String,
    pub lock_path: Option<String>,
    pub version: String,
}

/// Searches upward from `dir` for the nearest `Cargo.lock`; `exists[i]`
/// tells whether the `i`-th path of `upward_paths(dir, "Cargo.lock")`
/// exists.
pub fn find_lock_upward(dir: &str, exists: &Vec<bool>) -> (r: Option<String>)
    ensures
        r.deep_view() == first_existing(upward_candidates(dir@, "Cargo.lock"@), exists@),
{
    let candidates = upward_paths(dir, "Cargo.lock");
    pick_existing(&candidates, exists)
}

/// Resolves a crate directory to its entry: the package name (the
/// directory's name when the manifest has none, `unknown` when that fails
/// too), the version (`0.0.0` when absent), the directory holding its
/// `Cargo.toml` as source, and the nearest `Cargo.lock` at or above it.
pub fn resolve_crate_entry(
    crate_path: &str,
    package_name: Option<&str>,
    package_version: Option<&str>,
    lock_exists: &Vec<bool>,
) -> (e: CrateEntry)
    ensures
        e.name@ == match package_name {
            Some(n) => n@,
            None => match path_file_name(crate_path@) {
                Some(f) => f,
                None => "unknown"@,
            },
        },
        e.version@ == match package_version {
            Some(v) => v@,
            None => "0.0.0"@,
        },
        e.source_path@ == match path_parent(join_path(crate_path@, "Cargo.toml"@)) {
            Some(p) => p,
            None => crate_path@,
        },
        e.lock_path.deep_view() == first_existing(upward_candidates(crate_path@, "Cargo.lock"@), lock_exists@),
{
    let name = match package_name {
        Some(n) => owned(n),
        None => match file_name_of(crate_path) {
            Some(f) => f,
            None => owned("unknown"),
        },
    };
    let version = match package_version {
        Some(v) => owned(v),
        None => owned("0.0.0"),
    };
    let manifest = path_join(crate_path, "Cargo.toml");
    let source_path = match parent_of(manifest.as_str()) {
        Some(p) => p,
        None => owned(crate_path),
    };
    let lock_path = find_lock_upward(crate_path, lock_exists);
    CrateEntry { name, source_path, lock_path, version }
}

/// The view of a crate entry.
pub open spec fn entry_view(e: CrateEntry) -> (Seq<char>, Seq<char>, Option<Seq<char>>, Seq<char>) {
    (e.name@, e.source_path@, e.lock_path.deep_view(), e.version@)
}

/// The entry that `resolve_crate_entry` makes of a crate directory.
pub open spec fn crate_entry_of(
    crate_path: Seq<char>,
    name: Option<Seq<char>>,
    version: Option<Seq<char>>,
    lock_exists: Seq<bool>,
) -> (Seq<char>, Seq<char>, Option<Seq<char>>, Seq<char>) {
    (
        match name {
            Some(n) => n,
            None => match path_file_name(crate_path) {
                Some(f) => f,
                None => "unknown"@,
            },
        },
        match path_parent(join_path(crate_path, "Cargo.toml"@)) {
            Some(p) => p,
            None => crate_path,
        },
        first_existing(upward_candidates(crate_path, "Cargo.lock"@), lock_exists),
        match version {
            Some(v) => v,
            None => "0.0.0"@,
        },
    )
}

/// The `package.name` and `package.version` strings of a manifest, as the
/// `toml` crate reads it into a JSON value; `None` when it does not parse.
pub uninterp spec fn toml_manifest_fields(text: Seq<char>) -> Option<(Option<Seq<char>>, Option<Seq<char>>)>;

/// Parses `text` with `toml::de::from_str` into a `serde_json::Value`
/// and reads the strings `package.name` and `package.version` (each
/// `None` when missing or not a string); `None` when the text does not
/// parse. The contract claims only that the result is the named
/// `toml_manifest_fields` of the text.
#[verifier::external_body]
fn manifest_fields(text: &str) -> (r: Option<(Option<String>, Option<String>)>)
    ensures
        r.deep_view() == toml_manifest_fields(text@),
{
    let v: serde_json::Value = toml::de::from_str(text).ok()?;
    let field = |k: &str| v.get("package").and_then(|p| p.get(k)).and_then(|x| x.as_str()).map(|s| s.to_string());
    Some((field("name"), field("version")))
}

/// The entries of the crate directories whose manifest could be read
/// (`manifests[i]`, `None` when it could not) and parsed, in order;
/// `lock_exists[i]` tells which upward `Cargo.lock` paths of the `i`-th
/// directory exist.
pub open spec fn crate_entries_of(
    paths: Seq<Seq<char>>,
    manifests: Seq<Option<Seq<char>>>,
    lock_exists: Seq<Seq<bool>>,
) -> Seq<(Seq<char>, Seq<char>, Option<Seq<char>>, Seq<char>)>
    decreases paths.len(),
{
    if paths.len() == 0 {
        Seq::empty()
    } else {
        let k = paths.len() - 1;
        crate_entries_of(paths.drop_last(), manifests, lock_exists) + match manifests[k] {
            Some(text) => match toml_manifest_fields(text) {
                Some((name, version)) => seq![crate_entry_of(paths[k], name, version, lock_exists[k])],
                None => Seq::empty(),
            },
            None => Seq::empty(),
        }
    }
}

fn opt_str(o: &Option<String>) -> (r: Option<&str>)
    ensures
        match r {
            Some(s) => o.deep_view() == Some(s@),
            None => o.deep_view() == None::<Seq<char>>,
        },
{
    match o {
        Some(s) => Some(s.as_str()),
        None => None,
    }
}

/// The entries of the crates (`crate_entries_of`), given the text of each
/// crate's manifest where it could be read and which upward lock paths
/// exist.
pub fn resolve_crate_entries(
    crate_paths: &Vec<String>,
    manifests: &Vec<Option<String>>,
    lock_exists: &Vec<Vec<bool>>,
) -> (r: Vec<CrateEntry>)
    requires
        manifests.len() == crate_paths.len(),
        lock_exists.len() == crate_paths.len(),
    ensures
        r@.map_values(|e: CrateEntry| entry_view(e)) == crate_entries_of(
            views(crate_paths@),
            manifests@.map_values(|m: Option<String>| m.deep_view()),
            lock_exists@.map_values(|v: Vec<bool>| v@),
        ),
{
    let ghost pv = views(crate_paths@);
    let ghost mv = manifests@.map_values(|m: Option<String>| m.deep_view());
    let ghost lv = lock_exists@.map_values(|v: Vec<bool>| v@);
    let mut r: Vec<CrateEntry> = Vec::new();
    let mut i: usize = 0;
    while i < crate_paths.len()
        invariant
            i <= crate_paths.len(),
            manifests.len() == crate_paths.len(),
            lock_exists.len() == crate_paths.len(),
            pv == views(crate_paths@),
            mv == manifests@.map_values(|m: Option<String>| m.deep_view()),
            lv == lock_exists@.map_values(|v: Vec<bool>| v@),
            r@.map_values(|e: CrateEntry| entry_view(e)) == crate_entries_of(pv.take(i as int), mv, lv),
        decreases crate_paths.len() - i,
    {
        assert(pv.take(i + 1).drop_last() =~= pv.take(i as int));
        assert(pv.take(i + 1)[i as int] == crate_paths@[i as int]@);
        assert(mv[i as int] == manifests@[i as int].deep_view());
        assert(lv[i as int] == lock_exists@[i as int]@);
        let ghost before = r@.map_values(|e: CrateEntry| entry_view(e));
        match &manifests[i] {
            Some(text) => match manifest_fields(text.as_str()) {
                Some((name, version)) => {
                    let e = resolve_crate_entry(
                        crate_paths[i].as_str(),
                        opt_str(&name),
                        opt_str(&version),
                        &lock_exists[i],
                    );
                    let ghost ev = entry_view(e);
                    r.push(e);
                    assert(r@.map_values(|e: CrateEntry| entry_view(e)) =~= before.push(ev));
                },
                None => {},
            },
            None => {},
        }
        i += 1;
    }
    assert(pv.take(i as int) =~= pv);
    r
}

/// What to do for a workspace's lockfile: copy the one it has, skip it
/// when it has no manifest, or generate one.
#[derive(PartialEq, Eq, Structural, Clone, Copy, Debug)]
pub enum LockfileAction {
    CopyExisting,
    Skip,
    Generate,
}

/// The action for a workspace, given whether it has a `Cargo.lock` and a
/// `Cargo.toml`.
pub fn lockfile_action(has_lock: bool, has_manifest: bool) -> (r: LockfileAction)
    ensures
        r == if has_lock {
            LockfileAction::CopyExisting
        } else if !has_manifest {
            LockfileAction::Skip
        } else {
            LockfileAction::Generate
        },
{
    if has_lock {
        LockfileAction::CopyExisting
    } else if !has_manifest {
        LockfileAction::Skip
    } else {
        LockfileAction::Generate
    }
}

/// How the action went for a workspace: its lock was copied, it was
/// skipped, or `cargo generate-lockfile` finished (succeeding or not,
/// leaving a `Cargo.lock` or not, writing `stderr`).
pub enum LockfileOutcome {
    Copied,
    Skipped,
    GenerationFinished { success: bool, lock_exists: bool, stderr: String },
}

/// The result for the workspace at `ws_dir`: named after its directory
/// (`unknown` when it has no name), generated only when the command
/// succeeded and left a `Cargo.lock`, failed with the command's error
/// output otherwise.
pub fn lockfile_result(ws_dir: &str, outcome: LockfileOutcome) -> (r: LockfileResult)
    ensures
        r.workspace_name@ == match path_file_name(ws_dir@) {
            Some(f) => f,
            None => "unknown"@,
        },
        r.workspace_path@ == ws_dir@,
        match outcome {
            LockfileOutcome::Copied => r.status is AlreadyExists,
            LockfileOutcome::Skipped => r.status is Skipped,
            LockfileOutcome::GenerationFinished { success, lock_exists, stderr } => if success && lock_exists {
                r.status is Generated
            } else {
                r.status matches LockfileStatus::Failed(m) && m@ == stderr@
            },
        },
{
    let name = match file_name_of(ws_dir) {
        Some(f) => f,
        None => owned("unknown"),
    };
    let status = match outcome {
        LockfileOutcome::Copied => LockfileStatus::AlreadyExists,
        LockfileOutcome::Skipped => LockfileStatus::Skipped,
        LockfileOutcome::GenerationFinished { success, lock_exists, stderr } => if success && lock_exists {
            LockfileStatus::Generated
        } else {
            LockfileStatus::Failed(stderr)
        },
    };
    LockfileResult { workspace_name: name, workspace_path: owned(ws_dir), status }
}

// ───────────────────────────── aggregate flake ─────────────────────────

/// The lines of one crate's package in the aggregate flake.
pub open spec fn entry_lines(e: CrateEntry) -> Seq<Seq<char>> {
    let n = e.name@;
    let head = seq![
        "          "@ + n + " = pkgs.rustPlatform.buildRustPackage {"@,
        "            pname = \""@ + n + "\";"@,
        "            version = \""@ + e.version@ + "\";"@,
        "            src = builtins.path { path = "@ + e.source_path@ + "; name = \""@ + n + "-src\"; };"@,
    ];
    let lock = match e.lock_path {
        Some(l) => "            cargoLock.lockFile = builtins.path { path = "@ + l@ + "; name = \""@ + n
            + "-lock\"; };"@,
        None => "            # cargoLock.lockFile = ...;  # no Cargo.lock found — add manually"@,
    };
    head.push(lock).push("          };"@)
}

/// The package lines of all entries, in order.
pub open spec fn entries_lines(es: Seq<CrateEntry>) -> Seq<Seq<char>>
    decreases es.len(),
{
    if es.len() == 0 {
        Seq::empty()
    } else {
        entries_lines(es.drop_last()) + entry_lines(es.last())
    }
}

/// The header lines of the aggregate flake.
pub open spec fn aggregate_head() -> Seq<Seq<char>> {
    seq![
        "# THIS FILE IS AUTO-GENERATED by cargo-vendormod dasl-pipeline"@,
        "# DO NOT EDIT MANUALLY — regenerate with:"@,
        "#   processing dasl-pipeline --dasl-data <path> --output-dir <dir>"@,
        Seq::<char>::empty(),
        "{"@,
        "  description = \"DASL Crates — aggregated Rust packages from the DASL codebase\";"@,
        Seq::<char>::empty(),
        "  inputs = {"@,
        "    nixpkgs.url = \"github:NixOS/nixpkgs/nixpkgs-unstable\";"@,
        "    flake-utils.url = \"github:numtide/flake-utils\";"@,
        "  };"@,
        Seq::<char>::empty(),
        "  outputs = { self, nixpkgs, flake-utils }:"@,
        "    flake-utils.lib.eachDefaultSystem (system:"@,
        "      let"@,
        "        pkgs = import nixpkgs { inherit system; };"@,
        "      in {"@,
        "        packages = {"@,
    ]
}

/// The footer lines of the aggregate flake.
pub open spec fn aggregate_tail() -> Seq<Seq<char>> {
    seq![
        "        };"@,
        "        devShells.default = pkgs.mkShell {"@,
        "          buildInputs = with pkgs; [ rustc cargo clippy rustfmt ];"@,
        "        };"@,
        "      });"@,
        "}"@,
    ]
}

/// The text of the aggregate flake.
pub open spec fn aggregate_flake(es: Seq<CrateEntry>) -> Seq<char> {
    join(aggregate_head() + entries_lines(es) + aggregate_tail(), "\n"@) + "\n"@
}

fn push_entry_lines(lines: &mut Vec<String>, e: &CrateEntry)
    ensures
        views(final(lines)@) == views(old(lines)@) + entry_lines(*e),
{
    let ghost before = views(lines@);
    let n = e.name.as_str();
    push_line(lines, cat3("          ", n, " = pkgs.rustPlatform.buildRustPackage {"));
    push_line(lines, cat3("            pname = \"", n, "\";"));
    push_line(lines, cat3("            version = \"", e.version.as_str(), "\";"));
    let mut src = cat3("            src = builtins.path { path = ", e.source_path.as_str(), "; name = \"");
    push_str(&mut src, n);
    push_str(&mut src, "-src\"; };");
    push_line(lines, src);
    match &e.lock_path {
        Some(l) => {
            let mut lk = cat3("            cargoLock.lockFile = builtins.path { path = ", l.as_str(), "; name = \"");
            push_str(&mut lk, n);
            push_str(&mut lk, "-lock\"; };");
            push_line(lines, lk);
        },
        None => {
            push_line(lines, owned("            # cargoLock.lockFile = ...;  # no Cargo.lock found — add manually"));
        },
    }
    push_line(lines, owned("          };"));
    assert(views(lines@) =~= before + entry_lines(*e));
}

/// Renders the aggregate `flake.nix`: a header, one package per entry in
/// order (with its lock file when one was found, a note otherwise), and a
/// footer, each line ended by a newline.
pub fn render_aggregate_flake(entries: &Vec<CrateEntry>) -> (r: String)
    ensures
        r@ == aggregate_flake(entries@),
{
    let mut lines: Vec<String> = Vec::new();
    let ghost before = views(lines@);
    push_line(&mut lines, owned("# THIS FILE IS AUTO-GENERATED by cargo-vendormod dasl-pipeline"));
    push_line(&mut lines, owned("# DO NOT EDIT MANUALLY — regenerate with:"));
    push_line(&mut lines, owned("#   processing dasl-pipeline --dasl-data <path> --output-dir <dir>"));
    push_line(&mut lines, String::new());
    push_line(&mut lines, owned("{"));
    push_line(
        &mut lines,
        owned("  description = \"DASL Crates — aggregated Rust packages from the DASL codebase\";"),
    );
    push_line(&mut lines, String::new());
    push_line(&mut lines, owned("  inputs = {"));
    push_line(&mut lines, owned("    nixpkgs.url = \"github:NixOS/nixpkgs/nixpkgs-unstable\";"));
    push_line(&mut lines, owned("    flake-utils.url = \"github:numtide/flake-utils\";"));
    push_line(&mut lines, owned("  };"));
    push_line(&mut lines, String::new());
    push_line(&mut lines, owned("  outputs = { self, nixpkgs, flake-utils }:"));
    push_line(&mut lines, owned("    flake-utils.lib.eachDefaultSystem (system:"));
    push_line(&mut lines, owned("      let"));
    push_line(&mut lines, owned("        pkgs = import nixpkgs { inherit system; };"));
    push_line(&mut lines, owned("      in {"));
    push_line(&mut lines, owned("        packages = {"));
    assert(views(lines@) =~= aggregate_head());
    for i in 0..entries.len()
        invariant
            views(lines@) == aggregate_head() + entries_lines(entries@.take(i as int)),
    {
        push_entry_lines(&mut lines, &entries[i]);
        assert(entries@.take(i + 1).drop_last() =~= entries@.take(i as int));
        assert(views(lines@) =~= aggregate_head() + entries_lines(entries@.take(i + 1)));
    }
    assert(entries@.take(entries.len() as int) =~= entries@);
    let ghost mid = views(lines@);
    push_line(&mut lines, owned("        };"));
    push_line(&mut lines, owned("        devShells.default = pkgs.mkShell {"));
    push_line(&mut lines, owned("          buildInputs = with pkgs; [ rustc cargo clippy rustfmt ];"));
    push_line(&mut lines, owned("        };"));
    push_line(&mut lines, owned("      });"));
    push_line(&mut lines, owned("}"));
    assert(views(lines@) =~= mid + aggregate_tail());
    let mut out = join_strings(&lines, "\n");
    push_str(&mut out, "\n");
    out
}

} // verus!
