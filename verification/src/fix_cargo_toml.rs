//! Workspaces for crates that are built on their own: a minimal
//! `Cargo.toml` made from a crate's manifest (its `[package]` table and a
//! `workspace.package.edition`), a placeholder `lib.rs`, and the fix that
//! adds a missing `workspace.package.edition` to an existing manifest.
use vstd::prelude::*;
use crate::path::{join_path, path_join};
use crate::text::{cat3, owned, str_eq};

verus! {

broadcast use vstd::string::group_string_axioms;

/// A crate to give a workspace of its own: the name of its workspace
/// directory, the name of its sources, and where those come from
/// (`submodule`, `crates.io` or `local`).
pub struct CrateConfig {
    pub display_name: String,
    pub actual_name: String,
    pub source_type: String,
}

/// Where the workspaces are made, where the sources are found, the edition
/// to set, and the crates.
pub struct WorkspaceConfig {
    pub base_dir: String,
    pub submodules_dir: String,
    pub edition: String,
    pub crates: Vec<CrateConfig>,
}

/// The default workspaces directory.
pub const DEFAULT_BASE_DIR: &'static str = "/mnt/data1/nix/vendor/rust/cargo2nix/submodules/cargo-clean/tools/cargo-vendormod/workload/workspaces/rust_toolchain";

/// The default submodules directory.
pub const DEFAULT_SUBMODULES_DIR: &'static str = "/mnt/data1/nix/vendor/rust/cargo2nix/submodules";

fn submodule_crate(name: &str) -> (r: CrateConfig)
    ensures
        r.display_name@ == name@,
        r.actual_name@ == name@,
        r.source_type@ == "submodule"@,
{
    CrateConfig { display_name: owned(name), actual_name: owned(name), source_type: owned("submodule") }
}

/// The names of the crates of the default configuration.
pub open spec fn default_crate_names() -> Seq<Seq<char>> {
    seq!["cargo"@, "cargo_metadata"@, "compiler-builtins"@, "rustc-demangle"@, "rustc_apfloat"@]
}

impl Default for WorkspaceConfig {
    /// The rust toolchain workspaces: edition 2021 and five crates taken
    /// from submodules, each under its own name.
    fn default() -> (r: Self)
        ensures
            r.base_dir@ == DEFAULT_BASE_DIR@,
            r.submodules_dir@ == DEFAULT_SUBMODULES_DIR@,
            r.edition@ == "2021"@,
            r.crates.len() == 5,
            forall|i: int| 0 <= i < 5 ==> (#[trigger] r.crates@[i]).display_name@ == default_crate_names()[i]
                && r.crates@[i].actual_name@ == default_crate_names()[i]
                && r.crates@[i].source_type@ == "submodule"@,
    {
        let mut crates: Vec<CrateConfig> = Vec::new();
        crates.push(submodule_crate("cargo"));
        crates.push(submodule_crate("cargo_metadata"));
        crates.push(submodule_crate("compiler-builtins"));
        crates.push(submodule_crate("rustc-demangle"));
        crates.push(submodule_crate("rustc_apfloat"));
        WorkspaceConfig {
            base_dir: owned(DEFAULT_BASE_DIR),
            submodules_dir: owned(DEFAULT_SUBMODULES_DIR),
            edition: owned("2021"),
            crates,
        }
    }
}

/// Where a crate's manifest is read from: under the submodules directory
/// (in its `crates-io-cache` for `crates.io`), or under the workspaces
/// directory for `local`; any other source counts as a submodule.
pub open spec fn input_path(c: CrateConfig, submodules_dir: Seq<char>, base_dir: Seq<char>) -> Seq<char> {
    let dir = if c.source_type@ == "crates.io"@ {
        join_path(join_path(submodules_dir, "crates-io-cache"@), c.actual_name@)
    } else if c.source_type@ == "local"@ {
        join_path(base_dir, c.actual_name@)
    } else {
        join_path(submodules_dir, c.actual_name@)
    };
    join_path(dir, "Cargo.toml"@)
}

/// The manifest a crate's workspace is made from (`input_path`).
pub fn crate_input_path(c: &CrateConfig, submodules_dir: &str, base_dir: &str) -> (r: String)
    ensures
        r@ == input_path(*c, submodules_dir@, base_dir@),
{
    let dir = if str_eq(c.source_type.as_str(), "crates.io") {
        let cache = path_join(submodules_dir, "crates-io-cache");
        path_join(cache.as_str(), c.actual_name.as_str())
    } else if str_eq(c.source_type.as_str(), "local") {
        path_join(base_dir, c.actual_name.as_str())
    } else {
        path_join(submodules_dir, c.actual_name.as_str())
    };
    path_join(dir.as_str(), "Cargo.toml")
}

/// The manifest of a crate's workspace: `<base_dir>/<display_name>/Cargo.toml`.
pub fn crate_output_path(c: &CrateConfig, base_dir: &str) -> (r: String)
    ensures
        r@ == join_path(join_path(base_dir@, c.display_name@), "Cargo.toml"@),
{
    let dir = path_join(base_dir, c.display_name.as_str());
    path_join(dir.as_str(), "Cargo.toml")
}

/// The placeholder `lib.rs` of a crate's workspace.
pub open spec fn placeholder_lib(display_name: Seq<char>) -> Seq<char> {
    "//! Minimal implementation for cargo-vendormod processing\n//! This will be replaced with actual vendored code\n\npub fn placeholder() -> &'static str {\n    \""@
        + display_name + " - vendored by cargo-vendormod\"\n}"@
}

/// The placeholder `lib.rs` (`placeholder_lib`).
pub fn placeholder_lib_text(display_name: &str) -> (r: String)
    ensures
        r@ == placeholder_lib(display_name@),
{
    let head = "//! Minimal implementation for cargo-vendormod processing\n//! This will be replaced with actual vendored code\n\npub fn placeholder() -> &'static str {\n    \"";
    let tail = " - vendored by cargo-vendormod\"\n}";
    proof {
        reveal_strlit("//! Minimal implementation for cargo-vendormod processing\n//! This will be replaced with actual vendored code\n\npub fn placeholder() -> &'static str {\n    \"");
        reveal_strlit(" - vendored by cargo-vendormod\"\n}");
    }
    cat3(head, display_name, tail)
}

// ───────────────────────────── manifests ───────────────────────────────

/// What `toml_edit` reads from a manifest: `None` when the text is not
/// TOML, else whether `workspace.package.edition` is present.
pub uninterp spec fn toml_workspace_edition_set(text: Seq<char>) -> Option<bool>;

/// The manifest with `workspace.package.edition` set to `edition`, as
/// `toml_edit` writes it back, creating the `workspace` and `package`
/// tables where they are missing; `None` when the text is not TOML or
/// `workspace` is not a table or `workspace.package` is not table-like.
pub uninterp spec fn toml_with_workspace_edition(text: Seq<char>, edition: Seq<char>) -> Option<Seq<char>>;

/// A new manifest holding a copy of the `package` item of `text` (when it
/// has one) and a `workspace` table whose `package.edition` is `edition`,
/// as `toml_edit` writes it; `None` when the text is not TOML.
pub uninterp spec fn toml_minimal_manifest(text: Seq<char>, edition: Seq<char>) -> Option<Seq<char>>;

/// Parses a manifest with `toml_edit::DocumentMut` and tells whether
/// `workspace.package.edition` is present (`Item::get` at each step). The
/// contract claims only that the result is the named
/// `toml_workspace_edition_set` of the text.
#[verifier::external_body]
fn workspace_edition_set(text: &str) -> (r: Option<bool>)
    ensures
        r == toml_workspace_edition_set(text@),
{
    let doc = text.parse::<toml_edit::DocumentMut>().ok()?;
    Some(doc.get("workspace").and_then(|w| w.get("package")).and_then(|p| p.get("edition")).is_some())
}

/// Parses a manifest with `toml_edit::DocumentMut`, inserts empty
/// `workspace` and `workspace.package` tables where they are missing, sets
/// `edition` there and writes the document back (`to_string`). The
/// contract claims only that the result is the named
/// `toml_with_workspace_edition` of the text and edition.
#[verifier::external_body]
fn with_workspace_edition(text: &str, edition: &str) -> (r: Option<String>)
    ensures
        r.deep_view() == toml_with_workspace_edition(text@, edition@),
{
    let mut doc = text.parse::<toml_edit::DocumentMut>().ok()?;
    let ws = doc.entry("workspace").or_insert(toml_edit::table()).as_table_mut()?;
    let pkg = ws.entry("package").or_insert(toml_edit::table()).as_table_like_mut()?;
    pkg.insert("edition", toml_edit::value(edition));
    Some(doc.to_string())
}

/// Parses a manifest with `toml_edit::DocumentMut` and writes a new
/// document holding a clone of its `package` item and a `workspace` table
/// with `package.edition` set. The contract claims only that the result is
/// the named `toml_minimal_manifest` of the text and edition.
#[verifier::external_body]
fn minimal_manifest_of(text: &str, edition: &str) -> (r: Option<String>)
    ensures
        r.deep_view() == toml_minimal_manifest(text@, edition@),
{
    let doc = text.parse::<toml_edit::DocumentMut>().ok()?;
    let mut new_doc = toml_edit::DocumentMut::new();
    if let Some(p) = doc.get("package") {
        new_doc["package"] = p.clone();
    }
    new_doc["workspace"] = toml_edit::table();
    new_doc["workspace"]["package"]["edition"] = toml_edit::value(edition);
    Some(new_doc.to_string())
}

/// Why a manifest cannot be fixed.
#[derive(Clone, Copy, Debug, PartialEq, Eq, Structural)]
pub enum ManifestError {
    /// The text is not TOML.
    NotToml,
    /// `workspace` is not a table, or `workspace.package` is not table-like.
    NotEditable,
}

/// The fix of a manifest's edition: nothing (`Ok(None)`) when
/// `workspace.package.edition` is already set, else the manifest with it
/// set to `edition`.
pub fn edition_fix(text: &str, edition: &str) -> (r: Result<Option<String>, ManifestError>)
    ensures
        toml_workspace_edition_set(text@) is None ==> r == Err::<Option<String>, ManifestError>(ManifestError::NotToml),
        toml_workspace_edition_set(text@) == Some(true) ==> r matches Ok(None),
        toml_workspace_edition_set(text@) == Some(false) ==> match toml_with_workspace_edition(text@, edition@) {
            Some(t) => r matches Ok(Some(u)) && u@ == t,
            None => r == Err::<Option<String>, ManifestError>(ManifestError::NotEditable),
        },
{
    match workspace_edition_set(text) {
        None => Err(ManifestError::NotToml),
        Some(true) => Ok(None),
        Some(false) => match with_workspace_edition(text, edition) {
            Some(t) => Ok(Some(t)),
            None => Err(ManifestError::NotEditable),
        },
    }
}

/// The minimal manifest of a crate's workspace (`toml_minimal_manifest`),
/// or `NotToml` when the crate's manifest is not TOML.
pub fn minimal_manifest(text: &str, edition: &str) -> (r: Result<String, ManifestError>)
    ensures
        match toml_minimal_manifest(text@, edition@) {
            Some(t) => r matches Ok(u) && u@ == t,
            None => r == Err::<String, ManifestError>(ManifestError::NotToml),
        },
{
    match minimal_manifest_of(text, edition) {
        Some(t) => Ok(t),
        None => Err(ManifestError::NotToml),
    }
}

} // verus!
