//! The application context: the directories, branch names and switches that
//! the vendoring commands run with, merged from the command line, from the
//! tool's own `[package.metadata]` tables and from built-in defaults.
use vstd::prelude::*;
use crate::path::{file_name_of, join_path, path_file_name, path_join};
use crate::text::{has_prefix, has_suffix, owned, push_str, starts_with, ends_with, str_eq};

verus! {

broadcast use vstd::string::group_string_axioms;

/// Submodules directory, relative to the root, when nothing else names one.
pub const DEFAULT_SUBMODULES_DIR: &'static str = "submodules";
/// Bare mirrors directory when nothing else names one.
pub const DEFAULT_MIRRORS_PATH: &'static str = "/home/mdupont/git/host";
/// Vendor directory, relative to the root, when nothing else names one.
pub const DEFAULT_VENDOR_DIR: &'static str = "vendor";
/// Target branch when nothing else names one.
pub const DEFAULT_TARGET_BRANCH: &'static str = "feature/CRQ-016-nixify";
/// Version branch format when nothing else names one.
pub const DEFAULT_VERSION_BRANCH_FORMAT: &'static str = "v{}";
/// Whether version branches are created when nothing else says.
pub const DEFAULT_CREATE_VERSION_BRANCHES: bool = false;

/// The command-line options that the context is built from.
pub struct ContextArgs {
    pub root_dir: String,
    pub manifest_path: Option<String>,
    pub submodules_path: Option<String>,
    pub mirrors_path: Option<String>,
    pub vendor_dir: Option<String>,
    pub target_branch: Option<String>,
    pub version_branch_format: Option<String>,
    pub create_version_branches: Option<bool>,
    pub dry_run: bool,
    pub verbose: bool,
}

/// What the file system showed when the context was built.
pub struct ContextEnv {
    /// The root directory made canonical, `None` when that failed.
    pub canonical_root: Option<String>,
    /// The text of the tool's own `Cargo.toml`, when it could be read.
    pub own_manifest: Option<String>,
    /// Whether `<root>/Cargo.toml` exists.
    pub root_manifest_exists: bool,
    /// The paths that the manifest glob pattern matched, in order.
    pub manifest_matches: Vec<String>,
}

/// The settings that the vendoring commands run with.
pub struct AppContext {
    pub git_executable_path: String,
    pub root_dir: String,
    pub manifest_path: String,
    pub submodules_dir: String,
    pub mirrors_path: String,
    pub vendor_dir: String,
    pub target_branch: String,
    pub create_version_branches: bool,
    pub version_branch_format: String,
    pub dry_run: bool,
    pub verbose: bool,
    /// A `Cargo.toml` link to the manifest that the caller must create
    /// before cargo runs, and remove afterwards.
    pub temp_symlink: Option<String>,
}

/// The string under `key` in the `[package.metadata.<section>]` table of a
/// TOML document, as `toml_edit` reads it.
pub uninterp spec fn toml_metadata_str(text: Seq<char>, section: Seq<char>, key: Seq<char>) -> Option<Seq<char>>;

/// The boolean under `key` in the `[package.metadata.<section>]` table of a
/// TOML document, as `toml_edit` reads it.
pub uninterp spec fn toml_metadata_bool(text: Seq<char>, section: Seq<char>, key: Seq<char>) -> Option<bool>;

/// Parses `text` with `toml_edit::DocumentMut` and reads the string at
/// `package.metadata.<section>.<key>`: `None` when the text does not parse,
/// when a step is missing or not a table, or when the value is not a
/// string. The contract claims only that the result is the named
/// `toml_metadata_str` of the arguments.
#[verifier::external_body]
fn metadata_str(text: &str, section: &str, key: &str) -> (r: Option<String>)
    ensures
        r.deep_view() == toml_metadata_str(text@, section@, key@),
{
    let doc = text.parse::<toml_edit::DocumentMut>().ok()?;
    let package = doc.get("package")?.as_table()?;
    let table = package.get("metadata")?.as_table()?.get(section)?.as_table()?;
    table.get(key)?.as_str().map(|s| s.to_string())
}

/// As `metadata_str`, for a boolean value. The contract claims only that
/// the result is the named `toml_metadata_bool` of the arguments.
#[verifier::external_body]
fn metadata_bool(text: &str, section: &str, key: &str) -> (r: Option<bool>)
    ensures
        r == toml_metadata_bool(text@, section@, key@),
{
    let doc = text.parse::<toml_edit::DocumentMut>().ok()?;
    let package = doc.get("package")?.as_table()?;
    let table = package.get("metadata")?.as_table()?.get(section)?.as_table()?;
    table.get(key)?.as_bool()
}

/// A metadata string of the tool's own manifest, if it was read.
pub open spec fn own_str(own: Option<Seq<char>>, section: Seq<char>, key: Seq<char>) -> Option<Seq<char>> {
    match own {
        Some(t) => toml_metadata_str(t, section, key),
        None => None,
    }
}

/// A metadata boolean of the tool's own manifest, if it was read.
pub open spec fn own_bool(own: Option<Seq<char>>, section: Seq<char>, key: Seq<char>) -> Option<bool> {
    match own {
        Some(t) => toml_metadata_bool(t, section, key),
        None => None,
    }
}

fn own_metadata_str(own: &Option<String>, section: &str, key: &str) -> (r: Option<String>)
    ensures
        r.deep_view() == own_str(own.deep_view(), section@, key@),
{
    match own {
        Some(t) => metadata_str(t.as_str(), section, key),
        None => None,
    }
}

fn own_metadata_bool(own: &Option<String>, section: &str, key: &str) -> (r: Option<bool>)
    ensures
        r == own_bool(own.deep_view(), section@, key@),
{
    match own {
        Some(t) => metadata_bool(t.as_str(), section, key),
        None => None,
    }
}

/// A directory setting: the command-line value, else the metadata value,
/// each taken relative to the root unless absolute; else the fallback.
pub open spec fn resolve_dir(
    root: Seq<char>,
    cli: Option<Seq<char>>,
    meta: Option<Seq<char>>,
    fallback: Seq<char>,
) -> Seq<char> {
    match cli {
        Some(p) => join_path(root, p),
        None => match meta {
            Some(p) => join_path(root, p),
            None => fallback,
        },
    }
}

fn resolve_dir_exec(root: &str, cli: &Option<String>, meta: Option<String>, fallback: String) -> (r: String)
    ensures
        r@ == resolve_dir(root@, cli.deep_view(), meta.deep_view(), fallback@),
{
    match cli {
        Some(p) => path_join(root, p.as_str()),
        None => match meta {
            Some(p) => path_join(root, p.as_str()),
            None => fallback,
        },
    }
}

/// A value: the first of the command-line value, the metadata value and
/// the default that is there.
pub open spec fn first_given<T>(cli: Option<T>, meta: Option<T>, default: T) -> T {
    match cli {
        Some(v) => v,
        None => match meta {
            Some(v) => v,
            None => default,
        },
    }
}

fn first_given_string(cli: &Option<String>, meta: Option<String>, default: &str) -> (r: String)
    ensures
        r@ == first_given(cli.deep_view(), meta.deep_view(), default@),
{
    match cli {
        Some(v) => v.clone(),
        None => match meta {
            Some(v) => v,
            None => owned(default),
        },
    }
}

/// The glob pattern that looks for a manifest under the root: any name
/// ending in `Cargo.toml`.
pub open spec fn manifest_pattern(root: Seq<char>) -> Seq<char> {
    root + "/"@ + (if ends_with(root, seq!['/']) { ""@ } else { "*"@ }) + "Cargo.toml"@
}

/// Executable `manifest_pattern`.
pub fn manifest_glob_pattern(root: &str) -> (r: String)
    ensures
        r@ == manifest_pattern(root@),
{
    proof {
        reveal_strlit("/");
        assert("/"@ =~= seq!['/']);
    }
    let mut r = owned(root);
    push_str(&mut r, "/");
    if !has_suffix(root, "/") {
        push_str(&mut r, "*");
    } else {
        proof {
            reveal_strlit("");
            assert(r@ =~= root@ + "/"@ + ""@);
        }
    }
    let ghost before = r@;
    push_str(&mut r, "Cargo.toml");
    assert(r@ =~= before + "Cargo.toml"@);
    r
}

/// A manifest candidate is visible when it has a file name that starts
/// with neither `.` nor `#`.
pub open spec fn visible(p: Seq<char>) -> bool {
    match path_file_name(p) {
        Some(n) => !starts_with(n, seq!['.']) && !starts_with(n, seq!['#']),
        None => false,
    }
}

/// The first visible candidate.
pub open spec fn first_visible(ms: Seq<Seq<char>>) -> Option<Seq<char>>
    decreases ms.len(),
{
    if ms.len() == 0 {
        None
    } else if visible(ms[0]) {
        Some(ms[0])
    } else {
        first_visible(ms.drop_first())
    }
}

fn is_visible(p: &str) -> (r: bool)
    ensures
        r == visible(p@),
{
    proof {
        reveal_strlit(".");
        reveal_strlit("#");
        assert("."@ =~= seq!['.']);
        assert("#"@ =~= seq!['#']);
    }
    match file_name_of(p) {
        Some(n) => !has_prefix(n.as_str(), ".") && !has_prefix(n.as_str(), "#"),
        None => false,
    }
}

fn pick_visible(ms: &Vec<String>) -> (r: Option<String>)
    ensures
        r.deep_view() == first_visible(ms@.map_values(|s: String| s@)),
{
    let ghost all = ms@.map_values(|s: String| s@);
    let mut i: usize = 0;
    assert(all.skip(0) =~= all);
    while i < ms.len()
        invariant
            i <= ms.len(),
            all == ms@.map_values(|s: String| s@),
            first_visible(all) == first_visible(all.skip(i as int)),
        decreases ms.len() - i,
    {
        assert(all.skip(i as int).drop_first() =~= all.skip(i + 1));
        if is_visible(ms[i].as_str()) {
            return Some(ms[i].clone());
        }
        i += 1;
    }
    assert(all.skip(i as int).len() == 0);
    None
}

/// The manifest path: the command-line one, else `<root>/Cargo.toml` when
/// it exists, else the first visible glob match, else `<root>/Cargo.toml`.
pub open spec fn chosen_manifest(
    cli: Option<Seq<char>>,
    root: Seq<char>,
    root_manifest_exists: bool,
    matches: Seq<Seq<char>>,
) -> Seq<char> {
    match cli {
        Some(p) => p,
        None => {
            let standard = join_path(root, "Cargo.toml"@);
            if root_manifest_exists {
                standard
            } else {
                match first_visible(matches) {
                    Some(p) => p,
                    None => standard,
                }
            }
        },
    }
}

/// Cargo accepts a manifest only under the name `Cargo.toml`: a link of
/// that name is needed when the manifest has another name and none exists.
pub open spec fn link_needed(manifest: Seq<char>, root_manifest_exists: bool) -> bool {
    path_file_name(manifest) != Some("Cargo.toml"@) && !root_manifest_exists
}

fn is_cargo_toml_name(p: &str) -> (r: bool)
    ensures
        r == (path_file_name(p@) == Some("Cargo.toml"@)),
{
    match file_name_of(p) {
        Some(n) => str_eq(n.as_str(), "Cargo.toml"),
        None => false,
    }
}

/// The view of a context, field by field.
pub open spec fn context_view(c: AppContext) -> (Seq<char>, Seq<char>, Seq<char>, Seq<char>, Seq<char>, Seq<char>, Seq<char>, bool, Seq<char>, bool, bool, Option<Seq<char>>) {
    (
        c.git_executable_path@,
        c.root_dir@,
        c.manifest_path@,
        c.submodules_dir@,
        c.mirrors_path@,
        c.vendor_dir@,
        c.target_branch@,
        c.create_version_branches,
        c.version_branch_format@,
        c.dry_run,
        c.verbose,
        c.temp_symlink.deep_view(),
    )
}

/// The context that command-line options and a canonical root give, with
/// the tool's own manifest text (if read), whether `<root>/Cargo.toml`
/// exists, and the glob matches for other manifests.
pub open spec fn expected_context(
    args: ContextArgs,
    root: Seq<char>,
    own: Option<Seq<char>>,
    root_manifest_exists: bool,
    matches: Seq<Seq<char>>,
) -> (Seq<char>, Seq<char>, Seq<char>, Seq<char>, Seq<char>, Seq<char>, Seq<char>, bool, Seq<char>, bool, bool, Option<Seq<char>>) {
    let meta = "cargo-vendormod"@;
    let manifest = chosen_manifest(args.manifest_path.deep_view(), root, root_manifest_exists, matches);
    let standard = join_path(root, "Cargo.toml"@);
    let link = link_needed(manifest, root_manifest_exists);
    (
        first_given::<Seq<char>>(None, own_str(own, "repo-manager"@, "git_path"@), "git"@),
        root,
        if link { standard } else { manifest },
        resolve_dir(root, args.submodules_path.deep_view(), own_str(own, meta, "submodules-dir"@), join_path(root, "submodules"@)),
        resolve_dir(root, args.mirrors_path.deep_view(), own_str(own, meta, "bare-mirrors-dir"@), "/home/mdupont/git/host"@),
        resolve_dir(root, args.vendor_dir.deep_view(), own_str(own, meta, "vendor-dir"@), join_path(root, "vendor"@)),
        first_given(args.target_branch.deep_view(), own_str(own, meta, "default-target-branch"@), "feature/CRQ-016-nixify"@),
        first_given(args.create_version_branches, own_bool(own, meta, "create-version-branches"@), false),
        first_given(args.version_branch_format.deep_view(), own_str(own, meta, "version-branch-format"@), "v{}"@),
        args.dry_run,
        args.verbose,
        if link { Some(standard) } else { None },
    )
}

impl AppContext {
    /// Builds the context. Fails when the root directory could not be made
    /// canonical; otherwise every setting comes from the command line, else
    /// from the tool's `[package.metadata]`, else from the defaults.
    pub fn from_args(args: &ContextArgs, env: &ContextEnv) -> (r: Result<AppContext, String>)
        ensures
            env.canonical_root is None <==> r is Err,
            r matches Err(e) ==> e@ == "Failed to canonicalize root_dir"@,
            r matches Ok(c) ==> context_view(c) == expected_context(
                *args,
                env.canonical_root->0@,
                env.own_manifest.deep_view(),
                env.root_manifest_exists,
                env.manifest_matches@.map_values(|s: String| s@),
            ),
    {
        let root = match &env.canonical_root {
            Some(r) => r.clone(),
            None => {
                return Err(owned("Failed to canonicalize root_dir"));
            },
        };
        let own = &env.own_manifest;
        let git_executable_path = first_given_string(&None, own_metadata_str(own, "repo-manager", "git_path"), "git");
        let standard = path_join(root.as_str(), "Cargo.toml");
        let manifest = match &args.manifest_path {
            Some(p) => p.clone(),
            None => if env.root_manifest_exists {
                standard.clone()
            } else {
                match pick_visible(&env.manifest_matches) {
                    Some(p) => p,
                    None => standard.clone(),
                }
            },
        };
        let link = !is_cargo_toml_name(manifest.as_str()) && !env.root_manifest_exists;
        let (manifest_path, temp_symlink) = if link {
            (standard.clone(), Some(standard))
        } else {
            (manifest, None)
        };
        let submodules_dir = resolve_dir_exec(
            root.as_str(),
            &args.submodules_path,
            own_metadata_str(own, "cargo-vendormod", "submodules-dir"),
            path_join(root.as_str(), DEFAULT_SUBMODULES_DIR),
        );
        let mirrors_path = resolve_dir_exec(
            root.as_str(),
            &args.mirrors_path,
            own_metadata_str(own, "cargo-vendormod", "bare-mirrors-dir"),
            owned(DEFAULT_MIRRORS_PATH),
        );
        let vendor_dir = resolve_dir_exec(
            root.as_str(),
            &args.vendor_dir,
            own_metadata_str(own, "cargo-vendormod", "vendor-dir"),
            path_join(root.as_str(), DEFAULT_VENDOR_DIR),
        );
        let target_branch = first_given_string(
            &args.target_branch,
            own_metadata_str(own, "cargo-vendormod", "default-target-branch"),
            DEFAULT_TARGET_BRANCH,
        );
        let version_branch_format = first_given_string(
            &args.version_branch_format,
            own_metadata_str(own, "cargo-vendormod", "version-branch-format"),
            DEFAULT_VERSION_BRANCH_FORMAT,
        );
        let create_version_branches = match args.create_version_branches {
            Some(b) => b,
            None => match own_metadata_bool(own, "cargo-vendormod", "create-version-branches") {
                Some(b) => b,
                None => DEFAULT_CREATE_VERSION_BRANCHES,
            },
        };
        Ok(AppContext {
            git_executable_path,
            root_dir: root,
            manifest_path,
            submodules_dir,
            mirrors_path,
            vendor_dir,
            target_branch,
            create_version_branches,
            version_branch_format,
            dry_run: args.dry_run,
            verbose: args.verbose,
            temp_symlink,
        })
    }
}

} // verus!
