//! Packages of `Cargo.lock` files: where each comes from, and the GitHub
//! repository and local bare mirror of git packages.
//!
//! A lockfile's `[[package]]` tables arrive as plain `LockTable` values.
//! The packages of several lockfiles are merged keeping the first package
//! of each name, ordered by name.
use vstd::prelude::*;
use crate::lockfile_parser::LockDepEntry::{Inline, Other, Text};
use crate::order::{less_than, str_less, strictly_sorted, lemma_less_total, lemma_less_transitive};
use crate::path::{join_path, path_join};
use crate::text::{
    cat, contains, has_prefix, views, has_substr, owned, split_at_first, split_once, starts_with, str_eq,
    strip_leading, trim_start_matches,
};

verus! {

/// The mirrors root used for bare repositories.
pub const DEFAULT_MIRRORS_PATH: &'static str = "/home/mdupont/git/host";

/// One entry of a lockfile package's `dependencies` array.
pub enum LockDepEntry {
    /// A string: `"name"` or `"name version"` or `"name (source)"`.
    Text(String),
    /// An inline table, with its `package` and `name` keys.
    Inline { package: Option<String>, name: Option<String> },
    /// Any other value.
    Other,
}

/// One `[[package]]` table of a `Cargo.lock`, with the fields read here.
pub struct LockTable {
    pub name: Option<String>,
    pub version: Option<String>,
    pub source: Option<String>,
    pub checksum: Option<String>,
    /// The entries of its `dependencies` array (empty when there is none).
    pub dependencies: Vec<LockDepEntry>,
}

/// A `dependencies` entry as a value.
pub enum LockDepView {
    Text(Seq<char>),
    Inline(Option<Seq<char>>, Option<Seq<char>>),
    Other,
}

/// A `[[package]]` table as a value.
pub struct LockTableView {
    pub name: Option<Seq<char>>,
    pub version: Option<Seq<char>>,
    pub source: Option<Seq<char>>,
    pub checksum: Option<Seq<char>>,
    pub dependencies: Seq<LockDepView>,
}

/// The value of a `dependencies` entry.
pub open spec fn lock_dep_view(e: LockDepEntry) -> LockDepView {
    match e {
        LockDepEntry::Text(s) => LockDepView::Text(s@),
        LockDepEntry::Inline { package, name } => LockDepView::Inline(package.deep_view(), name.deep_view()),
        LockDepEntry::Other => LockDepView::Other,
    }
}

/// The value of a `[[package]]` table.
pub open spec fn lock_table_view(t: LockTable) -> LockTableView {
    LockTableView {
        name: t.name.deep_view(),
        version: t.version.deep_view(),
        source: t.source.deep_view(),
        checksum: t.checksum.deep_view(),
        dependencies: t.dependencies@.map_values(|e: LockDepEntry| lock_dep_view(e)),
    }
}

/// The values of several tables.
pub open spec fn lock_table_views(ts: Seq<LockTable>) -> Seq<LockTableView> {
    ts.map_values(|t: LockTable| lock_table_view(t))
}

/// The text fields of a `[[package]]` table: `name`, `version`, `source`
/// and `checksum`.
pub type LockFields = (Option<Seq<char>>, Option<Seq<char>>, Option<Seq<char>>, Option<Seq<char>>);

/// What `toml_edit` reads from the text of a `Cargo.lock`: `None` when the
/// text is not TOML, else for each `[[package]]` table (none when
/// `package` is not an array of tables) its `name`, `version`, `source`
/// and `checksum` strings.
pub uninterp spec fn toml_lock_fields(text: Seq<char>) -> Option<Seq<LockFields>>;

/// What `toml_edit` reads from the text of a `Cargo.lock`: `None` when the
/// text is not TOML, else for each `[[package]]` table the entries of its
/// `dependencies` array.
pub uninterp spec fn toml_lock_dependencies(text: Seq<char>) -> Option<Seq<Seq<LockDepView>>>;

/// The `[[package]]` tables of a `Cargo.lock` text: the fields and the
/// dependencies of each, table by table (a table without a dependency
/// list counts as having none); `None` when the text is not TOML.
pub open spec fn toml_lock_tables(text: Seq<char>) -> Option<Seq<LockTableView>> {
    match (toml_lock_fields(text), toml_lock_dependencies(text)) {
        (Some(f), Some(d)) => Some(
            Seq::new(
                f.len(),
                |i: int|
                    LockTableView {
                        name: f[i].0,
                        version: f[i].1,
                        source: f[i].2,
                        checksum: f[i].3,
                        dependencies: if i < d.len() {
                            d[i]
                        } else {
                            Seq::empty()
                        },
                    },
            ),
        ),
        _ => None,
    }
}

/// Parses a `Cargo.lock` with `toml_edit::DocumentMut` and takes from each
/// `[[package]]` table its `name`, `version`, `source` and `checksum`
/// strings. The contract claims only that the result is the named
/// `toml_lock_fields` of the text.
#[verifier::external_body]
fn lock_fields_of(text: &str) -> (r: Option<Vec<(Option<String>, Option<String>, Option<String>, Option<String>)>>)
    ensures
        r is None <==> toml_lock_fields(text@) is None,
        r matches Some(v) ==> toml_lock_fields(text@) == Some(v@.map_values(
            |x: (Option<String>, Option<String>, Option<String>, Option<String>)| (x.0.deep_view(), x.1.deep_view(), x.2.deep_view(), x.3.deep_view()),
        )),
{
    let doc = text.parse::<toml_edit::DocumentMut>().ok()?;
    let a = doc.get("package").and_then(|p| p.as_array_of_tables()).map_or(Vec::new(), |a| a.iter().collect());
    let s = |t: &toml_edit::Table, k| t.get(k).and_then(|v| v.as_str()).map(String::from);
    Some(a.into_iter().map(|t| (s(t, "name"), s(t, "version"), s(t, "source"), s(t, "checksum"))).collect())
}

/// Parses a `Cargo.lock` with `toml_edit::DocumentMut` and takes from each
/// `[[package]]` table the entries of its `dependencies` array: a string,
/// an inline table with its `package` and `name` strings, or anything
/// else. The contract claims only that the result is the named
/// `toml_lock_dependencies` of the text.
#[verifier::external_body]
fn lock_dependencies_of(text: &str) -> (r: Option<Vec<Vec<LockDepEntry>>>)
    ensures
        r is None <==> toml_lock_dependencies(text@) is None,
        r matches Some(v) ==> toml_lock_dependencies(text@) == Some(v@.map_values(
            |d: Vec<LockDepEntry>| d@.map_values(|e: LockDepEntry| lock_dep_view(e)),
        )),
{
    let doc = text.parse::<toml_edit::DocumentMut>().ok()?;
    let s = |t: &toml_edit::InlineTable, k| t.get(k)?.as_str().map(String::from);
    Some(doc.get("package").and_then(toml_edit::Item::as_array_of_tables).map(|a| a.iter().map(|t| t.get("dependencies").and_then(toml_edit::Item::as_array).map(|d| d.iter().map(|v| v.as_inline_table().map_or(
        v.as_str().map_or(Other, |x| Text(x.into())),
        |i| Inline { package: s(i, "package"), name: s(i, "name") },
    )).collect()).unwrap_or_default()).collect()).unwrap_or_default())
}

fn copy_opt(o: &Option<String>) -> (r: Option<String>)
    ensures
        r.deep_view() == o.deep_view(),
{
    match o {
        Some(s) => Some(s.clone()),
        None => None,
    }
}

fn copy_dep_entries(v: &Vec<LockDepEntry>) -> (r: Vec<LockDepEntry>)
    ensures
        r@.map_values(|e: LockDepEntry| lock_dep_view(e)) == v@.map_values(|e: LockDepEntry| lock_dep_view(e)),
{
    let mut r: Vec<LockDepEntry> = Vec::new();
    let mut i: usize = 0;
    while i < v.len()
        invariant
            i <= v.len(),
            r@.map_values(|e: LockDepEntry| lock_dep_view(e)) == v@.take(i as int).map_values(|e: LockDepEntry| lock_dep_view(e)),
        decreases v.len() - i,
    {
        let e = match &v[i] {
            LockDepEntry::Text(s) => LockDepEntry::Text(s.clone()),
            LockDepEntry::Inline { package, name } => LockDepEntry::Inline { package: copy_opt(package), name: copy_opt(name) },
            LockDepEntry::Other => LockDepEntry::Other,
        };
        let ghost before = r@.map_values(|e: LockDepEntry| lock_dep_view(e));
        r.push(e);
        assert(r@.map_values(|e: LockDepEntry| lock_dep_view(e)) =~= before.push(lock_dep_view(v@[i as int])));
        assert(v@.take(i + 1).map_values(|e: LockDepEntry| lock_dep_view(e)) =~= v@.take(i as int).map_values(
            |e: LockDepEntry| lock_dep_view(e),
        ).push(lock_dep_view(v@[i as int])));
        i += 1;
    }
    assert(v@.take(i as int) =~= v@);
    r
}

/// The `[[package]]` tables of a `Cargo.lock` text (`toml_lock_tables`).
pub(crate) fn lock_tables_of(text: &str) -> (r: Option<Vec<LockTable>>)
    ensures
        r is None <==> toml_lock_tables(text@) is None,
        r matches Some(v) ==> toml_lock_tables(text@) == Some(lock_table_views(v@)),
{
    let fields = match lock_fields_of(text) {
        Some(f) => f,
        None => return None,
    };
    let deps = match lock_dependencies_of(text) {
        Some(d) => d,
        None => return None,
    };
    let ghost fv = toml_lock_fields(text@)->0;
    let ghost dv = toml_lock_dependencies(text@)->0;
    let ghost want = toml_lock_tables(text@)->0;
    let mut r: Vec<LockTable> = Vec::new();
    let mut i: usize = 0;
    while i < fields.len()
        invariant
            i <= fields.len(),
            fv.len() == fields.len(),
            dv.len() == deps.len(),
            forall|k: int| 0 <= k < fields.len() ==> #[trigger] fv[k] == (fields@[k].0.deep_view(), fields@[k].1.deep_view(), fields@[k].2.deep_view(), fields@[k].3.deep_view()),
            forall|k: int| 0 <= k < deps.len() ==> #[trigger] dv[k] == deps@[k]@.map_values(|e: LockDepEntry| lock_dep_view(e)),
            want.len() == fv.len(),
            forall|k: int| 0 <= k < want.len() ==> #[trigger] want[k] == (LockTableView {
                name: fv[k].0,
                version: fv[k].1,
                source: fv[k].2,
                checksum: fv[k].3,
                dependencies: if k < dv.len() { dv[k] } else { Seq::empty() },
            }),
            lock_table_views(r@) == want.take(i as int),
        decreases fields.len() - i,
    {
        let f = &fields[i];
        let d = if i < deps.len() {
            copy_dep_entries(&deps[i])
        } else {
            Vec::new()
        };
        let t = LockTable { name: copy_opt(&f.0), version: copy_opt(&f.1), source: copy_opt(&f.2), checksum: copy_opt(&f.3), dependencies: d };
        assert(fv[i as int] == (f.0.deep_view(), f.1.deep_view(), f.2.deep_view(), f.3.deep_view()));
        assert(lock_table_view(t).dependencies == (if i < dv.len() { dv[i as int] } else { Seq::<LockDepView>::empty() }));
        assert(lock_table_view(t) == want[i as int]);
        let ghost before = lock_table_views(r@);
        r.push(t);
        assert(lock_table_views(r@) =~= before.push(lock_table_view(t)));
        assert(want.take(i + 1) =~= want.take(i as int).push(want[i as int]));
        i += 1;
    }
    assert(want.take(i as int) =~= want);
    Some(r)
}

/// What `toml_edit` reads from the text of a workspace `Cargo.toml`:
/// `None` when the text is not TOML, else the entries of its
/// `workspace.members` array (none when there is no such array), each
/// `Some` of its string or `None` when it is not a string.
pub uninterp spec fn toml_member_entries(text: Seq<char>) -> Option<Seq<Option<Seq<char>>>>;

/// Parses a manifest with `toml_edit::DocumentMut` and takes the entries
/// of its `workspace.members` array, each as a string when it is one
/// (`Value::as_str`). The contract claims only that the result is the
/// named `toml_member_entries` of the text.
#[verifier::external_body]
fn member_entries_of(text: &str) -> (r: Option<Vec<Option<String>>>)
    ensures
        r is None <==> toml_member_entries(text@) is None,
        r matches Some(v) ==> toml_member_entries(text@) == Some(v@.map_values(|e: Option<String>| e.deep_view())),
{
    let doc = text.parse::<toml_edit::DocumentMut>().ok()?;
    let members = doc.get("workspace").and_then(|w| w.get("members")).and_then(|m| m.as_array());
    Some(members.map_or(Vec::new(), |a| a.iter().map(|p| p.as_str().map(String::from)).collect()))
}

/// The strings among `entries`, in order.
pub open spec fn present_strings(entries: Seq<Option<Seq<char>>>) -> Seq<Seq<char>>
    decreases entries.len(),
{
    if entries.len() == 0 {
        Seq::empty()
    } else {
        match entries.last() {
            Some(s) => present_strings(entries.drop_last()).push(s),
            None => present_strings(entries.drop_last()),
        }
    }
}

/// The member patterns of a workspace manifest: the strings of its
/// `workspace.members` array, in order (none when the text is not TOML or
/// has no such array).
pub fn member_patterns(text: &str) -> (r: Vec<String>)
    ensures
        views(r@) == match toml_member_entries(text@) {
            Some(es) => present_strings(es),
            None => Seq::empty(),
        },
{
    let mut r: Vec<String> = Vec::new();
    match member_entries_of(text) {
        Some(es) => {
            let ghost ev = es@.map_values(|e: Option<String>| e.deep_view());
            let mut i: usize = 0;
            while i < es.len()
                invariant
                    i <= es.len(),
                    ev == es@.map_values(|e: Option<String>| e.deep_view()),
                    views(r@) == present_strings(ev.take(i as int)),
                decreases es.len() - i,
            {
                assert(ev.take(i + 1).drop_last() =~= ev.take(i as int));
                assert(ev.take(i + 1).last() == es@[i as int].deep_view());
                match &es[i] {
                    Some(p) => {
                        let ghost before = views(r@);
                        r.push(p.clone());
                        assert(views(r@) =~= before.push(p@));
                    },
                    None => {},
                }
                i += 1;
            }
            assert(ev.take(i as int) =~= ev);
        },
        None => {
            assert(views(r@) =~= Seq::<Seq<char>>::empty());
        },
    }
    r
}

/// A package of a `Cargo.lock`.
pub struct LockfilePackage {
    pub name: String,
    pub version: String,
    pub source: String,
    pub commit: Option<String>,
    pub is_workspace_member: bool,
    pub bare_repo_path: Option<String>,
    pub github_owner: String,
    pub github_repo: String,
}

/// All fields of a package.
pub open spec fn package_view(p: LockfilePackage) -> (
    Seq<char>,
    Seq<char>,
    Seq<char>,
    Option<Seq<char>>,
    bool,
    Option<Seq<char>>,
    Seq<char>,
    Seq<char>,
) {
    (
        p.name@,
        p.version@,
        p.source@,
        p.commit.deep_view(),
        p.is_workspace_member,
        p.bare_repo_path.deep_view(),
        p.github_owner@,
        p.github_repo@,
    )
}

/// The source names a git repository.
pub open spec fn source_is_git(s: Seq<char>) -> bool {
    starts_with(s, "git+"@)
}

/// The source is a local path.
pub open spec fn source_is_path(s: Seq<char>) -> bool {
    contains(s, "path+"@) || (contains(s, "path"@) && !contains(s, "git+"@) && s.len() > 0) || (
    !source_is_git(s) && s.len() == 0)
}

/// How a package's source is classified: an empty source is a local path;
/// a source with `path+` in it is a local path; a source starting with
/// `git+` is a git source; and a non-empty source with neither `path` nor
/// `git+` in it (a `registry+…` URL, say) is neither, so it is a registry
/// source.
pub proof fn lemma_source_classes(s: Seq<char>)
    ensures
        s.len() == 0 ==> source_is_path(s),
        contains(s, "path+"@) ==> source_is_path(s),
        starts_with(s, "git+"@) ==> source_is_git(s) && contains(s, "git+"@),
        (s.len() > 0 && !contains(s, "path"@) && !contains(s, "git+"@)) ==> !source_is_path(s) && !source_is_git(s),
        source_is_git(s) ==> starts_with(s, "git+"@),
        source_is_path(s) ==> s.len() == 0 || contains(s, "path"@),
{
    reveal_strlit("path+");
    reveal_strlit("path");
    reveal_strlit("git+");
    if starts_with(s, "git+"@) {
        assert(s.subrange(0, 4) =~= s.take(4));
        assert(crate::text::occurs_at(s, "git+"@, 0));
    }
    if contains(s, "path+"@) {
        let i = choose|i: int| crate::text::occurs_at(s, "path+"@, i);
        assert(s.subrange(i, i + 4) =~= s.subrange(i, i + 5).take(4));
        assert("path+"@.take(4) =~= "path"@);
        assert(crate::text::occurs_at(s, "path"@, i));
    }
    if s.len() > 0 && !contains(s, "path"@) && !contains(s, "git+"@) {
        if starts_with(s, "git+"@) {
            assert(s.subrange(0, 4) =~= s.take(4));
            assert(crate::text::occurs_at(s, "git+"@, 0));
        }
        if contains(s, "path+"@) {
            let i = choose|i: int| crate::text::occurs_at(s, "path+"@, i);
            assert(s.subrange(i, i + 4) =~= s.subrange(i, i + 5).take(4));
            assert("path+"@.take(4) =~= "path"@);
            assert(crate::text::occurs_at(s, "path"@, i));
        }
    }
}

fn opt_copy(o: &Option<String>) -> (r: Option<String>)
    ensures
        r.deep_view() == o.deep_view(),
{
    match o {
        Some(s) => Some(s.clone()),
        None => None,
    }
}

impl LockfilePackage {
    /// A copy of the package.
    pub fn duplicate(&self) -> (r: LockfilePackage)
        ensures
            package_view(r) == package_view(*self),
    {
        LockfilePackage {
            name: self.name.clone(),
            version: self.version.clone(),
            source: self.source.clone(),
            commit: opt_copy(&self.commit),
            is_workspace_member: self.is_workspace_member,
            bare_repo_path: opt_copy(&self.bare_repo_path),
            github_owner: self.github_owner.clone(),
            github_repo: self.github_repo.clone(),
        }
    }

    /// The package comes from a git repository (`git+` source).
    pub fn is_git(&self) -> (r: bool)
        ensures
            r == source_is_git(self.source@),
    {
        has_prefix(self.source.as_str(), "git+")
    }

    /// The package comes from a local path.
    pub fn is_path(&self) -> (r: bool)
        ensures
            r == source_is_path(self.source@),
    {
        let s = self.source.as_str();
        has_substr(s, "path+") || (has_substr(s, "path") && !has_substr(s, "git+") && !s.is_empty()) || (
        !self.is_git() && s.is_empty())
    }

    /// The package comes from the registry: neither git nor path.
    pub fn is_registry(&self) -> (r: bool)
        ensures
            r == (!source_is_git(self.source@) && !source_is_path(self.source@)),
    {
        !self.is_git() && !self.is_path()
    }

    /// The package's GitHub URL, empty when owner or repository is unknown.
    pub fn github_url(&self) -> (r: String)
        ensures
            r@ == (if self.github_owner@.len() > 0 && self.github_repo@.len() > 0 {
                "https://github.com/"@ + self.github_owner@ + "/"@ + self.github_repo@
            } else {
                Seq::empty()
            }),
    {
        if !self.github_owner.as_str().is_empty() && !self.github_repo.as_str().is_empty() {
            let mut u = cat("https://github.com/", self.github_owner.as_str());
            u.append("/");
            u.append(self.github_repo.as_str());
            u
        } else {
            String::new()
        }
    }
}

// ───────────────────────────── GitHub URLs ─────────────────────────────

/// `s.split(sep).next()`: the part before the first `sep`, or all of `s`.
pub open spec fn before(s: Seq<char>, sep: Seq<char>) -> Seq<char> {
    match split_once(s, sep) {
        Some(p) => p.0,
        None => s,
    }
}

/// `s.split(sep)` gives exactly two parts; the second is returned.
pub open spec fn second_of_two(s: Seq<char>, sep: Seq<char>) -> Option<Seq<char>> {
    match split_once(s, sep) {
        Some(p) => if split_once(p.1, sep) is None {
            Some(p.1)
        } else {
            None
        },
        None => None,
    }
}

/// Owner and repository from `owner/repo[.ext][/...]`.
pub open spec fn owner_repo(path: Seq<char>) -> Option<(Seq<char>, Seq<char>)> {
    match split_once(path, "/"@) {
        Some(p) => Some((p.0, before(before(p.1, "/"@), "."@))),
        None => None,
    }
}

/// Owner and repository named by a GitHub URL, in the
/// `git@github.com:owner/repo` form or the `github.com/owner/repo` form.
pub open spec fn github_owner_repo(url: Seq<char>) -> Option<(Seq<char>, Seq<char>)> {
    let ssh = match second_of_two(url, "@github.com:"@) {
        Some(rest) => owner_repo(rest),
        None => None,
    };
    if ssh is Some {
        ssh
    } else {
        match second_of_two(url, "github.com/"@) {
            Some(rest) => owner_repo(rest),
            None => None,
        }
    }
}

fn before_sep(s: &str, sep: &str) -> (r: String)
    ensures
        r@ == before(s@, sep@),
{
    match split_at_first(s, sep) {
        Some((a, _)) => a,
        None => owned(s),
    }
}

fn second_part(s: &str, sep: &str) -> (r: Option<String>)
    ensures
        r.deep_view() == second_of_two(s@, sep@),
{
    match split_at_first(s, sep) {
        Some((_, b)) => {
            if split_at_first(b.as_str(), sep).is_none() {
                Some(b)
            } else {
                None
            }
        },
        None => None,
    }
}

fn split_owner_repo(path: &str) -> (r: Option<(String, String)>)
    ensures
        r.deep_view() == owner_repo(path@),
{
    match split_at_first(path, "/") {
        Some((owner, tail)) => {
            let seg = before_sep(tail.as_str(), "/");
            let repo = before_sep(seg.as_str(), ".");
            Some((owner, repo))
        },
        None => None,
    }
}

/// Owner and repository from a GitHub URL (`git@github.com:owner/repo`
/// or `…github.com/owner/repo[.git]`).
pub fn parse_github_url(url: &str) -> (r: Option<(String, String)>)
    ensures
        r.deep_view() == github_owner_repo(url@),
{
    let ssh = match second_part(url, "@github.com:") {
        Some(rest) => split_owner_repo(rest.as_str()),
        None => None,
    };
    if ssh.is_some() {
        return ssh;
    }
    match second_part(url, "github.com/") {
        Some(rest) => split_owner_repo(rest.as_str()),
        None => None,
    }
}

/// The bare mirror of `owner/repo` under `mirrors_path`.
pub open spec fn bare_repo_path(owner: Seq<char>, repo: Seq<char>, mirrors_path: Seq<char>) -> Seq<char> {
    join_path(join_path(mirrors_path, owner), repo + ".git"@)
}

/// `<mirrors_path>/<owner>/<repo>.git`.
pub fn compute_bare_repo_path(owner: &str, repo: &str, mirrors_path: &str) -> (r: String)
    ensures
        r@ == bare_repo_path(owner@, repo@, mirrors_path@),
{
    let dir = path_join(mirrors_path, owner);
    let name = cat(repo, ".git");
    path_join(dir.as_str(), name.as_str())
}

// ───────────────────────────── packages ────────────────────────────────

/// What the GitHub pattern `github\.com/([^/]+)/([^/.]+)…` captures in a
/// URL, as the regex crate finds it.
pub uninterp spec fn github_pattern_captures(url: Seq<char>) -> Option<(Seq<char>, Seq<char>)>;

/// The owner and repository the regular expression
/// `github\.com/([^/]+)/([^/.]+)(?:/tree/[^/]+/.+)?(?:\.git)?` captures in
/// `url` (`Regex::captures`, groups 1 and 2). The contract claims only
/// that the result is the named `github_pattern_captures` of the argument.
#[verifier::external_body]
fn github_captures(url: &str) -> (r: Option<(String, String)>)
    ensures
        r.deep_view() == github_pattern_captures(url@),
{
    let re = regex::Regex::new(r"github\.com/([^/]+)/([^/.]+)(?:/tree/[^/]+/.+)?(?:\.git)?").unwrap();
    re.captures(url).map(
        |c| (
            c.get(1).map_or(String::new(), |m| m.as_str().to_string()),
            c.get(2).map_or(String::new(), |m| m.as_str().to_string()),
        ),
    )
}

/// The repository URL of a git source: without its `#commit` and
/// `?query`, and without leading `git+`.
pub open spec fn cleaned_git_url(source: Seq<char>) -> Seq<char> {
    before(trim_start_matches(before(source, "#"@), "git+"@), "?"@)
}

/// Owner and repository of a package source (git sources only).
pub open spec fn source_owner_repo(source: Seq<char>) -> Option<(Seq<char>, Seq<char>)> {
    if source_is_git(source) {
        let cleaned = cleaned_git_url(source);
        match github_owner_repo(cleaned) {
            Some(p) => Some(p),
            None => github_pattern_captures(cleaned),
        }
    } else {
        None
    }
}

/// The commit of a package: what follows the first `#` of its source (up
/// to a second one), else its checksum.
pub open spec fn package_commit(source: Option<Seq<char>>, checksum: Option<Seq<char>>) -> Option<Seq<char>> {
    match source {
        Some(s) => match split_once(s, "#"@) {
            Some(p) => Some(before(p.1, "#"@)),
            None => checksum,
        },
        None => checksum,
    }
}

/// The package of a `[[package]]` table (none when it has no name).
pub open spec fn table_package(t: LockTable) -> Option<(
    Seq<char>,
    Seq<char>,
    Seq<char>,
    Option<Seq<char>>,
    bool,
    Option<Seq<char>>,
    Seq<char>,
    Seq<char>,
)> {
    match t.name {
        Some(n) => {
            let source = match t.source {
                Some(s) => s@,
                None => Seq::empty(),
            };
            let version = match t.version {
                Some(v) => v@,
                None => Seq::empty(),
            };
            let gh = source_owner_repo(source);
            Some(
                (
                    n@,
                    version,
                    source,
                    package_commit(t.source.deep_view(), t.checksum.deep_view()),
                    false,
                    match gh {
                        Some(p) => Some(bare_repo_path(p.0, p.1, DEFAULT_MIRRORS_PATH@)),
                        None => None,
                    },
                    match gh {
                        Some(p) => p.0,
                        None => Seq::empty(),
                    },
                    match gh {
                        Some(p) => p.1,
                        None => Seq::empty(),
                    },
                ),
            )
        },
        None => None,
    }
}

fn owner_repo_of_source(source: &str) -> (r: Option<(String, String)>)
    ensures
        r.deep_view() == source_owner_repo(source@),
{
    if !has_prefix(source, "git+") {
        return None;
    }
    let base = before_sep(source, "#");
    let stripped = strip_leading(base.as_str(), "git+");
    let cleaned = before_sep(stripped.as_str(), "?");
    match parse_github_url(cleaned.as_str()) {
        Some(p) => Some(p),
        None => github_captures(cleaned.as_str()),
    }
}

/// The package described by a `[[package]]` table; a table without a
/// name gives none. Version and source default to empty; git packages get
/// their GitHub owner, repository and bare mirror path.
pub fn package_from_table(t: &LockTable) -> (r: Option<LockfilePackage>)
    ensures
        match r {
            Some(p) => table_package(*t) == Some(package_view(p)),
            None => table_package(*t) is None,
        },
{
    let name = match &t.name {
        Some(n) => n.clone(),
        None => {
            return None;
        },
    };
    let version = match &t.version {
        Some(v) => v.clone(),
        None => String::new(),
    };
    let source = match &t.source {
        Some(s) => s.clone(),
        None => String::new(),
    };
    let commit = match &t.source {
        Some(s) => match split_at_first(s.as_str(), "#") {
            Some((_, rest)) => Some(before_sep(rest.as_str(), "#")),
            None => opt_copy(&t.checksum),
        },
        None => opt_copy(&t.checksum),
    };
    let (github_owner, github_repo, bare) = match owner_repo_of_source(source.as_str()) {
        Some((o, r)) => {
            let b = compute_bare_repo_path(o.as_str(), r.as_str(), DEFAULT_MIRRORS_PATH);
            (o, r, Some(b))
        },
        None => (String::new(), String::new(), None),
    };
    Some(
        LockfilePackage {
            name,
            version,
            source,
            commit,
            is_workspace_member: false,
            bare_repo_path: bare,
            github_owner,
            github_repo,
        },
    )
}

/// The packages of a lockfile's tables, in order, skipping nameless ones.
pub fn parse_lockfile(tables: &Vec<LockTable>) -> (r: Vec<LockfilePackage>)
    ensures
        r@.map_values(|p: LockfilePackage| package_view(p)) == packages_of(tables@),
{
    let mut r: Vec<LockfilePackage> = Vec::new();
    for i in 0..tables.len()
        invariant
            r@.map_values(|p: LockfilePackage| package_view(p)) == packages_of(tables@.take(i as int)),
    {
        assert(tables@.take(i + 1).drop_last() =~= tables@.take(i as int));
        let ghost before = r@.map_values(|p: LockfilePackage| package_view(p));
        match package_from_table(&tables[i]) {
            Some(p) => {
                r.push(p);
                assert(r@.map_values(|p: LockfilePackage| package_view(p)) =~= before.push(
                    package_view(r@.last()),
                ));
            },
            None => {},
        }
    }
    assert(tables@.take(tables.len() as int) =~= tables@);
    r
}

/// The packages of a `Cargo.lock` text: those of its tables
/// (`packages_of`), or an error when the text is not TOML.
pub fn parse_lockfile_text(text: &str) -> (r: Result<Vec<LockfilePackage>, String>)
    ensures
        r is Err <==> toml_lock_tables(text@) is None,
        r matches Ok(ps) ==> exists|t: Seq<LockTable>| lock_table_views(t) == toml_lock_tables(text@)->0
            && ps@.map_values(|p: LockfilePackage| package_view(p)) == packages_of(t),
{
    match lock_tables_of(text) {
        Some(tables) => {
            let ps = parse_lockfile(&tables);
            assert(lock_table_views(tables@) == toml_lock_tables(text@)->0);
            Ok(ps)
        },
        None => Err(owned("Failed to parse Cargo.lock")),
    }
}

/// The packages of the tables, in order.
pub open spec fn packages_of(ts: Seq<LockTable>) -> Seq<
    (Seq<char>, Seq<char>, Seq<char>, Option<Seq<char>>, bool, Option<Seq<char>>, Seq<char>, Seq<char>),
>
    decreases ts.len(),
{
    if ts.len() == 0 {
        Seq::empty()
    } else {
        match table_package(ts.last()) {
            Some(p) => packages_of(ts.drop_last()).push(p),
            None => packages_of(ts.drop_last()),
        }
    }
}

// ───────────────────────────── merging ─────────────────────────────────

/// All fields of a package, as values.
pub type PackageView = (
    Seq<char>,
    Seq<char>,
    Seq<char>,
    Option<Seq<char>>,
    bool,
    Option<Seq<char>>,
    Seq<char>,
    Seq<char>,
);

/// The views of packages.
pub open spec fn views_of(ps: Seq<LockfilePackage>) -> Seq<PackageView> {
    ps.map_values(|p: LockfilePackage| package_view(p))
}

/// The packages of several lockfiles, one after the other.
pub open spec fn concat_lists(ls: Seq<Vec<LockfilePackage>>) -> Seq<PackageView>
    decreases ls.len(),
{
    if ls.len() == 0 {
        Seq::empty()
    } else {
        concat_lists(ls.drop_last()) + views_of(ls.last()@)
    }
}

/// `ps[i]` is the first package with its name.
pub open spec fn first_of_name(ps: Seq<PackageView>, i: int) -> bool {
    0 <= i < ps.len() && forall|j: int| 0 <= j < i ==> (#[trigger] ps[j]).0 != ps[i].0
}

/// Some package of `ps` has the name `x`.
pub open spec fn has_name(ps: Seq<PackageView>, x: Seq<char>) -> bool {
    exists|i: int| 0 <= i < ps.len() && (#[trigger] ps[i]).0 == x
}

/// The names of packages.
pub open spec fn package_names(ps: Seq<LockfilePackage>) -> Seq<Seq<char>> {
    ps.map_values(|p: LockfilePackage| p.name@)
}

/// Each package of `out` is the first package of its name in `flat`.
pub open spec fn firsts_kept(out: Seq<LockfilePackage>, flat: Seq<PackageView>) -> bool {
    forall|k: int| 0 <= k < out.len() ==> #[trigger] kept_at(out, flat, k)
}

/// Adds `p` to `out` (strictly ordered by name) unless its name is there.
fn insert_by_name(out: &mut Vec<LockfilePackage>, p: &LockfilePackage) -> (added: bool)
    requires
        strictly_sorted(package_names(old(out)@)),
    ensures
        strictly_sorted(package_names(final(out)@)),
        added == !package_names(old(out)@).contains(p.name@),
        added ==> exists|j: int|
            0 <= j <= old(out).len() && views_of(final(out)@) == views_of(old(out)@).insert(j, package_view(*p)),
        !added ==> final(out)@ == old(out)@,
{
    let ghost old_v = package_names(out@);
    let mut j: usize = 0;
    while j < out.len() && less_than(out[j].name.as_str(), p.name.as_str())
        invariant
            j <= out.len(),
            out@ == old(out)@,
            forall|k: int| 0 <= k < j ==> str_less(#[trigger] out@[k].name@, p.name@),
        decreases out.len() - j,
    {
        j += 1;
    }
    if j < out.len() && str_eq(out[j].name.as_str(), p.name.as_str()) {
        assert(old_v[j as int] == p.name@);
        return false;
    }
    proof {
        if j < out.len() {
            lemma_less_total(out@[j as int].name@, p.name@);
        }
        assert(!old_v.contains(p.name@)) by {
            if old_v.contains(p.name@) {
                let k = choose|k: int| 0 <= k < old_v.len() && old_v[k] == p.name@;
                if k < j {
                    crate::order::lemma_less_irreflexive(p.name@);
                } else if k > j {
                    assert(str_less(old_v[j as int], old_v[k]));
                    lemma_less_transitive(p.name@, old_v[j as int], old_v[k]);
                    crate::order::lemma_less_irreflexive(p.name@);
                }
            }
        }
    }
    let ghost old_views = views_of(out@);
    let q = p.duplicate();
    out.insert(j, q);
    proof {
        let nv = package_names(out@);
        assert(nv =~= old_v.insert(j as int, p.name@));
        assert(views_of(out@) =~= old_views.insert(j as int, package_view(*p)));
        assert forall|a: int, b: int| 0 <= a < b < nv.len() implies str_less(
            #[trigger] nv[a],
            #[trigger] nv[b],
        ) by {
            if b < j {
                assert(nv[a] == old_v[a] && nv[b] == old_v[b]);
            } else if b == j {
                assert(nv[a] == old_v[a]);
            } else if a == j {
                assert(nv[b] == old_v[b - 1]);
                if b - 1 > j {
                    assert(str_less(old_v[j as int], old_v[b - 1]));
                    lemma_less_transitive(p.name@, old_v[j as int], old_v[b - 1]);
                }
            } else if a < j {
                assert(nv[a] == old_v[a] && nv[b] == old_v[b - 1]);
            } else {
                assert(nv[a] == old_v[a - 1] && nv[b] == old_v[b - 1]);
            }
        }
    }
    true
}

/// `out[k]` is the first package of its name in `flat`.
pub open spec fn kept_at(out: Seq<LockfilePackage>, flat: Seq<PackageView>, k: int) -> bool {
    exists|i: int| first_of_name(flat, i) && flat[i] == package_view(out[k])
}

/// One step of the merge keeps its invariant: `out` holds the first
/// package of each name met so far.
#[verifier::rlimit(30)]
proof fn lemma_merge_step(
    before_out: Seq<LockfilePackage>,
    out: Seq<LockfilePackage>,
    before_flat: Seq<PackageView>,
    pv: PackageView,
    added: bool,
)
    requires
        forall|x: Seq<char>| package_names(before_out).contains(x) <==> has_name(before_flat, x),
        firsts_kept(before_out, before_flat),
        added == !package_names(before_out).contains(pv.0),
        added ==> exists|j: int| 0 <= j <= before_out.len() && views_of(out) == views_of(before_out).insert(j, pv),
        !added ==> out == before_out,
    ensures
        forall|x: Seq<char>| package_names(out).contains(x) <==> has_name(before_flat.push(pv), x),
        firsts_kept(out, before_flat.push(pv)),
{
    let fl = before_flat.push(pv);
    let n = before_flat.len() as int;
    assert(fl[n] == pv);
    assert forall|x: Seq<char>| package_names(out).contains(x) <==> has_name(fl, x) by {
        if has_name(fl, x) {
            let i = choose|i: int| 0 <= i < fl.len() && (#[trigger] fl[i]).0 == x;
            if i < n {
                assert(before_flat[i].0 == x);
            }
        }
        if has_name(before_flat, x) {
            let i = choose|i: int| 0 <= i < before_flat.len() && (#[trigger] before_flat[i]).0 == x;
            assert(fl[i].0 == x);
        }
        if added {
            let j = choose|j: int|
                0 <= j <= before_out.len() && views_of(out) == views_of(before_out).insert(j, pv);
            views_of(before_out).insert_ensures(j, pv);
            assert(views_of(out).len() == out.len());
            if package_names(out).contains(x) {
                let k = choose|k: int| 0 <= k < out.len() && package_names(out)[k] == x;
                assert(views_of(out)[k].0 == x);
                if k < j {
                    assert(package_names(before_out)[k] == x);
                } else if k > j {
                    assert(package_names(before_out)[k - 1] == x);
                } else {
                    assert(fl[n].0 == x);
                }
            }
            if package_names(before_out).contains(x) {
                let k = choose|k: int| 0 <= k < before_out.len() && package_names(before_out)[k] == x;
                if k < j {
                    assert(views_of(out)[k].0 == x);
                    assert(package_names(out)[k] == x);
                } else {
                    assert(views_of(out)[k + 1].0 == x);
                    assert(package_names(out)[k + 1] == x);
                }
            }
            if x == pv.0 {
                assert(views_of(out)[j].0 == x);
                assert(package_names(out)[j] == x);
            }
        } else {
            if x == pv.0 {
                assert(package_names(before_out).contains(x));
            }
        }
    }
    assert forall|k: int| 0 <= k < out.len() implies #[trigger] kept_at(out, fl, k) by {
        if added {
            let j = choose|j: int|
                0 <= j <= before_out.len() && views_of(out) == views_of(before_out).insert(j, pv);
            views_of(before_out).insert_ensures(j, pv);
            assert(views_of(out)[k] == package_view(out[k]));
            if k == j {
                assert forall|jj: int| 0 <= jj < n implies (#[trigger] fl[jj]).0 != fl[n].0 by {
                    if before_flat[jj].0 == pv.0 {
                        assert(has_name(before_flat, pv.0));
                    }
                }
                assert(first_of_name(fl, n));
                assert(fl[n] == package_view(out[k]));
            } else {
                let kk = if k < j { k } else { k - 1 };
                assert(views_of(out)[k] == views_of(before_out)[kk]);
                assert(kept_at(before_out, before_flat, kk));
                let i = choose|i: int|
                    first_of_name(before_flat, i) && before_flat[i] == package_view(before_out[kk]);
                assert(fl[i] == before_flat[i]);
                assert(first_of_name(fl, i));
            }
        } else {
            assert(kept_at(before_out, before_flat, k));
            let i = choose|i: int|
                first_of_name(before_flat, i) && before_flat[i] == package_view(before_out[k]);
            assert(fl[i] == before_flat[i]);
            assert(first_of_name(fl, i));
        }
    }
}

/// Merges the packages of several lockfiles: one package per name, the
/// first met (lockfiles in order, packages in order), ordered by name.
pub fn parse_lockfiles_parallel(lockfiles: &Vec<Vec<LockfilePackage>>) -> (r: Vec<LockfilePackage>)
    ensures
        strictly_sorted(package_names(r@)),
        forall|x: Seq<char>| package_names(r@).contains(x) <==> has_name(concat_lists(lockfiles@), x),
        firsts_kept(r@, concat_lists(lockfiles@)),
{
    let mut out: Vec<LockfilePackage> = Vec::new();
    let ghost mut flat: Seq<PackageView> = Seq::empty();
    for a in 0..lockfiles.len()
        invariant
            flat == concat_lists(lockfiles@.take(a as int)),
            strictly_sorted(package_names(out@)),
            forall|x: Seq<char>| package_names(out@).contains(x) <==> has_name(flat, x),
            firsts_kept(out@, flat),
    {
        let list = &lockfiles[a];
        let ghost start = flat;
        assert(flat =~= start + views_of(list@.take(0)));
        for b in 0..list.len()
            invariant
                flat == start + views_of(list@.take(b as int)),
                start == concat_lists(lockfiles@.take(a as int)),
                strictly_sorted(package_names(out@)),
                forall|x: Seq<char>| package_names(out@).contains(x) <==> has_name(flat, x),
                firsts_kept(out@, flat),
        {
            let ghost before_flat = flat;
            let ghost before_out = out@;
            let added = insert_by_name(&mut out, &list[b]);
            let ghost pv = package_view(list@[b as int]);
            proof {
                lemma_merge_step(before_out, out@, before_flat, pv, added);
                flat = flat.push(pv);
                assert(flat =~= start + views_of(list@.take(b + 1)));
            }
        }
        assert(list@.take(list.len() as int) =~= list@);
        assert(lockfiles@.take(a + 1).drop_last() =~= lockfiles@.take(a as int));
    }
    assert(lockfiles@.take(lockfiles.len() as int) =~= lockfiles@);
    out
}

} // verus!
