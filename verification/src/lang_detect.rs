//! Language detection from a project's manifest files.
//!
//! A directory is described by what was found in it: the `Cargo.toml`
//! text, which manifest files exist, and the names of its regular files.
//! Manifests are checked in priority order (Rust, Go, JavaScript, Python,
//! Java, legacy Python, CMake, Make), then source-file extensions.
//! Discovery walks a directory tree and reports each recognised project
//! without looking inside it.
use vstd::prelude::*;
use crate::text::{ends_with, has_substr, has_suffix, owned, str_eq, views};

verus! {

/// Languages the flake generator knows.
#[derive(PartialEq, Eq, Structural, Clone, Copy, Debug)]
pub enum Language {
    Rust,
    Go,
    Python,
    JavaScript,
    Java,
    C,
    Unknown,
}

impl Language {
    /// The human-readable label of the language.
    pub fn label(&self) -> (r: &'static str)
        ensures
            r@ == language_label(*self),
    {
        match self {
            Language::Rust => "Rust",
            Language::Go => "Go",
            Language::Python => "Python",
            Language::JavaScript => "JavaScript",
            Language::Java => "Java",
            Language::C => "C/C++",
            Language::Unknown => "Unknown",
        }
    }

    /// The label as a `String` (what displaying the language shows).
    pub fn to_string(&self) -> (r: String)
        ensures
            r@ == language_label(*self),
    {
        owned(self.label())
    }
}

/// The label of a language.
pub open spec fn language_label(l: Language) -> Seq<char> {
    match l {
        Language::Rust => "Rust"@,
        Language::Go => "Go"@,
        Language::Python => "Python"@,
        Language::JavaScript => "JavaScript"@,
        Language::Java => "Java"@,
        Language::C => "C/C++"@,
        Language::Unknown => "Unknown"@,
    }
}

/// What was found in a directory.
pub struct DirListing {
    /// The text of `Cargo.toml`, when it exists and could be read.
    pub cargo_toml: Option<String>,
    /// The names of the manifest files that exist there.
    pub present: Vec<String>,
    /// The names of its regular files, when it could be listed.
    pub files: Option<Vec<String>>,
}

/// `name` exists in the directory.
pub open spec fn has_file(l: DirListing, name: Seq<char>) -> bool {
    views(l.present@).contains(name)
}

/// Some regular file's name ends with `suffix`.
pub open spec fn any_with_suffix(files: Seq<Seq<char>>, suffix: Seq<char>) -> bool {
    exists|i: int| 0 <= i < files.len() && ends_with(#[trigger] files[i], suffix)
}

/// The language guessed from source-file extensions.
pub open spec fn by_extension(l: DirListing) -> Language {
    match l.files {
        Some(fs) => {
            let names = views(fs@);
            if any_with_suffix(names, ".go"@) {
                Language::Go
            } else if any_with_suffix(names, ".c"@) || any_with_suffix(names, ".h"@) || any_with_suffix(
                names,
                ".cpp"@,
            ) || any_with_suffix(names, ".cc"@) || any_with_suffix(names, ".cxx"@) {
                Language::C
            } else {
                Language::Unknown
            }
        },
        None => Language::Unknown,
    }
}

/// The language of a directory, checking manifests in priority order.
pub open spec fn detected(l: DirListing) -> Language {
    if l.cargo_toml matches Some(c) && crate::text::contains(c@, "[package]"@) {
        Language::Rust
    } else if has_file(l, "go.mod"@) {
        Language::Go
    } else if has_file(l, "package.json"@) {
        Language::JavaScript
    } else if has_file(l, "pyproject.toml"@) {
        Language::Python
    } else if has_file(l, "pom.xml"@) || has_file(l, "build.gradle"@) {
        Language::Java
    } else if has_file(l, "setup.py"@) || has_file(l, "setup.cfg"@) {
        Language::Python
    } else if has_file(l, "CMakeLists.txt"@) {
        Language::C
    } else if has_file(l, "Makefile"@) || has_file(l, "makefile"@) {
        Language::C
    } else {
        by_extension(l)
    }
}

/// Whether `name` is among the present manifests.
fn present(l: &DirListing, name: &str) -> (r: bool)
    ensures
        r == has_file(*l, name@),
{
    for i in 0..l.present.len()
        invariant
            forall|k: int| 0 <= k < i ==> l.present@[k]@ != name@,
    {
        if str_eq(l.present[i].as_str(), name) {
            assert(views(l.present@)[i as int] == name@);
            return true;
        }
    }
    assert(!views(l.present@).contains(name@)) by {
        if views(l.present@).contains(name@) {
            let k = choose|k: int| 0 <= k < views(l.present@).len() && views(l.present@)[k] == name@;
            assert(l.present@[k]@ == name@);
        }
    }
    false
}

/// Whether some name of `files` ends with `suffix`.
fn some_suffix(files: &Vec<String>, suffix: &str) -> (r: bool)
    ensures
        r == any_with_suffix(views(files@), suffix@),
{
    for i in 0..files.len()
        invariant
            forall|k: int| 0 <= k < i ==> !ends_with(#[trigger] views(files@)[k], suffix@),
    {
        if has_suffix(files[i].as_str(), suffix) {
            assert(ends_with(views(files@)[i as int], suffix@));
            return true;
        }
    }
    false
}

/// Detects the language of a directory from what was found in it.
pub fn detect_language(listing: &DirListing) -> (r: Language)
    ensures
        r == detected(*listing),
{
    match &listing.cargo_toml {
        Some(c) => {
            if has_substr(c.as_str(), "[package]") {
                return Language::Rust;
            }
        },
        None => {},
    }
    if present(listing, "go.mod") {
        return Language::Go;
    }
    if present(listing, "package.json") {
        return Language::JavaScript;
    }
    if present(listing, "pyproject.toml") {
        return Language::Python;
    }
    if present(listing, "pom.xml") || present(listing, "build.gradle") {
        return Language::Java;
    }
    if present(listing, "setup.py") || present(listing, "setup.cfg") {
        return Language::Python;
    }
    if present(listing, "CMakeLists.txt") {
        return Language::C;
    }
    if present(listing, "Makefile") || present(listing, "makefile") {
        return Language::C;
    }
    match &listing.files {
        Some(fs) => {
            if some_suffix(fs, ".go") {
                Language::Go
            } else if some_suffix(fs, ".c") || some_suffix(fs, ".h") || some_suffix(fs, ".cpp")
                || some_suffix(fs, ".cc") || some_suffix(fs, ".cxx") {
                Language::C
            } else {
                Language::Unknown
            }
        },
        None => Language::Unknown,
    }
}

/// The manifests `describe_manifest` looks for, in order.
pub open spec fn described_manifests() -> Seq<Seq<char>> {
    seq![
        "Cargo.toml"@,
        "go.mod"@,
        "package.json"@,
        "pyproject.toml"@,
        "pom.xml"@,
        "CMakeLists.txt"@,
        "Makefile"@,
        "setup.py"@,
    ]
}

/// The first manifest of `names` found in the directory.
pub open spec fn first_present(l: DirListing, names: Seq<Seq<char>>) -> Seq<char>
    decreases names.len(),
{
    if names.len() == 0 {
        "no recognized manifest"@
    } else if has_file(l, names[0]) {
        names[0]
    } else {
        first_present(l, names.drop_first())
    }
}

/// The first manifest found wins: the result is the first name of `names`
/// that exists in the directory, every earlier one being absent, or
/// "no recognized manifest" when none exists.
pub proof fn lemma_first_present(l: DirListing, names: Seq<Seq<char>>)
    ensures
        (exists|k: int| 0 <= k < names.len() && has_file(l, #[trigger] names[k])) ==> exists|k: int|
            0 <= k < names.len() && has_file(l, names[k]) && first_present(l, names) == names[k]
                && forall|j: int| 0 <= j < k ==> !has_file(l, #[trigger] names[j]),
        (forall|k: int| 0 <= k < names.len() ==> !has_file(l, #[trigger] names[k])) ==> first_present(l, names)
            == "no recognized manifest"@,
    decreases names.len(),
{
    if names.len() > 0 {
        let rest = names.drop_first();
        lemma_first_present(l, rest);
        if has_file(l, names[0]) {
            assert(first_present(l, names) == names[0]);
        } else {
            if exists|k: int| 0 <= k < names.len() && has_file(l, #[trigger] names[k]) {
                let k = choose|k: int| 0 <= k < names.len() && has_file(l, #[trigger] names[k]);
                assert(rest[k - 1] == names[k]);
                let k2 = choose|k2: int| 0 <= k2 < rest.len() && has_file(l, rest[k2]) && first_present(l, rest) == rest[k2]
                    && forall|j: int| 0 <= j < k2 ==> !has_file(l, #[trigger] rest[j]);
                assert(names[k2 + 1] == rest[k2]);
                assert forall|j: int| 0 <= j < k2 + 1 implies !has_file(l, #[trigger] names[j]) by {
                    if j > 0 {
                        assert(names[j] == rest[j - 1]);
                    }
                }
            }
            if forall|k: int| 0 <= k < names.len() ==> !has_file(l, #[trigger] names[k]) {
                assert forall|k: int| 0 <= k < rest.len() implies !has_file(l, #[trigger] rest[k]) by {
                    assert(rest[k] == names[k + 1]);
                }
            }
        }
    }
}

/// A `Cargo.toml` with a `[package]` table makes a Rust project whatever
/// else is there; with no manifest at all, the source files decide.
pub proof fn lemma_detection_priority(l: DirListing)
    ensures
        (l.cargo_toml matches Some(c) && crate::text::contains(c@, "[package]"@)) ==> detected(l) == Language::Rust,
        (!(l.cargo_toml matches Some(c) && crate::text::contains(c@, "[package]"@))
            && forall|k: int| 0 <= k < detection_manifests().len() ==> !has_file(l, #[trigger] detection_manifests()[k]))
            ==> detected(l) == by_extension(l),
{
    if !(l.cargo_toml matches Some(c) && crate::text::contains(c@, "[package]"@))
        && forall|k: int| 0 <= k < detection_manifests().len() ==> !has_file(l, #[trigger] detection_manifests()[k]) {
        let m = detection_manifests();
        assert(!has_file(l, m[0]) && !has_file(l, m[1]) && !has_file(l, m[2]) && !has_file(l, m[3]));
        assert(!has_file(l, m[4]) && !has_file(l, m[5]) && !has_file(l, m[6]) && !has_file(l, m[7]));
        assert(!has_file(l, m[8]) && !has_file(l, m[9]));
    }
}

/// A Java project is one with a `pom.xml` or a `build.gradle`, unless a
/// manifest of higher priority decides: a `Cargo.toml` with `[package]`,
/// a `go.mod`, a `package.json` or a `pyproject.toml`.
pub proof fn lemma_java_projects(l: DirListing)
    ensures
        (!(l.cargo_toml matches Some(c) && crate::text::contains(c@, "[package]"@)) && !has_file(l, "go.mod"@)
            && !has_file(l, "package.json"@) && !has_file(l, "pyproject.toml"@) && (has_file(l, "pom.xml"@)
            || has_file(l, "build.gradle"@))) ==> detected(l) == Language::Java,
        detected(l) == Language::Java ==> has_file(l, "pom.xml"@) || has_file(l, "build.gradle"@),
{
}

/// Each manifest decides the language unless one found earlier in the
/// order `Cargo.toml` with `[package]`, `go.mod`, `package.json`,
/// `pyproject.toml`, `pom.xml`/`build.gradle`, `setup.py`/`setup.cfg`,
/// `CMakeLists.txt`, `Makefile`/`makefile` decides it; and a language is
/// only ever detected with evidence for it.
pub proof fn lemma_detection_rules(l: DirListing)
    ensures
        (l.cargo_toml matches Some(c) && crate::text::contains(c@, "[package]"@)) ==> detected(l) == Language::Rust,
        detected(l) == Language::Rust ==> (l.cargo_toml matches Some(c) && crate::text::contains(c@, "[package]"@)),
        !(l.cargo_toml matches Some(c) && crate::text::contains(c@, "[package]"@)) && has_file(l, "go.mod"@)
            ==> detected(l) == Language::Go,
        !(l.cargo_toml matches Some(c) && crate::text::contains(c@, "[package]"@)) && !has_file(l, "go.mod"@)
            && has_file(l, "package.json"@) ==> detected(l) == Language::JavaScript,
        detected(l) == Language::JavaScript ==> has_file(l, "package.json"@),
        !(l.cargo_toml matches Some(c) && crate::text::contains(c@, "[package]"@)) && !has_file(l, "go.mod"@)
            && !has_file(l, "package.json"@) && has_file(l, "pyproject.toml"@) ==> detected(l) == Language::Python,
        detected(l) == Language::Python ==> has_file(l, "pyproject.toml"@) || has_file(l, "setup.py"@) || has_file(
            l,
            "setup.cfg"@,
        ),
        !(l.cargo_toml matches Some(c) && crate::text::contains(c@, "[package]"@)) && !has_file(l, "go.mod"@)
            && !has_file(l, "package.json"@) && !has_file(l, "pyproject.toml"@) && !has_file(l, "pom.xml"@)
            && !has_file(l, "build.gradle"@) && (has_file(l, "setup.py"@) || has_file(l, "setup.cfg"@))
            ==> detected(l) == Language::Python,
        !(l.cargo_toml matches Some(c) && crate::text::contains(c@, "[package]"@)) && !has_file(l, "go.mod"@)
            && !has_file(l, "package.json"@) && !has_file(l, "pyproject.toml"@) && !has_file(l, "pom.xml"@)
            && !has_file(l, "build.gradle"@) && !has_file(l, "setup.py"@) && !has_file(l, "setup.cfg"@) && (
        has_file(l, "CMakeLists.txt"@) || has_file(l, "Makefile"@) || has_file(l, "makefile"@))
            ==> detected(l) == Language::C,
{
}

/// The manifests that decide a language, in the order they are looked for
/// after a Rust `Cargo.toml`.
pub open spec fn detection_manifests() -> Seq<Seq<char>> {
    seq![
        "go.mod"@, "package.json"@, "pyproject.toml"@, "pom.xml"@, "build.gradle"@, "setup.py"@,
        "setup.cfg"@, "CMakeLists.txt"@, "Makefile"@, "makefile"@,
    ]
}

/// Names the manifest found in a directory (for verbose logs).
pub fn describe_manifest(listing: &DirListing) -> (r: String)
    ensures
        r@ == first_present(*listing, described_manifests()),
{
    let names: Vec<&str> = vec![
        "Cargo.toml",
        "go.mod",
        "package.json",
        "pyproject.toml",
        "pom.xml",
        "CMakeLists.txt",
        "Makefile",
        "setup.py",
    ];
    let ghost m = described_manifests();
    assert(names@.map_values(|s: &str| s@) =~= m);
    assert(m.skip(0) =~= m);
    for i in 0..names.len()
        invariant
            names@.map_values(|s: &str| s@) == m,
            m == described_manifests(),
            first_present(*listing, m) == first_present(*listing, m.skip(i as int)),
    {
        assert(m.skip(i as int)[0] == names@[i as int]@);
        if present(listing, names[i]) {
            return owned(names[i]);
        }
        assert(m.skip(i as int).drop_first() =~= m.skip(i + 1));
    }
    assert(m.skip(8).len() == 0);
    owned("no recognized manifest")
}

// ───────────────────────────── discovery ───────────────────────────────

/// A directory with what was found in it and its subdirectories, each
/// with its name.
pub struct DirTree {
    pub path: String,
    pub listing: DirListing,
    pub subdirs: Vec<(String, DirTree)>,
}

/// Subdirectories never searched: hidden ones and build or cache output.
pub open spec fn skipped_dir(name: Seq<char>) -> bool {
    crate::text::starts_with(name, "."@) || name == "target"@ || name == "node_modules"@ || name
        == "__pycache__"@ || name == ".lake"@
}

/// The projects found in `t` searching `depth` levels: `t` itself when
/// its language is recognised, else what its subdirectories hold.
pub open spec fn discovered(t: DirTree, depth: nat) -> Seq<(Seq<char>, Language)>
    decreases depth, 0nat,
{
    if depth == 0 {
        Seq::empty()
    } else if detected(t.listing) != Language::Unknown {
        seq![(t.path@, detected(t.listing))]
    } else {
        discovered_in(t.subdirs@, (depth - 1) as nat)
    }
}

/// The projects found in the subdirectories `cs`, in order.
pub open spec fn discovered_in(cs: Seq<(String, DirTree)>, depth: nat) -> Seq<(Seq<char>, Language)>
    decreases depth, cs.len() + 1,
{
    if cs.len() == 0 {
        Seq::empty()
    } else if skipped_dir(cs.last().0@) {
        discovered_in(cs.drop_last(), depth)
    } else {
        discovered_in(cs.drop_last(), depth) + discovered(cs.last().1, depth)
    }
}

/// What discovery finds: nothing at depth zero; the directory alone when
/// its own language is recognised; and never a project of unknown
/// language.
pub proof fn lemma_discovered_law(t: DirTree, depth: nat)
    ensures
        depth == 0 ==> discovered(t, depth).len() == 0,
        depth >= 1 && detected(t.listing) != Language::Unknown ==> discovered(t, depth) == seq![
            (t.path@, detected(t.listing)),
        ],
        forall|k: int| 0 <= k < discovered(t, depth).len() ==> (#[trigger] discovered(t, depth)[k]).1 != Language::Unknown,
    decreases depth, 0nat,
{
    if depth > 0 && detected(t.listing) == Language::Unknown {
        lemma_discovered_in_known(t.subdirs@, (depth - 1) as nat);
    }
}

proof fn lemma_discovered_in_known(cs: Seq<(String, DirTree)>, depth: nat)
    ensures
        forall|k: int| 0 <= k < discovered_in(cs, depth).len() ==> (#[trigger] discovered_in(cs, depth)[k]).1 != Language::Unknown,
    decreases depth, cs.len() + 1,
{
    if cs.len() > 0 {
        lemma_discovered_in_known(cs.drop_last(), depth);
        if !skipped_dir(cs.last().0@) {
            lemma_discovered_law(cs.last().1, depth);
            let a = discovered_in(cs.drop_last(), depth);
            let b = discovered(cs.last().1, depth);
            assert forall|k: int| 0 <= k < (a + b).len() implies (#[trigger] (a + b)[k]).1 != Language::Unknown by {
                if k < a.len() {
                    assert((a + b)[k] == a[k]);
                } else {
                    assert((a + b)[k] == b[k - a.len()]);
                }
            }
        }
    }
}

/// A discovery result names the directory `t`: its path and its detected
/// language.
pub open spec fn found_as(x: (Seq<char>, Language), t: DirTree) -> bool {
    x.0 == t.path@ && x.1 == detected(t.listing)
}

/// The directory reached from `t` by following the subdirectory positions
/// of `route`.
pub open spec fn subtree_at(t: DirTree, route: Seq<int>) -> DirTree
    decreases route.len(),
{
    if route.len() == 0 || !(0 <= route[0] < t.subdirs@.len()) {
        t
    } else {
        subtree_at(t.subdirs@[route[0]].1, route.drop_first())
    }
}

/// `route` leads, within `depth` levels, through directories that are
/// neither skipped nor projects themselves, to a project.
pub open spec fn project_route(t: DirTree, route: Seq<int>, depth: nat) -> bool
    decreases route.len(),
{
    if route.len() == 0 {
        depth >= 1 && detected(t.listing) != Language::Unknown
    } else {
        &&& depth >= 1
        &&& detected(t.listing) == Language::Unknown
        &&& 0 <= route[0] < t.subdirs@.len()
        &&& !skipped_dir(t.subdirs@[route[0]].0@)
        &&& project_route(t.subdirs@[route[0]].1, route.drop_first(), (depth - 1) as nat)
    }
}

proof fn lemma_route_depth(t: DirTree, route: Seq<int>, depth: nat)
    requires
        project_route(t, route, depth),
    ensures
        route.len() < depth,
    decreases route.len(),
{
    if route.len() > 0 {
        lemma_route_depth(t.subdirs@[route[0]].1, route.drop_first(), (depth - 1) as nat);
    }
}

/// The route to the `k`-th project that discovery finds in `t`.
pub open spec fn route_of(t: DirTree, depth: nat, k: int) -> Seq<int>
    decreases depth, 0nat,
{
    if depth == 0 || detected(t.listing) != Language::Unknown {
        Seq::empty()
    } else {
        let (j, r) = route_in(t.subdirs@, (depth - 1) as nat, k);
        seq![j] + r
    }
}

/// The subdirectory position and the route below it of the `k`-th project
/// that discovery finds in the subdirectories `cs`.
pub open spec fn route_in(cs: Seq<(String, DirTree)>, depth: nat, k: int) -> (int, Seq<int>)
    decreases depth, cs.len() + 1,
{
    if cs.len() == 0 {
        (0, Seq::empty())
    } else if skipped_dir(cs.last().0@) {
        route_in(cs.drop_last(), depth, k)
    } else if k < discovered_in(cs.drop_last(), depth).len() {
        route_in(cs.drop_last(), depth, k)
    } else {
        (cs.len() - 1, route_of(cs.last().1, depth, k - discovered_in(cs.drop_last(), depth).len()))
    }
}

/// Every project discovery finds is reached by a route of fewer than
/// `depth` steps through subdirectories that are not skipped, none of
/// which (the starting directory included) is a project itself; and it
/// is that directory's path with its detected language.
pub proof fn lemma_discovered_routes(t: DirTree, depth: nat)
    ensures
        forall|k: int| 0 <= k < discovered(t, depth).len() ==> project_route(t, #[trigger] route_of(t, depth, k), depth)
            && route_of(t, depth, k).len() < depth && found_as(discovered(t, depth)[k], subtree_at(t, route_of(t, depth, k))),
    decreases depth, 0nat,
{
    if depth > 0 && detected(t.listing) == Language::Unknown {
        let cs = t.subdirs@;
        let dd = (depth - 1) as nat;
        lemma_discovered_in_routes(cs, dd);
        assert forall|k: int| 0 <= k < discovered(t, depth).len() implies project_route(t, #[trigger] route_of(t, depth, k), depth)
            && route_of(t, depth, k).len() < depth && found_as(discovered(t, depth)[k], subtree_at(t, route_of(t, depth, k))) by {
            let (j, r) = route_in(cs, dd, k);
            assert(0 <= j < cs.len() && !skipped_dir(cs[j].0@) && project_route(cs[j].1, r, dd));
            let route = route_of(t, depth, k);
            assert(route == seq![j] + r);
            assert(route.drop_first() =~= r);
            assert(route[0] == j);
            lemma_route_depth(cs[j].1, r, dd);
            assert(subtree_at(t, route) == subtree_at(cs[j].1, r));
        }
    }
}

proof fn lemma_discovered_in_routes(cs: Seq<(String, DirTree)>, depth: nat)
    ensures
        forall|k: int| 0 <= k < discovered_in(cs, depth).len() ==> {
            let (j, r) = #[trigger] route_in(cs, depth, k);
            &&& 0 <= j < cs.len()
            &&& !skipped_dir(cs[j].0@)
            &&& project_route(cs[j].1, r, depth)
            &&& found_as(discovered_in(cs, depth)[k], subtree_at(cs[j].1, r))
        },
    decreases depth, cs.len() + 1,
{
    if cs.len() > 0 {
        let init = cs.drop_last();
        lemma_discovered_in_routes(init, depth);
        let a = discovered_in(init, depth);
        if !skipped_dir(cs.last().0@) {
            lemma_discovered_routes(cs.last().1, depth);
        }
        assert forall|k: int| 0 <= k < discovered_in(cs, depth).len() implies {
            let (j, r) = #[trigger] route_in(cs, depth, k);
            &&& 0 <= j < cs.len()
            &&& !skipped_dir(cs[j].0@)
            &&& project_route(cs[j].1, r, depth)
            &&& found_as(discovered_in(cs, depth)[k], subtree_at(cs[j].1, r))
        } by {
            if skipped_dir(cs.last().0@) || k < a.len() {
                let (j, r) = route_in(init, depth, k);
                assert(route_in(init, depth, k) == route_in(cs, depth, k));
                assert(cs[j] == init[j]);
                if !skipped_dir(cs.last().0@) {
                    assert(discovered_in(cs, depth) == a + discovered(cs.last().1, depth));
                }
                assert(discovered_in(cs, depth)[k] == a[k]);
            } else {
                let b = discovered(cs.last().1, depth);
                assert(discovered_in(cs, depth) == a + b);
                assert(discovered_in(cs, depth)[k] == b[k - a.len()]);
                assert(route_of(cs.last().1, depth, k - a.len()) == route_in(cs, depth, k).1);
            }
        }
    }
}

/// The views of discovery results.
pub open spec fn found_view(r: Seq<(String, Language)>) -> Seq<(Seq<char>, Language)> {
    r.map_values(|p: (String, Language)| (p.0@, p.1))
}

fn is_skipped(name: &str) -> (r: bool)
    ensures
        r == skipped_dir(name@),
{
    crate::text::has_prefix(name, ".") || str_eq(name, "target") || str_eq(name, "node_modules")
        || str_eq(name, "__pycache__") || str_eq(name, ".lake")
}

fn discover_into(t: &DirTree, depth: usize, results: &mut Vec<(String, Language)>)
    ensures
        found_view(final(results)@) == found_view(old(results)@) + discovered(*t, depth as nat),
    decreases depth, 0nat,
{
    let ghost before = found_view(results@);
    if depth == 0 {
        assert(found_view(results@) =~= before + discovered(*t, depth as nat));
        return;
    }
    let lang = detect_language(&t.listing);
    if lang != Language::Unknown {
        results.push((t.path.clone(), lang));
        assert(found_view(results@) =~= before + discovered(*t, depth as nat));
        return;
    }
    for i in 0..t.subdirs.len()
        invariant
            depth > 0,
            found_view(results@) == before + discovered_in(t.subdirs@.take(i as int), (depth - 1) as nat),
    {
        let ghost cs = t.subdirs@.take(i + 1);
        assert(cs.drop_last() =~= t.subdirs@.take(i as int));
        assert(cs.last() == t.subdirs@[i as int]);
        if !is_skipped(t.subdirs[i].0.as_str()) {
            let ghost mid = found_view(results@);
            discover_into(&t.subdirs[i].1, depth - 1, results);
            assert(found_view(results@) =~= before + discovered_in(cs, (depth - 1) as nat));
        }
    }
    assert(t.subdirs@.take(t.subdirs.len() as int) =~= t.subdirs@);
}

/// The projects under `root`, searching `max_depth` levels: each directory
/// whose language is recognised (not searched further), in walk order.
pub fn discover_projects(root: &DirTree, max_depth: usize) -> (r: Vec<(String, Language)>)
    ensures
        found_view(r@) == discovered(*root, max_depth as nat),
{
    let mut r: Vec<(String, Language)> = Vec::new();
    assert(found_view(r@) =~= Seq::<(Seq<char>, Language)>::empty());
    discover_into(root, max_depth, &mut r);
    assert(found_view(r@) =~= discovered(*root, max_depth as nat));
    r
}

} // verus!
