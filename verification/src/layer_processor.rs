//! Processing the crates of a dependency graph in layers: external
//! dependencies first, in dependency order, then the workspace members in
//! publish order. For each crate the processor finds its repository, picks
//! the branch or tag of its version, checks it out keeping local changes,
//! and writes a flake for it.
//!
//! The file system and git are the caller's: the processor says which
//! paths to probe and which git command to run next, and decides from what
//! came back.
use vstd::prelude::*;
use crate::git_wrapper::{GitCommand, GitOutput};
use crate::global_dep_graph::{DependencyNode, GlobalDependencyGraph};
use crate::path::{file_name_of, first_existing, join_path, path_file_name, path_join, pick_existing};
use crate::text::{
    cat, cat3, chars_of, contains, ends_with, has_prefix, has_substr, has_suffix, lemma_split_on_nonempty,
    lines, owned, push_str, replace, replace_all, split_chars, split_lines, split_on, starts_with,
    str_eq, string_of_range, strip_prefix, trim, trimmed, views, without_prefix,
};

verus! {

broadcast use vstd::string::group_string_axioms;

/// Processes the crates of a dependency graph layer by layer.
pub struct LayerProcessor {
    pub graph: GlobalDependencyGraph,
    pub workspace_path: String,
    pub output_base: String,
    pub git_exe: String,
    pub home_dir: String,
}

/// Where submodules of the vendored tree live.
pub const BASE_SUBMODULES: &'static str = "/mnt/data1/nix/vendor/rust/cargo2nix/submodules";

// ─────────────────────────── repository URLs ───────────────────────────

/// The URL without one trailing `.git`.
pub open spec fn without_git_suffix(u: Seq<char>) -> Seq<char> {
    if ends_with(u, ".git"@) {
        u.take(u.len() - 4)
    } else {
        u
    }
}

/// The first index `i`, from `from` on, with `i + 2` still inside `parts`,
/// where `parts[i]` is `github.com`.
pub open spec fn github_index_from(parts: Seq<Seq<char>>, from: int) -> Option<int>
    decreases parts.len() - from,
{
    if from < 0 || from >= parts.len() - 2 {
        None
    } else if parts[from] == "github.com"@ {
        Some(from)
    } else {
        github_index_from(parts, from + 1)
    }
}

proof fn lemma_github_index_bounds(parts: Seq<Seq<char>>, from: int)
    ensures
        github_index_from(parts, from) matches Some(i) ==> from <= i < parts.len() - 2 && parts[i] == "github.com"@,
    decreases parts.len() - from,
{
    if !(from < 0 || from >= parts.len() - 2) && parts[from] != "github.com"@ {
        lemma_github_index_bounds(parts, from + 1);
    }
}

/// The owner and repository named by a source URL: `crates-io`/`unknown`
/// for the crates.io registry; the two path segments after `github.com`
/// for GitHub URLs (HTTPS, SSH, or any URL with a `github.com` segment);
/// else the last two `/`-separated segments; else `unknown` and the URL.
pub open spec fn repo_coordinates(raw: Seq<char>) -> (Seq<char>, Seq<char>) {
    let trimmed = trim(raw);
    if trimmed == "crates.io"@ || starts_with(trimmed, "registry+https://github.com/rust-lang/crates.io-index"@) {
        ("crates-io"@, "unknown"@)
    } else {
        let url = without_git_suffix(trimmed);
        let https = strip_prefix(url, "https://github.com/"@);
        let ssh = strip_prefix(url, "git@github.com:"@);
        if https is Some && split_on(https->0, "/"@).len() >= 2 {
            (split_on(https->0, "/"@)[0], split_on(https->0, "/"@)[1])
        } else if ssh is Some && split_on(ssh->0, "/"@).len() >= 2 {
            (split_on(ssh->0, "/"@)[0], split_on(ssh->0, "/"@)[1])
        } else {
            let parts = split_on(url, "/:"@);
            if parts.len() >= 3 && github_index_from(parts, 0) is Some {
                let i = github_index_from(parts, 0)->0;
                (parts[i + 1], parts[i + 2])
            } else if contains(url, "/"@) && split_on(url, "/"@).len() >= 2 {
                let ps = split_on(url, "/"@);
                (ps[ps.len() - 2], ps[ps.len() - 1])
            } else {
                ("unknown"@, url)
            }
        }
    }
}

fn drop_git_suffix(u: &str) -> (r: String)
    ensures
        r@ == without_git_suffix(u@),
{
    if has_suffix(u, ".git") {
        let v = chars_of(u);
        proof {
            reveal_strlit(".git");
        }
        let r = string_of_range(&v, 0, v.len() - 4);
        assert(v@.subrange(0, v.len() - 4) =~= u@.take(u@.len() - 4));
        r
    } else {
        owned(u)
    }
}

/// The first two pieces of a `/`-split, when there are two.
fn first_two(rest: &str) -> (r: Option<(String, String)>)
    ensures
        split_on(rest@, "/"@).len() >= 2 <==> r is Some,
        r matches Some(p) ==> p.0@ == split_on(rest@, "/"@)[0] && p.1@ == split_on(rest@, "/"@)[1],
{
    let parts = split_chars(rest, "/");
    if parts.len() >= 2 {
        Some((parts[0].clone(), parts[1].clone()))
    } else {
        None
    }
}

fn github_index(parts: &Vec<String>) -> (r: Option<usize>)
    ensures
        match r {
            Some(i) => github_index_from(views(parts@), 0) == Some(i as int),
            None => github_index_from(views(parts@), 0) is None,
        },
{
    let ghost ps = views(parts@);
    if parts.len() < 2 {
        return None;
    }
    let mut i: usize = 0;
    while i < parts.len() - 2
        invariant
            ps == views(parts@),
            parts.len() >= 2,
            i <= parts.len() - 2,
            github_index_from(ps, 0) == github_index_from(ps, i as int),
        decreases parts.len() - i,
    {
        if str_eq(parts[i].as_str(), "github.com") {
            return Some(i);
        }
        i += 1;
    }
    None
}

/// The owner and repository named by a source URL (`repo_coordinates`).
pub fn parse_github_url(url: &str) -> (r: (String, String))
    ensures
        (r.0@, r.1@) == repo_coordinates(url@),
{
    let t = trimmed(url);
    if str_eq(t.as_str(), "crates.io") || has_prefix(t.as_str(), "registry+https://github.com/rust-lang/crates.io-index") {
        return (owned("crates-io"), owned("unknown"));
    }
    let u = drop_git_suffix(t.as_str());
    match without_prefix(u.as_str(), "https://github.com/") {
        Some(rest) => match first_two(rest.as_str()) {
            Some(p) => {
                return p;
            },
            None => {},
        },
        None => {},
    }
    match without_prefix(u.as_str(), "git@github.com:") {
        Some(rest) => match first_two(rest.as_str()) {
            Some(p) => {
                return p;
            },
            None => {},
        },
        None => {},
    }
    let parts = split_chars(u.as_str(), "/:");
    if parts.len() >= 3 {
        proof {
            lemma_github_index_bounds(views(parts@), 0);
        }
        match github_index(&parts) {
            Some(i) => {
                return (parts[i + 1].clone(), parts[i + 2].clone());
            },
            None => {},
        }
    }
    if has_substr(u.as_str(), "/") {
        let ps = split_chars(u.as_str(), "/");
        if ps.len() >= 2 {
            return (ps[ps.len() - 2].clone(), ps[ps.len() - 1].clone());
        }
    }
    (owned("unknown"), u)
}


// ─────────────────────────── versions and tags ─────────────────────────

/// `s` without `p` at its start, or `s` itself.
pub open spec fn strip_once(s: Seq<char>, p: Seq<char>) -> Seq<char> {
    match strip_prefix(s, p) {
        Some(t) => t,
        None => s,
    }
}

/// A version requirement made a plain version: one leading `^`, then `~`,
/// then `=` dropped, and every `>=`, `>`, `<=`, `<` and space removed.
pub open spec fn clean_version(v: Seq<char>) -> Seq<char> {
    let a = strip_once(strip_once(strip_once(v, "^"@), "~"@), "="@);
    replace(replace(replace(replace(replace(a, ">="@, ""@), ">"@, ""@), "<="@, ""@), "<"@, ""@), " "@, ""@)
}

fn strip_once_exec(s: String, p: &str) -> (r: String)
    ensures
        r@ == strip_once(s@, p@),
{
    match without_prefix(s.as_str(), p) {
        Some(t) => t,
        None => s,
    }
}

/// Executable `clean_version`.
pub fn cleaned_version(v: &str) -> (r: String)
    ensures
        r@ == clean_version(v@),
{
    proof {
        reveal_strlit(">=");
        reveal_strlit(">");
        reveal_strlit("<=");
        reveal_strlit("<");
        reveal_strlit(" ");
    }
    let a = strip_once_exec(strip_once_exec(strip_once_exec(owned(v), "^"), "~"), "=");
    let b = replace_all(a.as_str(), ">=", "");
    let c = replace_all(b.as_str(), ">", "");
    let d = replace_all(c.as_str(), "<=", "");
    let e = replace_all(d.as_str(), "<", "");
    replace_all(e.as_str(), " ", "")
}

/// The first tag equal to `a` or to `b`.
pub open spec fn first_exact(tags: Seq<Seq<char>>, a: Seq<char>, b: Seq<char>) -> Option<Seq<char>>
    decreases tags.len(),
{
    if tags.len() == 0 {
        None
    } else if tags[0] == a || tags[0] == b {
        Some(tags[0])
    } else {
        first_exact(tags.drop_first(), a, b)
    }
}

/// The first tag that starts with `p`.
pub open spec fn first_prefixed(tags: Seq<Seq<char>>, p: Seq<char>) -> Option<Seq<char>>
    decreases tags.len(),
{
    if tags.len() == 0 {
        None
    } else if starts_with(tags[0], p) {
        Some(tags[0])
    } else {
        first_prefixed(tags.drop_first(), p)
    }
}

/// The tag chosen for a version: one equal to the version or to the
/// version with a `v` before it; else, for a dotted version, the first
/// starting with `<major>.<minor>`, else the first starting with
/// `<major>.`.
pub open spec fn tag_choice(v: Seq<char>, tags: Seq<Seq<char>>) -> Option<Seq<char>> {
    match first_exact(tags, v, "v"@ + v) {
        Some(t) => Some(t),
        None => if contains(v, "."@) {
            let parts = split_on(v, "."@);
            let major = parts[0];
            let minor = if parts.len() > 1 { parts[1] } else { "0"@ };
            match first_prefixed(tags, major + "."@ + minor) {
                Some(t) => Some(t),
                None => first_prefixed(tags, major + "."@),
            }
        } else {
            None
        },
    }
}

fn exact_tag(tags: &Vec<String>, a: &str, b: &str) -> (r: Option<String>)
    ensures
        r.deep_view() == first_exact(views(tags@), a@, b@),
{
    let ghost ts = views(tags@);
    let mut i: usize = 0;
    assert(ts.skip(0) =~= ts);
    while i < tags.len()
        invariant
            i <= tags.len(),
            ts == views(tags@),
            first_exact(ts, a@, b@) == first_exact(ts.skip(i as int), a@, b@),
        decreases tags.len() - i,
    {
        assert(ts.skip(i as int).drop_first() =~= ts.skip(i + 1));
        assert(ts.skip(i as int)[0] == tags@[i as int]@);
        if str_eq(tags[i].as_str(), a) || str_eq(tags[i].as_str(), b) {
            return Some(tags[i].clone());
        }
        i += 1;
    }
    None
}

fn prefixed_tag(tags: &Vec<String>, p: &str) -> (r: Option<String>)
    ensures
        r.deep_view() == first_prefixed(views(tags@), p@),
{
    let ghost ts = views(tags@);
    let mut i: usize = 0;
    assert(ts.skip(0) =~= ts);
    while i < tags.len()
        invariant
            i <= tags.len(),
            ts == views(tags@),
            first_prefixed(ts, p@) == first_prefixed(ts.skip(i as int), p@),
        decreases tags.len() - i,
    {
        assert(ts.skip(i as int).drop_first() =~= ts.skip(i + 1));
        assert(ts.skip(i as int)[0] == tags@[i as int]@);
        if has_prefix(tags[i].as_str(), p) {
            return Some(tags[i].clone());
        }
        i += 1;
    }
    None
}

/// Executable `tag_choice`.
pub fn choose_tag(v: &str, tags: &Vec<String>) -> (r: Option<String>)
    ensures
        r.deep_view() == tag_choice(v@, views(tags@)),
{
    let vv = cat("v", v);
    proof {
        assert(vv@ == "v"@ + v@);
    }
    match exact_tag(tags, v, vv.as_str()) {
        Some(t) => {
            return Some(t);
        },
        None => {},
    }
    if !has_substr(v, ".") {
        return None;
    }
    let parts = split_chars(v, ".");
    proof {
        lemma_split_on_nonempty(v@, "."@);
    }
    let minor = if parts.len() > 1 { parts[1].clone() } else { owned("0") };
    let prefix = cat3(parts[0].as_str(), ".", minor.as_str());
    match prefixed_tag(tags, prefix.as_str()) {
        Some(t) => Some(t),
        None => {
            let major_prefix = cat(parts[0].as_str(), ".");
            prefixed_tag(tags, major_prefix.as_str())
        },
    }
}

/// The tags that `git tag -l` listed: its trimmed lines, or none when the
/// command failed.
pub open spec fn listed_tags(out: GitOutput) -> Seq<Seq<char>> {
    if out.success {
        lines(out.stdout@).map_values(|l: Seq<char>| trim(l))
    } else {
        Seq::empty()
    }
}

/// Executable `listed_tags`.
pub fn tags_from_output(out: &GitOutput) -> (r: Vec<String>)
    ensures
        views(r@) == listed_tags(*out),
{
    let mut r: Vec<String> = Vec::new();
    if !out.success {
        assert(views(r@) =~= Seq::<Seq<char>>::empty());
        return r;
    }
    let ls = split_lines(out.stdout.as_str());
    let ghost target = lines(out.stdout@).map_values(|l: Seq<char>| trim(l));
    let mut i: usize = 0;
    while i < ls.len()
        invariant
            i <= ls.len(),
            views(ls@) == lines(out.stdout@),
            target == lines(out.stdout@).map_values(|l: Seq<char>| trim(l)),
            views(r@) == target.take(i as int),
        decreases ls.len() - i,
    {
        let t = trimmed(ls[i].as_str());
        assert(target[i as int] == trim(ls@[i as int]@));
        let ghost before = r@;
        r.push(t);
        assert(r@ == before.push(t));
        assert(views(r@) =~= views(before).push(t@));
        assert(views(r@) =~= target.take(i + 1));
        i += 1;
    }
    assert(target.take(i as int) =~= target);
    r
}

/// The next step of the search for the branch or tag of a crate's version.
pub enum BranchStep {
    /// The branch or tag to check out.
    Answer(String),
    /// Ask whether this local branch exists.
    CheckBranch(String),
    /// Ask for the repository's tags.
    ListTags,
}

/// What the search has learned so far; each answer is filled in when the
/// step that asked for it was taken.
pub struct BranchAnswers {
    /// Whether a branch named as the cleaned version exists.
    pub version_branch: Option<bool>,
    /// Whether a branch named `v<version>` exists.
    pub v_branch: Option<bool>,
    /// The repository's tags.
    pub tags: Option<Vec<String>>,
    /// Whether the branch `v<major>.` exists.
    pub major_branch: Option<bool>,
}

/// The view of a step.
pub open spec fn step_view(s: BranchStep) -> (int, Seq<char>) {
    match s {
        BranchStep::Answer(b) => (0, b@),
        BranchStep::CheckBranch(b) => (1, b@),
        BranchStep::ListTags => (2, Seq::empty()),
    }
}

/// `v<major>.` for a version.
pub open spec fn major_branch(v: Seq<char>) -> Seq<char> {
    "v"@ + split_on(v, "."@)[0] + "."@
}

/// The search for a crate's branch: a crates.io crate takes its version as
/// it is; otherwise the cleaned version as a branch, then `v<version>` as a
/// branch, then a tag (`tag_choice`), then for a dotted version the
/// branch `v<major>.`, and last the cleaned version itself.
pub open spec fn branch_search(
    source: Seq<char>,
    version: Seq<char>,
    vb: Option<bool>,
    vvb: Option<bool>,
    tags: Option<Seq<Seq<char>>>,
    mb: Option<bool>,
) -> (int, Seq<char>) {
    let v = clean_version(version);
    let vv = "v"@ + v;
    if source == "crates.io"@ {
        (0, version)
    } else {
        match vb {
            None => (1, v),
            Some(true) => (0, v),
            Some(false) => match vvb {
                None => (1, vv),
                Some(true) => (0, vv),
                Some(false) => match tags {
                    None => (2, Seq::empty()),
                    Some(ts) => match tag_choice(v, ts) {
                        Some(t) => (0, t),
                        None => if contains(v, "."@) {
                            match mb {
                                None => (1, major_branch(v)),
                                Some(true) => (0, major_branch(v)),
                                Some(false) => (0, v),
                            }
                        } else {
                            (0, v)
                        },
                    },
                },
            },
        }
    }
}

/// The next step of the branch search for `node`, given the answers so far.
pub fn find_branch_for_version(node: &DependencyNode, known: &BranchAnswers) -> (r: BranchStep)
    ensures
        step_view(r) == branch_search(
            node.source@,
            node.version@,
            known.version_branch,
            known.v_branch,
            match known.tags {
                Some(t) => Some(views(t@)),
                None => None,
            },
            known.major_branch,
        ),
{
    if str_eq(node.source.as_str(), "crates.io") {
        return BranchStep::Answer(node.version.clone());
    }
    let v = cleaned_version(node.version.as_str());
    let vv = cat("v", v.as_str());
    match known.version_branch {
        None => {
            return BranchStep::CheckBranch(v);
        },
        Some(true) => {
            return BranchStep::Answer(v);
        },
        Some(false) => {},
    }
    match known.v_branch {
        None => {
            return BranchStep::CheckBranch(vv);
        },
        Some(true) => {
            return BranchStep::Answer(vv);
        },
        Some(false) => {},
    }
    let tags = match &known.tags {
        None => {
            return BranchStep::ListTags;
        },
        Some(t) => t,
    };
    match choose_tag(v.as_str(), tags) {
        Some(t) => {
            return BranchStep::Answer(t);
        },
        None => {},
    }
    if !has_substr(v.as_str(), ".") {
        return BranchStep::Answer(v);
    }
    let parts = split_chars(v.as_str(), ".");
    proof {
        lemma_split_on_nonempty(v@, "."@);
    }
    let mb = cat3("v", parts[0].as_str(), ".");
    match known.major_branch {
        None => BranchStep::CheckBranch(mb),
        Some(true) => BranchStep::Answer(mb),
        Some(false) => BranchStep::Answer(v),
    }
}


// ─────────────────────────── checking out ──────────────────────────────

/// Where a checkout stands: the git command whose output comes back next.
#[derive(PartialEq, Eq, Structural, Clone, Copy, Debug)]
pub enum CheckoutPhase {
    /// Nothing has run yet.
    Begin,
    /// `status --porcelain` ran.
    Status,
    /// `stash push` ran.
    Stash,
    /// `fetch origin <branch>` ran.
    Fetch,
    /// `checkout <branch>` ran.
    Checkout,
    /// `stash pop` ran.
    Pop,
    /// The final `status --porcelain` ran.
    FinalStatus,
    /// `add .` ran.
    Add,
    /// `commit` ran.
    Commit,
}

/// What to do next in a checkout.
pub struct CheckoutStep {
    /// The phase to hand back with the output of `run`.
    pub phase: CheckoutPhase,
    /// Whether the repository had local changes before the checkout.
    pub had_changes: bool,
    /// The git command to run next; `None` when the checkout is over.
    pub run: Option<GitCommand>,
    /// The outcome, once the checkout is over.
    pub outcome: Option<Result<(), String>>,
    /// A line to print.
    pub note: Option<String>,
}

/// The view of a phase as a number, in the order of the variants.
pub open spec fn phase_index(p: CheckoutPhase) -> int {
    match p {
        CheckoutPhase::Begin => 0,
        CheckoutPhase::Status => 1,
        CheckoutPhase::Stash => 2,
        CheckoutPhase::Fetch => 3,
        CheckoutPhase::Checkout => 4,
        CheckoutPhase::Pop => 5,
        CheckoutPhase::FinalStatus => 6,
        CheckoutPhase::Add => 7,
        CheckoutPhase::Commit => 8,
    }
}

/// The path lies at or below `base`, component by component, as
/// `Path::starts_with` decides.
pub uninterp spec fn path_within(p: Seq<char>, base: Seq<char>) -> bool;

/// `Path::starts_with`: whether `base` is a prefix of `p` in whole
/// components. The contract claims only that the result is the named
/// `path_within` of the arguments.
#[verifier::external_body]
fn path_starts_with(p: &str, base: &str) -> (r: bool)
    ensures
        r == path_within(p@, base@),
{
    std::path::Path::new(p).starts_with(base)
}

/// One step of a checkout: the next phase, whether there were local
/// changes, the git arguments to run after `-C <repo>` (none when the
/// checkout is over), the outcome when over, and a line to print.
///
/// A crates.io cache or a workspace member is left as it is. Otherwise
/// local changes are stashed, the branch is fetched and checked out (a
/// failed checkout fails the whole), the stash is popped, and whatever
/// changed is added and committed. A failed stash, fetch, pop or commit
/// only prints a warning.
pub open spec fn checkout_plan(
    repo: Seq<char>,
    workspace: Seq<char>,
    branch: Seq<char>,
    phase: int,
    had: bool,
    last: GitOutput,
) -> (int, bool, Option<Seq<Seq<char>>>, Option<Result<(), Seq<char>>>, Option<Seq<char>>) {
    let status = seq!["status"@, "--porcelain"@];
    let fetch = seq!["fetch"@, "origin"@, branch];
    if phase == 0 {
        if contains(repo, "crates-io-cache"@) {
            (0, had, None, Some(Ok(())), Some("  Skipping git checkout for crates.io dependency"@))
        } else if path_within(repo, workspace) {
            (0, had, None, Some(Ok(())), Some("  Skipping git checkout for workspace member (already at correct version)"@))
        } else {
            (1, had, Some(status), None, None)
        }
    } else if phase == 1 {
        if last.stdout@.len() > 0 {
            (2, true, Some(seq!["stash"@, "push"@, "--include-untracked"@, "-m"@, "Auto-stash before checkout to "@ + branch]), None,
                Some("  Found local changes, capturing and preserving them..."@))
        } else {
            (3, false, Some(fetch), None, None)
        }
    } else if phase == 2 {
        (3, had, Some(fetch), None, if last.success {
            Some("  Successfully stashed local changes"@)
        } else {
            Some("  Warning: Failed to stash changes: "@ + last.stderr@)
        })
    } else if phase == 3 {
        (4, had, Some(seq!["checkout"@, branch]), None, if last.success {
            None
        } else {
            Some("  Warning: Failed to fetch branch "@ + branch + ": "@ + last.stderr@)
        })
    } else if phase == 4 {
        if !last.success {
            (4, had, None, Some(Err("Failed to checkout branch "@ + branch + ": "@ + last.stderr@)), None)
        } else if had {
            (5, had, Some(seq!["stash"@, "pop"@]), None, Some("  Applying preserved changes to new branch..."@))
        } else {
            (6, had, Some(status), None, None)
        }
    } else if phase == 5 {
        (6, had, Some(status), None, if last.success {
            Some("  Successfully applied preserved changes"@)
        } else {
            Some("  Warning: Failed to apply stashed changes: "@ + last.stderr@
                + "\n  Changes are still preserved in stash and can be applied manually"@)
        })
    } else if phase == 6 {
        if last.stdout@.len() > 0 {
            (7, had, Some(seq!["add"@, "."@]), None, Some("  Committing final state..."@))
        } else {
            (6, had, None, Some(Ok(())), None)
        }
    } else if phase == 7 {
        if last.success {
            (8, had, Some(seq!["commit"@, "-m"@, "Auto-commit: Applied changes to branch "@ + branch]), None, None)
        } else {
            (7, had, None, Some(Ok(())), None)
        }
    } else {
        (8, had, None, Some(Ok(())), if last.success {
            Some("  \u{2705} Successfully committed changes to branch "@ + branch)
        } else {
            Some("  Warning: Failed to commit changes: "@ + last.stderr@)
        })
    }
}

/// The view of a checkout step.
pub open spec fn checkout_step_view(s: CheckoutStep) -> (int, bool, Option<Seq<Seq<char>>>, Option<Result<(), Seq<char>>>, Option<Seq<char>>) {
    (
        phase_index(s.phase),
        s.had_changes,
        match s.run {
            Some(c) => Some(views(c.args@).skip(2)),
            None => None,
        },
        match s.outcome {
            Some(Ok(())) => Some(Ok(())),
            Some(Err(e)) => Some(Err(e@)),
            None => None,
        },
        s.note.deep_view(),
    )
}

fn phase_number(p: &CheckoutPhase) -> (r: u8)
    ensures
        r as int == phase_index(*p),
{
    match p {
        CheckoutPhase::Begin => 0,
        CheckoutPhase::Status => 1,
        CheckoutPhase::Stash => 2,
        CheckoutPhase::Fetch => 3,
        CheckoutPhase::Checkout => 4,
        CheckoutPhase::Pop => 5,
        CheckoutPhase::FinalStatus => 6,
        CheckoutPhase::Add => 7,
        CheckoutPhase::Commit => 8,
    }
}

fn strs(a: &[&str]) -> (r: Vec<String>)
    ensures
        views(r@) == a@.map_values(|x: &str| x@),
{
    let mut r: Vec<String> = Vec::new();
    let mut i: usize = 0;
    while i < a.len()
        invariant
            i <= a.len(),
            views(r@) == a@.map_values(|x: &str| x@).take(i as int),
        decreases a.len() - i,
    {
        let ghost before = r@;
        r.push(owned(a[i]));
        assert(views(r@) =~= views(before).push(a@[i as int]@));
        assert(views(r@) =~= a@.map_values(|x: &str| x@).take(i + 1));
        i += 1;
    }
    assert(a@.map_values(|x: &str| x@).take(i as int) =~= a@.map_values(|x: &str| x@));
    r
}

impl LayerProcessor {
    /// A processor for a graph, a workspace, an output directory, a git
    /// executable and a home directory.
    pub fn new(
        graph: GlobalDependencyGraph,
        workspace_path: String,
        output_base: String,
        git_exe: String,
        home_dir: String,
    ) -> (r: Self)
        ensures
            r.graph == graph,
            r.workspace_path == workspace_path,
            r.output_base == output_base,
            r.git_exe == git_exe,
            r.home_dir == home_dir,
    {
        LayerProcessor { graph, workspace_path, output_base, git_exe, home_dir }
    }

    /// `git -C <repo> <args>`.
    fn git_in(&self, repo: &str, args: Vec<String>) -> (r: GitCommand)
        ensures
            r.program@ == self.git_exe@,
            views(r.args@) == seq!["-C"@, repo@] + views(args@),
    {
        let mut all: Vec<String> = Vec::new();
        all.push(owned("-C"));
        all.push(owned(repo));
        let ghost head = views(all@);
        assert(head =~= seq!["-C"@, repo@]);
        let mut i: usize = 0;
        while i < args.len()
            invariant
                i <= args.len(),
                views(all@) == head + views(args@).take(i as int),
            decreases args.len() - i,
        {
            let ghost before = all@;
            all.push(args[i].clone());
            assert(views(all@) =~= views(before).push(args@[i as int]@));
            assert(views(all@) =~= head + views(args@).take(i + 1));
            i += 1;
        }
        assert(views(args@).take(i as int) =~= views(args@));
        GitCommand { program: self.git_exe.clone(), args: all }
    }

    fn run_step(&self, repo: &str, phase: CheckoutPhase, had: bool, args: Vec<String>, note: Option<String>) -> (r: CheckoutStep)
        ensures
            r.phase == phase,
            r.had_changes == had,
            r.run matches Some(c) && c.program@ == self.git_exe@ && views(c.args@) == seq!["-C"@, repo@] + views(args@),
            r.outcome is None,
            r.note == note,
    {
        let c = self.git_in(repo, args);
        CheckoutStep { phase, had_changes: had, run: Some(c), outcome: None, note }
    }

    /// The next step of checking out `branch` in `repo` (`checkout_plan`),
    /// from the phase reached, whether there were local changes, and the
    /// output of the command that ran last.
    pub fn checkout_branch(
        &self,
        repo: &str,
        branch: &str,
        phase: CheckoutPhase,
        had_changes: bool,
        last: &GitOutput,
    ) -> (r: CheckoutStep)
        ensures
            checkout_step_view(r) == checkout_plan(
                repo@,
                self.workspace_path@,
                branch@,
                phase_index(phase),
                had_changes,
                *last,
            ),
            r.run matches Some(c) ==> c.program@ == self.git_exe@ && views(c.args@).take(2) == seq!["-C"@, repo@],
    {
        let n = phase_number(&phase);
        let ghost plan = checkout_plan(repo@, self.workspace_path@, branch@, phase_index(phase), had_changes, *last);
        let r = if n == 0 {
            if has_substr(repo, "crates-io-cache") {
                CheckoutStep { phase: CheckoutPhase::Begin, had_changes, run: None, outcome: Some(Ok(())),
                    note: Some(owned("  Skipping git checkout for crates.io dependency")) }
            } else if path_starts_with(repo, self.workspace_path.as_str()) {
                CheckoutStep { phase: CheckoutPhase::Begin, had_changes, run: None, outcome: Some(Ok(())),
                    note: Some(owned("  Skipping git checkout for workspace member (already at correct version)")) }
            } else {
                self.run_step(repo, CheckoutPhase::Status, had_changes, strs(&["status", "--porcelain"]), None)
            }
        } else if n == 1 {
            if !last.stdout.as_str().is_empty() {
                let mut args = strs(&["stash", "push", "--include-untracked", "-m"]);
                let msg = cat("Auto-stash before checkout to ", branch);
                let ghost before = args@;
                args.push(msg);
                assert(views(args@) =~= views(before).push(msg@));
                self.run_step(repo, CheckoutPhase::Stash, true, args,
                    Some(owned("  Found local changes, capturing and preserving them...")))
            } else {
                let mut args = strs(&["fetch", "origin"]);
                let ghost before = args@;
                args.push(owned(branch));
                assert(views(args@) =~= views(before).push(branch@));
                self.run_step(repo, CheckoutPhase::Fetch, false, args, None)
            }
        } else if n == 2 {
            let mut args = strs(&["fetch", "origin"]);
            let ghost before = args@;
            args.push(owned(branch));
            assert(views(args@) =~= views(before).push(branch@));
            let note = if last.success {
                owned("  Successfully stashed local changes")
            } else {
                cat("  Warning: Failed to stash changes: ", last.stderr.as_str())
            };
            self.run_step(repo, CheckoutPhase::Fetch, had_changes, args, Some(note))
        } else if n == 3 {
            let mut args = strs(&["checkout"]);
            let ghost before = args@;
            args.push(owned(branch));
            assert(views(args@) =~= views(before).push(branch@));
            let note = if last.success {
                None
            } else {
                let mut m = cat3("  Warning: Failed to fetch branch ", branch, ": ");
                push_str(&mut m, last.stderr.as_str());
                Some(m)
            };
            self.run_step(repo, CheckoutPhase::Checkout, had_changes, args, note)
        } else if n == 4 {
            if !last.success {
                let mut m = cat3("Failed to checkout branch ", branch, ": ");
                push_str(&mut m, last.stderr.as_str());
                CheckoutStep { phase: CheckoutPhase::Checkout, had_changes, run: None, outcome: Some(Err(m)), note: None }
            } else if had_changes {
                self.run_step(repo, CheckoutPhase::Pop, had_changes, strs(&["stash", "pop"]),
                    Some(owned("  Applying preserved changes to new branch...")))
            } else {
                self.run_step(repo, CheckoutPhase::FinalStatus, had_changes, strs(&["status", "--porcelain"]), None)
            }
        } else if n == 5 {
            let note = if last.success {
                owned("  Successfully applied preserved changes")
            } else {
                let mut m = cat("  Warning: Failed to apply stashed changes: ", last.stderr.as_str());
                push_str(&mut m, "\n  Changes are still preserved in stash and can be applied manually");
                m
            };
            self.run_step(repo, CheckoutPhase::FinalStatus, had_changes, strs(&["status", "--porcelain"]), Some(note))
        } else if n == 6 {
            if !last.stdout.as_str().is_empty() {
                self.run_step(repo, CheckoutPhase::Add, had_changes, strs(&["add", "."]),
                    Some(owned("  Committing final state...")))
            } else {
                CheckoutStep { phase: CheckoutPhase::FinalStatus, had_changes, run: None, outcome: Some(Ok(())), note: None }
            }
        } else if n == 7 {
            if last.success {
                let mut args = strs(&["commit", "-m"]);
                let msg = cat("Auto-commit: Applied changes to branch ", branch);
                let ghost before = args@;
                args.push(msg);
                assert(views(args@) =~= views(before).push(msg@));
                self.run_step(repo, CheckoutPhase::Commit, had_changes, args, None)
            } else {
                CheckoutStep { phase: CheckoutPhase::Add, had_changes, run: None, outcome: Some(Ok(())), note: None }
            }
        } else {
            let note = if last.success {
                cat("  \u{2705} Successfully committed changes to branch ", branch)
            } else {
                cat("  Warning: Failed to commit changes: ", last.stderr.as_str())
            };
            CheckoutStep { phase: CheckoutPhase::Commit, had_changes, run: None, outcome: Some(Ok(())), note: Some(note) }
        };
        proof {
            reveal_strlit("status");
            reveal_strlit("--porcelain");
            if r.run is Some {
                assert(views(r.run->0.args@).take(2) =~= seq!["-C"@, repo@]);
            }
        }
        r
    }
}


// ─────────────────────────── crates and flakes ─────────────────────────

/// The text of a layer flake before the crate name.
pub const LAYER_FLAKE_HEAD: &'static str = "\n{\n  description = \"";
/// Between the version and the first package reference.
pub const LAYER_FLAKE_INPUTS: &'static str = " - Auto-generated flake\";\n  \n  inputs = {\n    nixpkgs.url = \"github:NixOS/nixpkgs/nixpkgs-unstable\";\n    flake-utils.url = \"github:numtide/flake-utils\";\n  };\n  \n  outputs = { self, nixpkgs, flake-utils, ... }@inputs: {\n    packages = {\n      default = self.packages.${system}.";
/// Between the default package and the package attribute.
pub const LAYER_FLAKE_PACKAGES: &'static str = "; \n    };\n    \n    packages.${system} = {\n      ";
/// After the package attribute.
pub const LAYER_FLAKE_TAIL: &'static str = " = inputs.nixpkgs.legacyPackages.${system}.callPackage ./. { };\n    };\n  };\n}\n";

/// The flake written for a crate of a layer.
pub open spec fn layer_flake(name: Seq<char>, version: Seq<char>) -> Seq<char> {
    LAYER_FLAKE_HEAD@ + name + " v"@ + version + LAYER_FLAKE_INPUTS@ + name + LAYER_FLAKE_PACKAGES@ + name
        + LAYER_FLAKE_TAIL@
}

/// Executable `layer_flake`.
pub fn layer_flake_text(name: &str, version: &str) -> (r: String)
    ensures
        r@ == layer_flake(name@, version@),
{
    let mut r = owned(LAYER_FLAKE_HEAD);
    push_str(&mut r, name);
    push_str(&mut r, " v");
    push_str(&mut r, version);
    push_str(&mut r, LAYER_FLAKE_INPUTS);
    push_str(&mut r, name);
    push_str(&mut r, LAYER_FLAKE_PACKAGES);
    push_str(&mut r, name);
    push_str(&mut r, LAYER_FLAKE_TAIL);
    r
}

/// The paths whose existence decides where a crate's repository is: for
/// a workspace member, `<workspace>/<name>` and `<workspace>/Cargo.toml`;
/// for a crates.io crate, none; otherwise the vendored submodule, the bare
/// mirror under the home directory, and the `submodules` and `external`
/// directories of the output, each named after the repository.
pub open spec fn repository_probes(
    workspace: Seq<char>,
    output: Seq<char>,
    home: Seq<char>,
    source: Seq<char>,
    name: Seq<char>,
) -> Seq<Seq<char>> {
    if source == "workspace"@ {
        seq![join_path(workspace, name), join_path(workspace, "Cargo.toml"@)]
    } else if source == "crates.io"@ {
        Seq::empty()
    } else {
        let owner = repo_coordinates(source).0;
        let repo = repo_coordinates(source).1;
        seq![
            join_path(BASE_SUBMODULES@, repo),
            join_path(join_path(join_path(join_path(home, "git"@), "github.com"@), owner), repo + ".git"@),
            join_path(join_path(output, "submodules"@), repo),
            join_path(join_path(output, "external"@), repo),
        ]
    }
}

/// Where a crate's repository is, given which probe paths exist.
pub open spec fn repository_outcome(
    workspace: Seq<char>,
    output: Seq<char>,
    home: Seq<char>,
    source: Seq<char>,
    name: Seq<char>,
    exists: Seq<bool>,
) -> Result<Seq<char>, Seq<char>> {
    if source == "workspace"@ {
        if exists[0] {
            Ok(join_path(workspace, name))
        } else if exists[1] {
            Ok(workspace)
        } else {
            Err("Workspace member "@ + name + " not found at expected location: "@ + join_path(workspace, name))
        }
    } else if source == "crates.io"@ {
        Ok(join_path(join_path(output, "crates-io-cache"@), name))
    } else {
        match first_existing(repository_probes(workspace, output, home, source, name), exists) {
            Some(p) => Ok(p),
            None => Err("Repository not found for "@ + name + " at any expected location"@),
        }
    }
}

/// The directory a crate's flake goes to: `layer1` for external crates,
/// `layer2` for workspace members.
pub open spec fn layer_dir(output: Seq<char>, name: Seq<char>, is_external: bool) -> Seq<char> {
    join_path(join_path(output, if is_external { "layer1"@ } else { "layer2"@ }), name)
}

/// The file pattern of a repository's patches.
pub open spec fn patch_pattern(repo: Seq<char>) -> Seq<char> {
    (match path_file_name(repo) {
        Some(n) => n,
        None => "unknown"@,
    }) + "-*.patch"@
}

/// Crates in the crates.io cache have no source to compile.
pub open spec fn compiles(repo: Seq<char>) -> bool {
    !contains(repo, "crates-io-cache"@)
}

/// The index of the first node with the id.
pub open spec fn first_node_with_id(nodes: Seq<DependencyNode>, id: Seq<char>, i: int) -> bool {
    0 <= i < nodes.len() && nodes[i].id@ == id && forall|j: int| 0 <= j < i ==> (#[trigger] nodes[j]).id@ != id
}

impl LayerProcessor {
    /// The graph node with the given id.
    pub fn find_crate_node(&self, crate_id: &str) -> (r: Result<&DependencyNode, String>)
        ensures
            r matches Ok(n) ==> exists|i: int| first_node_with_id(self.graph.nodes@, crate_id@, i) && *n == self.graph.nodes@[i],
            r matches Err(e) ==> e@ == "Crate "@ + crate_id@ + " not found in graph"@,
            r is Err <==> forall|i: int| 0 <= i < self.graph.nodes@.len() ==> (#[trigger] self.graph.nodes@[i]).id@ != crate_id@,
    {
        let mut i: usize = 0;
        while i < self.graph.nodes.len()
            invariant
                i <= self.graph.nodes@.len(),
                forall|j: int| 0 <= j < i ==> (#[trigger] self.graph.nodes@[j]).id@ != crate_id@,
            decreases self.graph.nodes.len() - i,
        {
            if str_eq(self.graph.nodes[i].id.as_str(), crate_id) {
                assert(first_node_with_id(self.graph.nodes@, crate_id@, i as int));
                return Ok(&self.graph.nodes[i]);
            }
            i += 1;
        }
        Err(cat3("Crate ", crate_id, " not found in graph"))
    }

    /// The paths to probe for a crate's repository (`repository_probes`).
    pub fn repository_probe_paths(&self, node: &DependencyNode) -> (r: Vec<String>)
        ensures
            views(r@) == repository_probes(self.workspace_path@, self.output_base@, self.home_dir@, node.source@, node.crate_name@),
    {
        let ws = self.workspace_path.as_str();
        let mut r: Vec<String> = Vec::new();
        if str_eq(node.source.as_str(), "workspace") {
            r.push(path_join(ws, node.crate_name.as_str()));
            r.push(path_join(ws, "Cargo.toml"));
        } else if !str_eq(node.source.as_str(), "crates.io") {
            let (owner, repo) = parse_github_url(node.source.as_str());
            r.push(path_join(BASE_SUBMODULES, repo.as_str()));
            let g = path_join(self.home_dir.as_str(), "git");
            let gh = path_join(g.as_str(), "github.com");
            let o = path_join(gh.as_str(), owner.as_str());
            let bare = cat(repo.as_str(), ".git");
            r.push(path_join(o.as_str(), bare.as_str()));
            let s = path_join(self.output_base.as_str(), "submodules");
            r.push(path_join(s.as_str(), repo.as_str()));
            let e = path_join(self.output_base.as_str(), "external");
            r.push(path_join(e.as_str(), repo.as_str()));
        }
        proof {
            assert(views(r@) =~= repository_probes(self.workspace_path@, self.output_base@, self.home_dir@, node.source@, node.crate_name@));
        }
        r
    }

    /// Where a crate's repository is (`repository_outcome`), given which of
    /// its probe paths exist. A crates.io crate gets its cache directory,
    /// which the caller creates when it is missing.
    pub fn find_repository(&self, node: &DependencyNode, exists: &Vec<bool>) -> (r: Result<String, String>)
        requires
            exists@.len() == repository_probes(self.workspace_path@, self.output_base@, self.home_dir@, node.source@, node.crate_name@).len(),
        ensures
            match r {
                Ok(p) => repository_outcome(self.workspace_path@, self.output_base@, self.home_dir@, node.source@, node.crate_name@, exists@) == Ok::<Seq<char>, Seq<char>>(p@),
                Err(e) => repository_outcome(self.workspace_path@, self.output_base@, self.home_dir@, node.source@, node.crate_name@, exists@) == Err::<Seq<char>, Seq<char>>(e@),
            },
    {
        let ws = self.workspace_path.as_str();
        let name = node.crate_name.as_str();
        if str_eq(node.source.as_str(), "workspace") {
            let member = path_join(ws, name);
            if exists[0] {
                return Ok(member);
            }
            if exists[1] {
                return Ok(owned(ws));
            }
            let mut m = cat3("Workspace member ", name, " not found at expected location: ");
            push_str(&mut m, member.as_str());
            return Err(m);
        }
        if str_eq(node.source.as_str(), "crates.io") {
            let c = path_join(self.output_base.as_str(), "crates-io-cache");
            return Ok(path_join(c.as_str(), name));
        }
        let probes = self.repository_probe_paths(node);
        match pick_existing(&probes, exists) {
            Some(p) => Ok(p),
            None => Err(cat3("Repository not found for ", name, " at any expected location")),
        }
    }

    /// The directory of a crate's flake (`layer_dir`).
    pub fn layer_output_dir(&self, name: &str, is_external: bool) -> (r: String)
        ensures
            r@ == layer_dir(self.output_base@, name@, is_external),
    {
        let l = path_join(self.output_base.as_str(), if is_external { "layer1" } else { "layer2" });
        path_join(l.as_str(), name)
    }

    /// The directory where patches are looked for.
    pub fn patches_dir(&self) -> (r: String)
        ensures
            r@ == join_path(self.output_base@, "patches"@),
    {
        path_join(self.output_base.as_str(), "patches")
    }
}

/// Executable `patch_pattern`.
pub fn patch_file_pattern(repo: &str) -> (r: String)
    ensures
        r@ == patch_pattern(repo@),
{
    let n = match file_name_of(repo) {
        Some(n) => n,
        None => owned("unknown"),
    };
    cat(n.as_str(), "-*.patch")
}

/// Executable `compiles`.
pub fn needs_compile(repo: &str) -> (r: bool)
    ensures
        r == compiles(repo@),
{
    !has_substr(repo, "crates-io-cache")
}

} // verus!
