//! Discovering analysis tools for cargo (from crates.io, GitHub and the
//! local installation), judging their compatibility with this system,
//! integrating them, and the catalog and integration reports.
//!
//! A compatibility score is kept in thousandths: 850 is 85%. A penalty
//! scales it by a tenth-based factor, rounding down.
use vstd::prelude::*;
use crate::path::join_path;
use crate::text::{
    cat, cat3, concat, concat_strings, contains, decimal, decimal_string, has_prefix, has_substr, list_contains, owned,
    parse_usize, parse_usize_spec, push_line, push_str, replace, replace_all, split_once, split_at_first, starts_with,
    str_eq, views,
};

verus! {

broadcast use vstd::string::group_string_axioms;

/// Where a tool comes from.
#[derive(PartialEq, Eq, Structural, Clone, Copy, Debug)]
pub enum ToolSource {
    CratesIo,
    GitHub,
    Local,
    Custom,
}

/// How far a tool is integrated.
#[derive(PartialEq, Eq, Structural, Clone, Copy, Debug)]
pub enum IntegrationStatus {
    NotIntegrated,
    Partial,
    Full,
    Native,
}

/// What is known of a tool's compatibility.
pub struct ToolCompatibility {
    pub rust_version: Option<String>,
    pub platform_support: Vec<String>,
    pub dependency_conflicts: Vec<String>,
    pub integration_status: IntegrationStatus,
    /// The score, in thousandths.
    pub compatibility_score: u32,
}

/// A cargo tool.
pub struct CargoTool {
    pub name: String,
    pub crate_name: String,
    pub description: String,
    pub version: String,
    pub source: ToolSource,
    pub categories: Vec<String>,
    pub keywords: Vec<String>,
    pub download_url: Option<String>,
    pub documentation_url: Option<String>,
    pub license: Option<String>,
    pub last_updated: Option<String>,
    pub compatibility: ToolCompatibility,
    pub integrated: bool,
}

/// A search for tools.
pub struct ToolSearchQuery {
    pub keywords: Vec<String>,
    pub categories: Vec<String>,
    pub min_downloads: Option<u32>,
    pub rust_version: Option<String>,
    pub platform: Option<String>,
    pub limit: usize,
}

/// The discovery system: where local tools and the tool cache are, and
/// the integrated tools, one per name, in the order first integrated.
pub struct CargoToolDiscovery {
    pub github_token: Option<String>,
    pub local_tools_dir: String,
    pub integrated_tools: Vec<CargoTool>,
    pub tool_cache: String,
}

// ───────────────────────────── views ───────────────────────────────────

pub type CompatView = (Option<Seq<char>>, Seq<Seq<char>>, Seq<Seq<char>>, IntegrationStatus, u32);

pub type ToolView = (
    Seq<char>,
    Seq<char>,
    Seq<char>,
    Seq<char>,
    ToolSource,
    Seq<Seq<char>>,
    Seq<Seq<char>>,
    Option<Seq<char>>,
    Option<Seq<char>>,
    Option<Seq<char>>,
    Option<Seq<char>>,
    CompatView,
    bool,
);

pub open spec fn opt_view(o: Option<String>) -> Option<Seq<char>> {
    match o {
        Some(s) => Some(s@),
        None => None,
    }
}

pub open spec fn compat_view(c: ToolCompatibility) -> CompatView {
    (
        opt_view(c.rust_version),
        views(c.platform_support@),
        views(c.dependency_conflicts@),
        c.integration_status,
        c.compatibility_score,
    )
}

pub open spec fn tool_view(t: CargoTool) -> ToolView {
    (
        t.name@,
        t.crate_name@,
        t.description@,
        t.version@,
        t.source,
        views(t.categories@),
        views(t.keywords@),
        opt_view(t.download_url),
        opt_view(t.documentation_url),
        opt_view(t.license),
        opt_view(t.last_updated),
        compat_view(t.compatibility),
        t.integrated,
    )
}

pub open spec fn tool_views(ts: Seq<CargoTool>) -> Seq<ToolView> {
    ts.map_values(|t: CargoTool| tool_view(t))
}

// ───────────────────────────── the known tools ─────────────────────────

/// The tools known on crates.io: name, description, version.
pub open spec fn crates_io_tools() -> Seq<(Seq<char>, Seq<char>, Seq<char>)> {
    seq![
        ("cargo-zkperf"@, "Zkperf analysis tool"@, "0.1.0"@),
        ("cargo-perf"@, "Performance analysis"@, "1.2.3"@),
        ("cargo-ebpf"@, "eBPF analysis"@, "0.4.5"@),
        ("cargo-strace"@, "System call tracing"@, "2.1.0"@),
        ("cargo-flamegraph"@, "Flamegraph generation"@, "0.5.2"@),
        ("cargo-profiler"@, "Profiling tool"@, "1.0.0"@),
        ("cargo-audit"@, "Security audit"@, "0.15.0"@),
        ("cargo-deny"@, "Dependency checking"@, "0.12.4"@),
    ]
}

/// The tools known on GitHub: repository, the repository's last path
/// segment, description, version, URL.
pub open spec fn github_tools() -> Seq<(Seq<char>, Seq<char>, Seq<char>, Seq<char>, Seq<char>)> {
    seq![
        ("mdupont/cargo-zkperf"@, "cargo-zkperf"@, "Advanced zkperf analysis"@, "0.2.0"@, "https://github.com/mdupont/cargo-zkperf"@),
        ("rust-lang/cargo-perf"@, "cargo-perf"@, "Official perf tool"@, "1.0.0"@, "https://github.com/rust-lang/cargo-perf"@),
        ("ebpf-rs/cargo-ebpf"@, "cargo-ebpf"@, "eBPF integration"@, "0.3.1"@, "https://github.com/ebpf-rs/cargo-ebpf"@),
        ("strace/cargo-strace"@, "cargo-strace"@, "strace wrapper"@, "1.2.0"@, "https://github.com/strace/cargo-strace"@),
        ("flamegraph-rs/flamegraph"@, "flamegraph"@, "Flamegraph tool"@, "0.4.5"@, "https://github.com/flamegraph-rs/flamegraph"@),
    ]
}

/// A tool matches the keywords when there are none, or when its name or
/// description contains one of them.
pub open spec fn keyword_match(keywords: Seq<Seq<char>>, name: Seq<char>, description: Seq<char>) -> bool {
    keywords.len() == 0 || exists|k: int|
        0 <= k < keywords.len() && (contains(name, #[trigger] keywords[k]) || contains(description, keywords[k]))
}

/// `name` without its `cargo-` occurrences.
pub open spec fn crate_of(name: Seq<char>) -> Seq<char> {
    replace(name, "cargo-"@, ""@)
}

/// A tool found on crates.io.
pub open spec fn crates_io_tool(name: Seq<char>, description: Seq<char>, version: Seq<char>) -> ToolView {
    (
        name,
        crate_of(name),
        description,
        version,
        ToolSource::CratesIo,
        seq!["analysis"@, "performance"@],
        seq!["analysis"@, "performance"@],
        Some("https://crates.io/crates/"@ + name),
        Some("https://docs.rs/"@ + name + "/"@ + version),
        Some("MIT/Apache-2.0"@),
        Some("2023-01-01"@),
        (Some("1.56.0"@), seq!["linux"@, "macos"@, "windows"@], Seq::empty(), IntegrationStatus::Partial, 850),
        false,
    )
}

/// A tool found on GitHub.
pub open spec fn github_tool(name: Seq<char>, description: Seq<char>, version: Seq<char>, url: Seq<char>) -> ToolView {
    (
        name,
        crate_of(name),
        description,
        version,
        ToolSource::GitHub,
        seq!["analysis"@, "github"@],
        seq!["analysis"@, "github"@],
        Some(url),
        Some(url + "/README.md"@),
        Some("MIT"@),
        Some("2023-06-01"@),
        (Some("1.60.0"@), seq!["linux"@], Seq::empty(), IntegrationStatus::Partial, 800),
        false,
    )
}

/// The crates.io tools among the first `n` that match the keywords.
pub open spec fn crates_io_hits(keywords: Seq<Seq<char>>, n: int) -> Seq<ToolView>
    decreases n,
{
    if n <= 0 {
        Seq::empty()
    } else {
        let e = crates_io_tools()[n - 1];
        crates_io_hits(keywords, n - 1) + if keyword_match(keywords, e.0, e.1) {
            seq![crates_io_tool(e.0, e.1, e.2)]
        } else {
            Seq::empty()
        }
    }
}

/// The GitHub tools among the first `n` whose repository or description
/// matches the keywords.
pub open spec fn github_hits(keywords: Seq<Seq<char>>, n: int) -> Seq<ToolView>
    decreases n,
{
    if n <= 0 {
        Seq::empty()
    } else {
        let e = github_tools()[n - 1];
        github_hits(keywords, n - 1) + if keyword_match(keywords, e.0, e.2) {
            seq![github_tool(e.1, e.2, e.3, e.4)]
        } else {
            Seq::empty()
        }
    }
}

/// The first `limit` items of `s` (all of them if there are fewer).
pub open spec fn first_n<A>(s: Seq<A>, limit: nat) -> Seq<A> {
    if s.len() <= limit {
        s
    } else {
        s.take(limit as int)
    }
}

/// A tool that `cargo --list` names and that runs.
pub open spec fn listed_tool(name: Seq<char>, os: Seq<char>) -> ToolView {
    (
        "cargo-"@ + name,
        name,
        "Locally installed "@ + name + " tool"@,
        "unknown"@,
        ToolSource::Local,
        seq!["local"@],
        seq!["local"@, "installed"@],
        None,
        None,
        None,
        None,
        (None, seq![os], Seq::empty(), IntegrationStatus::NotIntegrated, 900),
        false,
    )
}

/// A tool in the local tools directory.
pub open spec fn dir_tool(name: Seq<char>, os: Seq<char>) -> ToolView {
    (
        name,
        crate_of(name),
        "Local tool: "@ + name,
        "dev"@,
        ToolSource::Local,
        seq!["local"@, "development"@],
        seq!["local"@],
        None,
        None,
        None,
        None,
        (None, seq![os], Seq::empty(), IntegrationStatus::NotIntegrated, 750),
        false,
    )
}

/// The tools of the local tools directory: one per directory whose name
/// starts with `cargo-`.
pub open spec fn dir_tools(dirs: Seq<Seq<char>>, os: Seq<char>) -> Seq<ToolView>
    decreases dirs.len(),
{
    if dirs.len() == 0 {
        Seq::empty()
    } else {
        dir_tools(dirs.drop_last(), os) + if starts_with(dirs.last(), "cargo-"@) {
            seq![dir_tool(dirs.last(), os)]
        } else {
            Seq::empty()
        }
    }
}

/// The tools with one of each name, the first kept.
pub open spec fn first_of_each_name(ts: Seq<ToolView>) -> Seq<ToolView>
    decreases ts.len(),
{
    if ts.len() == 0 {
        Seq::empty()
    } else {
        let r = first_of_each_name(ts.drop_last());
        if exists|i: int| 0 <= i < r.len() && (#[trigger] r[i]).0 == ts.last().0 {
            r
        } else {
            r.push(ts.last())
        }
    }
}

/// What the pattern `cargo-(\w+)` captures in its group, match by match,
/// as the regex crate finds them in `text`.
pub uninterp spec fn cargo_tool_pattern_matches(text: Seq<char>) -> Seq<Seq<char>>;

/// The names that the regular expression `cargo-(\w+)` captures, match by
/// match, in the output of `cargo --list` (`Regex::captures_iter`, group
/// 1). The contract claims only that they are the named
/// `cargo_tool_pattern_matches` of the text.
#[verifier::external_body]
fn cargo_tool_names(text: &str) -> (r: Vec<String>)
    ensures
        views(r@) == cargo_tool_pattern_matches(text@),
{
    let re = regex::Regex::new(r"cargo-(\w+)").unwrap();
    re.captures_iter(text).map(|c| c[1].to_string()).collect()
}

// ───────────────────────────── compatibility ───────────────────────────

/// The major version: the number before the first `.`, 0 when it is not
/// a `u32`.
pub open spec fn major_version(v: Seq<char>) -> nat {
    let head = match split_once(v, "."@) {
        Some((h, _)) => h,
        None => v,
    };
    match parse_usize_spec(head) {
        Some(n) => if n <= u32::MAX {
            n
        } else {
            0
        },
        None => 0,
    }
}

/// The current version is compatible when its major version is no lower.
pub open spec fn version_compatible(current: Seq<char>, required: Seq<char>) -> bool {
    major_version(current) >= major_version(required)
}

/// The status that a score earns.
pub open spec fn status_for(score: u32) -> IntegrationStatus {
    if score >= 900 {
        IntegrationStatus::Full
    } else if score >= 500 {
        IntegrationStatus::Partial
    } else {
        IntegrationStatus::NotIntegrated
    }
}

/// The number of integrated tools named `name`.
pub open spec fn named_count(integrated: Seq<ToolView>, name: Seq<char>) -> nat
    decreases integrated.len(),
{
    if integrated.len() == 0 {
        0
    } else {
        named_count(integrated.drop_last(), name) + if integrated.last().0 == name {
            1nat
        } else {
            0nat
        }
    }
}

/// A score after `k` penalties for being already integrated.
pub open spec fn integrated_penalty(score: u32, k: nat) -> u32
    decreases k,
{
    if k == 0 {
        score
    } else {
        (integrated_penalty(score, (k - 1) as nat) * 8 / 10) as u32
    }
}

/// The tool's compatibility with a system running Rust `current_version`
/// on `platform`, given the integrated tools: a Rust version that is too
/// new scales the score by 0.7, an unsupported platform by 0.5, and each
/// integrated tool of the same name by 0.8, each noted as a conflict; the
/// status follows the score.
pub open spec fn compatibility_of(
    t: ToolView,
    current_version: Seq<char>,
    platform: Seq<char>,
    integrated: Seq<ToolView>,
) -> CompatView {
    let c = t.11;
    let (s1, k1) = match c.0 {
        Some(req) => if !version_compatible(current_version, req) {
            (
                (c.4 * 7 / 10) as u32,
                c.2.push("rust_version: "@ + req + " required, "@ + current_version + " found"@),
            )
        } else {
            (c.4, c.2)
        },
        None => (c.4, c.2),
    };
    let (s2, k2) = if !c.1.contains(platform) {
        ((s1 * 5 / 10) as u32, k1.push("platform: "@ + platform + " not supported"@))
    } else {
        (s1, k1)
    };
    let n = named_count(integrated, t.0);
    let s3 = integrated_penalty(s2, n);
    let k3 = k2 + Seq::new(n, |i: int| "already_integrated: "@ + t.0);
    (c.0, c.1, k3, status_for(s3), s3)
}

// ───────────────────────────── building tools ──────────────────────────

fn copy_strings(v: &Vec<String>) -> (r: Vec<String>)
    ensures
        views(r@) == views(v@),
{
    let mut r: Vec<String> = Vec::new();
    let mut i: usize = 0;
    while i < v.len()
        invariant
            i <= v.len(),
            views(r@) == views(v@).take(i as int),
        decreases v.len() - i,
    {
        push_line(&mut r, v[i].clone());
        assert(views(v@).take(i + 1) =~= views(v@).take(i as int).push(v@[i as int]@));
        i += 1;
    }
    assert(views(v@).take(i as int) =~= views(v@));
    r
}

fn copy_opt(o: &Option<String>) -> (r: Option<String>)
    ensures
        opt_view(r) == opt_view(*o),
{
    match o {
        Some(s) => Some(s.clone()),
        None => None,
    }
}

fn copy_compat(c: &ToolCompatibility) -> (r: ToolCompatibility)
    ensures
        compat_view(r) == compat_view(*c),
{
    ToolCompatibility {
        rust_version: copy_opt(&c.rust_version),
        platform_support: copy_strings(&c.platform_support),
        dependency_conflicts: copy_strings(&c.dependency_conflicts),
        integration_status: c.integration_status,
        compatibility_score: c.compatibility_score,
    }
}

/// A copy of a tool.
pub fn copy_tool(t: &CargoTool) -> (r: CargoTool)
    ensures
        tool_view(r) == tool_view(*t),
{
    CargoTool {
        name: t.name.clone(),
        crate_name: t.crate_name.clone(),
        description: t.description.clone(),
        version: t.version.clone(),
        source: t.source,
        categories: copy_strings(&t.categories),
        keywords: copy_strings(&t.keywords),
        download_url: copy_opt(&t.download_url),
        documentation_url: copy_opt(&t.documentation_url),
        license: copy_opt(&t.license),
        last_updated: copy_opt(&t.last_updated),
        compatibility: copy_compat(&t.compatibility),
        integrated: t.integrated,
    }
}

fn strings2(a: &str, b: &str) -> (r: Vec<String>)
    ensures
        views(r@) == seq![a@, b@],
{
    let mut r: Vec<String> = Vec::new();
    push_line(&mut r, owned(a));
    push_line(&mut r, owned(b));
    assert(views(r@) =~= seq![a@, b@]);
    r
}

fn strings1(a: &str) -> (r: Vec<String>)
    ensures
        views(r@) == seq![a@],
{
    let mut r: Vec<String> = Vec::new();
    push_line(&mut r, owned(a));
    assert(views(r@) =~= seq![a@]);
    r
}

fn no_strings() -> (r: Vec<String>)
    ensures
        views(r@) == Seq::<Seq<char>>::empty(),
{
    let r: Vec<String> = Vec::new();
    assert(views(r@) =~= Seq::<Seq<char>>::empty());
    r
}

fn crate_name_of(name: &str) -> (r: String)
    ensures
        r@ == crate_of(name@),
{
    proof {
        reveal_strlit("cargo-");
    }
    replace_all(name, "cargo-", "")
}

fn make_crates_io_tool(name: &str, description: &str, version: &str) -> (t: CargoTool)
    ensures
        tool_view(t) == crates_io_tool(name@, description@, version@),
{
    let mut docs = cat("https://docs.rs/", name);
    push_str(&mut docs, "/");
    push_str(&mut docs, version);
    let mut platforms = strings2("linux", "macos");
    push_line(&mut platforms, owned("windows"));
    assert(views(platforms@) =~= seq!["linux"@, "macos"@, "windows"@]);
    CargoTool {
        name: owned(name),
        crate_name: crate_name_of(name),
        description: owned(description),
        version: owned(version),
        source: ToolSource::CratesIo,
        categories: strings2("analysis", "performance"),
        keywords: strings2("analysis", "performance"),
        download_url: Some(cat("https://crates.io/crates/", name)),
        documentation_url: Some(docs),
        license: Some(owned("MIT/Apache-2.0")),
        last_updated: Some(owned("2023-01-01")),
        compatibility: ToolCompatibility {
            rust_version: Some(owned("1.56.0")),
            platform_support: platforms,
            dependency_conflicts: no_strings(),
            integration_status: IntegrationStatus::Partial,
            compatibility_score: 850,
        },
        integrated: false,
    }
}

fn make_github_tool(name: &str, description: &str, version: &str, url: &str) -> (t: CargoTool)
    ensures
        tool_view(t) == github_tool(name@, description@, version@, url@),
{
    CargoTool {
        name: owned(name),
        crate_name: crate_name_of(name),
        description: owned(description),
        version: owned(version),
        source: ToolSource::GitHub,
        categories: strings2("analysis", "github"),
        keywords: strings2("analysis", "github"),
        download_url: Some(owned(url)),
        documentation_url: Some(cat(url, "/README.md")),
        license: Some(owned("MIT")),
        last_updated: Some(owned("2023-06-01")),
        compatibility: ToolCompatibility {
            rust_version: Some(owned("1.60.0")),
            platform_support: strings1("linux"),
            dependency_conflicts: no_strings(),
            integration_status: IntegrationStatus::Partial,
            compatibility_score: 800,
        },
        integrated: false,
    }
}

/// The tool that `cargo --list` names `name` (`listed_tool`), on the
/// operating system `os`.
pub fn make_listed_tool(name: &str, os: &str) -> (t: CargoTool)
    ensures
        tool_view(t) == listed_tool(name@, os@),
{
    CargoTool {
        name: cat("cargo-", name),
        crate_name: owned(name),
        description: cat3("Locally installed ", name, " tool"),
        version: owned("unknown"),
        source: ToolSource::Local,
        categories: strings1("local"),
        keywords: strings2("local", "installed"),
        download_url: None,
        documentation_url: None,
        license: None,
        last_updated: None,
        compatibility: ToolCompatibility {
            rust_version: None,
            platform_support: strings1(os),
            dependency_conflicts: no_strings(),
            integration_status: IntegrationStatus::NotIntegrated,
            compatibility_score: 900,
        },
        integrated: false,
    }
}

fn make_dir_tool(name: &str, os: &str) -> (t: CargoTool)
    ensures
        tool_view(t) == dir_tool(name@, os@),
{
    CargoTool {
        name: owned(name),
        crate_name: crate_name_of(name),
        description: cat("Local tool: ", name),
        version: owned("dev"),
        source: ToolSource::Local,
        categories: strings2("local", "development"),
        keywords: strings1("local"),
        download_url: None,
        documentation_url: None,
        license: None,
        last_updated: None,
        compatibility: ToolCompatibility {
            rust_version: None,
            platform_support: strings1(os),
            dependency_conflicts: no_strings(),
            integration_status: IntegrationStatus::NotIntegrated,
            compatibility_score: 750,
        },
        integrated: false,
    }
}

fn keyword_matches(keywords: &Vec<String>, name: &str, description: &str) -> (r: bool)
    ensures
        r == keyword_match(views(keywords@), name@, description@),
{
    if keywords.len() == 0 {
        return true;
    }
    let mut k: usize = 0;
    while k < keywords.len()
        invariant
            k <= keywords.len(),
            forall|j: int|
                0 <= j < k ==> !(contains(name@, #[trigger] views(keywords@)[j]) || contains(
                    description@,
                    views(keywords@)[j],
                )),
        decreases keywords.len() - k,
    {
        assert(views(keywords@)[k as int] == keywords@[k as int]@);
        if has_substr(name, keywords[k].as_str()) || has_substr(description, keywords[k].as_str()) {
            return true;
        }
        k += 1;
    }
    false
}

fn crates_io_entry(i: usize) -> (r: (&'static str, &'static str, &'static str))
    requires
        i < 8,
    ensures
        (r.0@, r.1@, r.2@) == crates_io_tools()[i as int],
{
    if i == 0 {
        ("cargo-zkperf", "Zkperf analysis tool", "0.1.0")
    } else if i == 1 {
        ("cargo-perf", "Performance analysis", "1.2.3")
    } else if i == 2 {
        ("cargo-ebpf", "eBPF analysis", "0.4.5")
    } else if i == 3 {
        ("cargo-strace", "System call tracing", "2.1.0")
    } else if i == 4 {
        ("cargo-flamegraph", "Flamegraph generation", "0.5.2")
    } else if i == 5 {
        ("cargo-profiler", "Profiling tool", "1.0.0")
    } else if i == 6 {
        ("cargo-audit", "Security audit", "0.15.0")
    } else {
        ("cargo-deny", "Dependency checking", "0.12.4")
    }
}

fn github_entry(i: usize) -> (r: (&'static str, &'static str, &'static str, &'static str, &'static str))
    requires
        i < 5,
    ensures
        (r.0@, r.1@, r.2@, r.3@, r.4@) == github_tools()[i as int],
{
    if i == 0 {
        ("mdupont/cargo-zkperf", "cargo-zkperf", "Advanced zkperf analysis", "0.2.0", "https://github.com/mdupont/cargo-zkperf")
    } else if i == 1 {
        ("rust-lang/cargo-perf", "cargo-perf", "Official perf tool", "1.0.0", "https://github.com/rust-lang/cargo-perf")
    } else if i == 2 {
        ("ebpf-rs/cargo-ebpf", "cargo-ebpf", "eBPF integration", "0.3.1", "https://github.com/ebpf-rs/cargo-ebpf")
    } else if i == 3 {
        ("strace/cargo-strace", "cargo-strace", "strace wrapper", "1.2.0", "https://github.com/strace/cargo-strace")
    } else {
        ("flamegraph-rs/flamegraph", "flamegraph", "Flamegraph tool", "0.4.5", "https://github.com/flamegraph-rs/flamegraph")
    }
}

fn push_tool(ts: &mut Vec<CargoTool>, t: CargoTool)
    ensures
        tool_views(final(ts)@) == tool_views(old(ts)@).push(tool_view(t)),
{
    let ghost v = tool_view(t);
    ts.push(t);
    assert(tool_views(ts@) =~= tool_views(old(ts)@).push(v));
}

fn keep_first(ts: &mut Vec<CargoTool>, limit: usize)
    ensures
        tool_views(final(ts)@) == first_n(tool_views(old(ts)@), limit as nat),
{
    let n = ts.len();
    ts.truncate(limit);
    if limit < n {
        assert(tool_views(ts@) =~= tool_views(old(ts)@).take(limit as int));
    } else {
        assert(tool_views(ts@) =~= tool_views(old(ts)@));
    }
}

fn major_of(v: &str) -> (r: u32)
    ensures
        r == major_version(v@),
{
    let head = match split_at_first(v, ".") {
        Some((h, _)) => h,
        None => owned(v),
    };
    match parse_usize(head.as_str()) {
        Some(n) => if n <= 4294967295 {
            n as u32
        } else {
            0
        },
        None => 0,
    }
}

fn scaled(score: u32, tenths: u64) -> (r: u32)
    requires
        tenths <= 10,
    ensures
        r == score * tenths / 10,
{
    assert(score as u64 * tenths <= 42949672950u64) by (nonlinear_arith)
        requires
            score <= u32::MAX,
            tenths <= 10,
    ;
    let x: u64 = score as u64 * tenths;
    assert(x / 10 <= score) by (nonlinear_arith)
        requires
            x == score * tenths,
            tenths <= 10,
    ;
    (x / 10) as u32
}

/// How a source is written.
pub open spec fn source_name(s: ToolSource) -> Seq<char> {
    match s {
        ToolSource::CratesIo => "crates.io"@,
        ToolSource::GitHub => "GitHub"@,
        ToolSource::Local => "Local"@,
        ToolSource::Custom => "Custom"@,
    }
}

/// How a status is written.
pub open spec fn status_name(s: IntegrationStatus) -> Seq<char> {
    match s {
        IntegrationStatus::NotIntegrated => "Not Integrated"@,
        IntegrationStatus::Partial => "Partial"@,
        IntegrationStatus::Full => "Full"@,
        IntegrationStatus::Native => "Native"@,
    }
}

fn source_str(s: ToolSource) -> (r: &'static str)
    ensures
        r@ == source_name(s),
{
    match s {
        ToolSource::CratesIo => "crates.io",
        ToolSource::GitHub => "GitHub",
        ToolSource::Local => "Local",
        ToolSource::Custom => "Custom",
    }
}

fn status_str(s: IntegrationStatus) -> (r: &'static str)
    ensures
        r@ == status_name(s),
{
    match s {
        IntegrationStatus::NotIntegrated => "Not Integrated",
        IntegrationStatus::Partial => "Partial",
        IntegrationStatus::Full => "Full",
        IntegrationStatus::Native => "Native",
    }
}

/// A score in thousandths written as a percentage with one decimal:
/// 850 is `85.0`.
pub open spec fn percent(score: u32) -> Seq<char> {
    decimal((score / 10) as nat) + "."@ + decimal((score % 10) as nat)
}

fn percent_string(score: u32) -> (r: String)
    ensures
        r@ == percent(score),
{
    let a = decimal_string((score / 10) as usize);
    let b = decimal_string((score % 10) as usize);
    cat3(a.as_str(), ".", b.as_str())
}

/// The state of the discovery system: its token, its directories and
/// the integrated tools.
pub open spec fn discovery_view(d: CargoToolDiscovery) -> (Option<Seq<char>>, Seq<char>, Seq<ToolView>, Seq<char>) {
    (opt_view(d.github_token), d.local_tools_dir@, tool_views(d.integrated_tools@), d.tool_cache@)
}

/// The position of the first tool named `name`.
pub open spec fn position_named(ts: Seq<ToolView>, name: Seq<char>) -> Option<int>
    decreases ts.len(),
{
    if ts.len() == 0 {
        None
    } else {
        match position_named(ts.drop_last(), name) {
            Some(i) => Some(i),
            None => if ts.last().0 == name {
                Some(ts.len() - 1)
            } else {
                None
            },
        }
    }
}

/// The integrated tools after integrating `t`: it takes the place of the
/// tool of the same name, or comes last.
pub open spec fn integrated_with(ts: Seq<ToolView>, t: ToolView) -> Seq<ToolView> {
    match position_named(ts, t.0) {
        Some(i) => ts.update(i, t),
        None => ts.push(t),
    }
}

/// What integrating `t` makes of it: its compatibility analysed, and
/// marked integrated.
pub open spec fn integrated_tool(
    t: ToolView,
    current_version: Seq<char>,
    platform: Seq<char>,
    integrated: Seq<ToolView>,
) -> ToolView {
    (
        t.0,
        t.1,
        t.2,
        t.3,
        t.4,
        t.5,
        t.6,
        t.7,
        t.8,
        t.9,
        t.10,
        compatibility_of(t, current_version, platform, integrated),
        true,
    )
}

/// The catalog's search: tools about analysis or performance, at most 20
/// from each remote source.
pub open spec fn catalog_keywords() -> Seq<Seq<char>> {
    seq!["analysis"@, "performance"@]
}

/// The tools of every source, one per name, the first kept: crates.io,
/// then GitHub, then the local ones.
pub open spec fn all_sources(keywords: Seq<Seq<char>>, limit: nat, local: Seq<ToolView>) -> Seq<ToolView> {
    first_of_each_name(
        first_n(crates_io_hits(keywords, 8), limit) + first_n(github_hits(keywords, 5), limit) + local,
    )
}

/// The tools of `ts` whose names no integrated tool has.
pub open spec fn not_integrated(ts: Seq<ToolView>, integrated: Seq<ToolView>) -> Seq<ToolView>
    decreases ts.len(),
{
    if ts.len() == 0 {
        Seq::empty()
    } else {
        not_integrated(ts.drop_last(), integrated) + if exists|i: int|
            0 <= i < integrated.len() && (#[trigger] integrated[i]).0 == ts.last().0 {
            Seq::empty()
        } else {
            seq![ts.last()]
        }
    }
}

/// The catalog row of an integrated tool.
pub open spec fn integrated_row(t: ToolView) -> Seq<char> {
    "| "@ + t.0 + " | "@ + t.3 + " | "@ + source_name(t.4) + " | "@ + percent(t.11.4) + "% | "@ + status_name(t.11.3)
        + " |\n"@
}

/// The catalog row of an available tool.
pub open spec fn available_row(t: ToolView) -> Seq<char> {
    "| "@ + t.0 + " | "@ + t.3 + " | "@ + source_name(t.4) + " | "@ + t.2 + " |\n"@
}

/// The tool catalog: the integrated tools, up to ten of the available
/// ones (from every source, given the local tools `local`), and a
/// summary.
pub open spec fn tool_catalog(integrated: Seq<ToolView>, generated: Seq<char>, local: Seq<ToolView>) -> Seq<char> {
    let available = not_integrated(all_sources(catalog_keywords(), 20, local), integrated);
    concat(
        seq![
            "# Cargo Tool Catalog\n\n"@,
            "Generated: "@ + generated + "\n\n"@,
            "## Integrated Tools\n\n"@,
            "| Name | Version | Source | Compatibility | Status |\n"@,
            "|------|---------|--------|---------------|--------|\n"@,
        ] + integrated.map_values(|t: ToolView| integrated_row(t)) + seq![
            "\n## Available Tools (Not Integrated)\n\n"@,
            "These tools were discovered but not yet integrated:\n\n"@,
        ] + if available.len() > 0 {
            seq!["| Name | Version | Source | Description |\n"@, "|------|---------|--------|-------------|\n"@]
                + first_n(available, 10).map_values(|t: ToolView| available_row(t))
        } else {
            seq!["No additional tools found.\n"@]
        } + seq![
            "\n## Tool Sources Summary\n\n"@,
            "- **Integrated Tools**: "@ + decimal(integrated.len()) + "\n"@,
            "- **Available Tools**: "@ + decimal(available.len()) + "\n"@,
            "- **Search Sources**: crates.io, GitHub, local installation\n"@,
        ],
    )
}

/// The steps of cloning a GitHub tool, where it has a URL.
pub open spec fn clone_steps(t: ToolView) -> Seq<Seq<char>> {
    match t.7 {
        Some(url) => seq![
            "1. Clone repository: `git clone "@ + url + "`\n"@,
            "2. Build and install: `cd "@ + t.0 + " && cargo install --path .`\n"@,
        ],
        None => Seq::empty(),
    }
}

/// The steps of integrating a tool from its source.
pub open spec fn integration_steps(t: ToolView) -> Seq<Seq<char>> {
    match t.4 {
        ToolSource::CratesIo => seq![
            "1. Run: `cargo install "@ + t.0 + "`\n"@,
            "2. Verify installation: `cargo <tool> --version`\n"@,
            "3. Configure integration in cargo-vendormod\n"@,
        ],
        ToolSource::GitHub => clone_steps(t) + seq!["3. Verify installation\n"@, "4. Configure integration\n"@],
        ToolSource::Local => seq![
            "1. Tool is already available locally\n"@,
            "2. Verify executable path\n"@,
            "3. Configure integration\n"@,
        ],
        ToolSource::Custom => seq![
            "1. Follow custom installation instructions\n"@,
            "2. Verify tool functionality\n"@,
            "3. Configure integration\n"@,
        ],
    }
}

/// The integration report of a tool.
pub open spec fn integration_report(t: ToolView) -> Seq<char> {
    let c = t.11;
    concat(
        seq![
            "# Tool Integration Report\n\n"@,
            "Tool: "@ + t.0 + "\n"@,
            "Version: "@ + t.3 + "\n"@,
            "Source: "@ + source_name(t.4) + "\n\n"@,
            "## Description\n\n"@ + t.2 + "\n\n"@,
            "## Compatibility Analysis\n\n"@,
            "- **Compatibility Score**: "@ + percent(c.4) + "%\n"@,
            "- **Integration Status**: "@ + status_name(c.3) + "\n"@,
            "- **Rust Version**: "@ + match c.0 {
                Some(v) => v,
                None => "unknown"@,
            } + "\n"@,
            "- **Platform Support**: "@ + crate::text::join(c.1, ", "@) + "\n"@,
        ] + if c.2.len() > 0 {
            seq!["\n### Dependency Conflicts\n\n"@] + c.2.map_values(|k: Seq<char>| "- "@ + k + "\n"@)
        } else {
            seq!["\n### Dependency Conflicts\n\nNone detected\n"@]
        } + seq!["\n## Integration Steps\n\n"@] + integration_steps(t) + seq![
            "\n## Expected Benefits\n\n"@,
            "- Enhanced performance analysis\n"@,
            "- Additional metrics and insights\n"@,
            "- Improved correlation with other tools\n"@,
            "- Better workload optimization\n"@,
        ],
    )
}

/// The file that marks a tool installed from its source, under the tool
/// cache, and what it holds; none for a local tool.
pub open spec fn install_marker_of(cache: Seq<char>, t: ToolView) -> Option<(Seq<char>, Seq<char>)> {
    match t.4 {
        ToolSource::CratesIo => Some((join_path(cache, t.0 + ".installed"@), "installed"@)),
        ToolSource::GitHub => Some((join_path(cache, t.0 + ".github-installed"@), "github_installed"@)),
        ToolSource::Custom => Some((join_path(cache, t.0 + ".custom-installed"@), "custom_installed"@)),
        ToolSource::Local => None,
    }
}

/// Where a local tool's executable is expected.
pub open spec fn local_tool_path_of(name: Seq<char>) -> Seq<char> {
    if starts_with(name, "cargo-"@) {
        "./target/release/"@ + name
    } else {
        "./target/release/cargo-"@ + name
    }
}

proof fn lemma_position_named_prefix(ts: Seq<ToolView>, m: int, name: Seq<char>)
    requires
        0 <= m <= ts.len(),
        position_named(ts.take(m), name) is Some,
    ensures
        position_named(ts, name) == position_named(ts.take(m), name),
    decreases ts.len(),
{
    if m < ts.len() {
        assert(ts.drop_last().take(m) =~= ts.take(m));
        lemma_position_named_prefix(ts.drop_last(), m, name);
    } else {
        assert(ts.take(m) =~= ts);
    }
}

proof fn lemma_position_named_bound(ts: Seq<ToolView>, name: Seq<char>)
    ensures
        position_named(ts, name) matches Some(k) ==> 0 <= k < ts.len() && ts[k].0 == name,
        position_named(ts, name) is None ==> forall|i: int| 0 <= i < ts.len() ==> (#[trigger] ts[i]).0 != name,
    decreases ts.len(),
{
    if ts.len() > 0 {
        lemma_position_named_bound(ts.drop_last(), name);
        assert forall|i: int| 0 <= i < ts.len() - 1 implies #[trigger] ts[i] == ts.drop_last()[i] by {}
    }
}

fn position_of_tool(ts: &Vec<CargoTool>, name: &str) -> (r: Option<usize>)
    ensures
        r matches Some(i) ==> position_named(tool_views(ts@), name@) == Some(i as int),
        r is None ==> position_named(tool_views(ts@), name@) is None,
{
    let ghost tv = tool_views(ts@);
    let mut i: usize = 0;
    while i < ts.len()
        invariant
            i <= ts.len(),
            tv == tool_views(ts@),
            position_named(tv.take(i as int), name@) is None,
        decreases ts.len() - i,
    {
        assert(tv.take(i + 1).drop_last() =~= tv.take(i as int));
        assert(tv.take(i + 1).last() == tool_view(ts@[i as int]));
        if str_eq(ts[i].name.as_str(), name) {
            proof {
                lemma_position_named_prefix(tv, i + 1, name@);
            }
            return Some(i);
        }
        i += 1;
    }
    assert(tv.take(i as int) =~= tv);
    None
}

fn has_tool_named(ts: &Vec<CargoTool>, name: &str) -> (r: bool)
    ensures
        r == exists|i: int| 0 <= i < ts.len() && (#[trigger] tool_views(ts@)[i]).0 == name@,
{
    let p = position_of_tool(ts, name);
    proof {
        lemma_position_named_bound(tool_views(ts@), name@);
    }
    p.is_some()
}

/// The names that `cargo --list` reports (`cargo_tool_pattern_matches`).
pub fn listed_tool_names(output: &str) -> (r: Vec<String>)
    ensures
        views(r@) == cargo_tool_pattern_matches(output@),
{
    cargo_tool_names(output)
}

/// Where a local tool's executable is expected (`local_tool_path_of`).
pub fn local_tool_path(name: &str) -> (r: String)
    ensures
        r@ == local_tool_path_of(name@),
{
    if has_prefix(name, "cargo-") {
        cat("./target/release/", name)
    } else {
        cat("./target/release/cargo-", name)
    }
}

impl CargoToolDiscovery {
    /// A discovery system with no integrated tool.
    pub fn new(local_tools_dir: String, tool_cache: String, github_token: Option<String>) -> (r: Self)
        ensures
            discovery_view(r) == (opt_view(github_token), local_tools_dir@, Seq::<ToolView>::empty(), tool_cache@),
    {
        let r = CargoToolDiscovery { github_token, local_tools_dir, integrated_tools: Vec::new(), tool_cache };
        assert(tool_views(r.integrated_tools@) =~= Seq::<ToolView>::empty());
        r
    }

    /// The crates.io tools that match the query's keywords, at most
    /// `limit` of them.
    pub fn search_crates_io(&self, query: &ToolSearchQuery) -> (r: Result<Vec<CargoTool>, String>)
        ensures
            r matches Ok(v) && tool_views(v@) == first_n(crates_io_hits(views(query.keywords@), 8), query.limit as nat),
    {
        let mut tools: Vec<CargoTool> = Vec::new();
        let mut i: usize = 0;
        while i < 8
            invariant
                i <= 8,
                tool_views(tools@) == crates_io_hits(views(query.keywords@), i as int),
            decreases 8 - i,
        {
            let (name, description, version) = crates_io_entry(i);
            if keyword_matches(&query.keywords, name, description) {
                push_tool(&mut tools, make_crates_io_tool(name, description, version));
            }
            i += 1;
        }
        keep_first(&mut tools, query.limit);
        Ok(tools)
    }

    /// The GitHub tools whose repository or description matches the
    /// query's keywords, at most `limit` of them.
    pub fn search_github(&self, query: &ToolSearchQuery) -> (r: Result<Vec<CargoTool>, String>)
        ensures
            r matches Ok(v) && tool_views(v@) == first_n(github_hits(views(query.keywords@), 5), query.limit as nat),
    {
        let mut tools: Vec<CargoTool> = Vec::new();
        let mut i: usize = 0;
        while i < 5
            invariant
                i <= 5,
                tool_views(tools@) == github_hits(views(query.keywords@), i as int),
            decreases 5 - i,
        {
            let (repo, name, description, version, url) = github_entry(i);
            if keyword_matches(&query.keywords, repo, description) {
                push_tool(&mut tools, make_github_tool(name, description, version, url));
            }
            i += 1;
        }
        keep_first(&mut tools, query.limit);
        Ok(tools)
    }

    /// The local tools on the operating system `os`: those that
    /// `cargo --list` names and that run (`listed`), then one for each
    /// directory of the local tools directory (`dirs`) whose name starts
    /// with `cargo-`.
    pub fn discover_local_tools(&self, listed: &Vec<String>, dirs: &Vec<String>, os: &str) -> (r: Vec<CargoTool>)
        ensures
            tool_views(r@) == views(listed@).map_values(|n: Seq<char>| listed_tool(n, os@)) + dir_tools(views(dirs@), os@),
    {
        let mut tools: Vec<CargoTool> = Vec::new();
        let ghost lv = views(listed@).map_values(|n: Seq<char>| listed_tool(n, os@));
        let mut i: usize = 0;
        while i < listed.len()
            invariant
                i <= listed.len(),
                lv == views(listed@).map_values(|n: Seq<char>| listed_tool(n, os@)),
                tool_views(tools@) == lv.take(i as int),
            decreases listed.len() - i,
        {
            push_tool(&mut tools, make_listed_tool(listed[i].as_str(), os));
            assert(lv.take(i + 1) =~= lv.take(i as int).push(lv[i as int]));
            i += 1;
        }
        assert(lv.take(i as int) =~= lv);
        let ghost dv = views(dirs@);
        let mut j: usize = 0;
        assert(dv.take(0) =~= Seq::<Seq<char>>::empty());
        assert(lv + dir_tools(dv.take(0), os@) =~= lv);
        while j < dirs.len()
            invariant
                j <= dirs.len(),
                dv == views(dirs@),
                tool_views(tools@) == lv + dir_tools(dv.take(j as int), os@),
            decreases dirs.len() - j,
        {
            assert(dv.take(j + 1).drop_last() =~= dv.take(j as int));
            assert(dv.take(j + 1).last() == dirs@[j as int]@);
            proof {
                reveal_strlit("cargo-");
            }
            if has_prefix(dirs[j].as_str(), "cargo-") {
                push_tool(&mut tools, make_dir_tool(dirs[j].as_str(), os));
            }
            assert(tool_views(tools@) =~= lv + dir_tools(dv.take(j + 1), os@));
            j += 1;
        }
        assert(dv.take(j as int) =~= dv);
        tools
    }

    fn first_of_each(ts: &Vec<CargoTool>) -> (r: Vec<CargoTool>)
        ensures
            tool_views(r@) == first_of_each_name(tool_views(ts@)),
    {
        let ghost tv = tool_views(ts@);
        let mut r: Vec<CargoTool> = Vec::new();
        let mut i: usize = 0;
        while i < ts.len()
            invariant
                i <= ts.len(),
                tv == tool_views(ts@),
                tool_views(r@) == first_of_each_name(tv.take(i as int)),
            decreases ts.len() - i,
        {
            assert(tv.take(i + 1).drop_last() =~= tv.take(i as int));
            assert(tv.take(i + 1).last() == tool_view(ts@[i as int]));
            if !has_tool_named(&r, ts[i].name.as_str()) {
                push_tool(&mut r, copy_tool(&ts[i]));
            }
            i += 1;
        }
        assert(tv.take(i as int) =~= tv);
        r
    }

    /// The tools of every source (`all_sources`), given the local ones.
    pub fn search_all_sources(&self, query: &ToolSearchQuery, local: &Vec<CargoTool>) -> (r: Result<Vec<CargoTool>, String>)
        ensures
            r matches Ok(v) && tool_views(v@) == all_sources(views(query.keywords@), query.limit as nat, tool_views(local@)),
    {
        let mut all = match self.search_crates_io(query) {
            Ok(v) => v,
            Err(e) => {
                return Err(e);
            },
        };
        let mut github = match self.search_github(query) {
            Ok(v) => v,
            Err(e) => {
                return Err(e);
            },
        };
        let ghost a = tool_views(all@);
        let ghost g = tool_views(github@);
        all.append(&mut github);
        let mut i: usize = 0;
        while i < local.len()
            invariant
                i <= local.len(),
                tool_views(all@) == a + g + tool_views(local@).take(i as int),
            decreases local.len() - i,
        {
            push_tool(&mut all, copy_tool(&local[i]));
            assert(tool_views(local@).take(i + 1) =~= tool_views(local@).take(i as int).push(tool_view(local@[i as int])));
            i += 1;
        }
        assert(tool_views(local@).take(i as int) =~= tool_views(local@));
        assert(tool_views(all@) =~= a + g + tool_views(local@));
        Ok(Self::first_of_each(&all))
    }

    fn is_version_compatible(&self, current: &str, required: &str) -> (r: bool)
        ensures
            r == version_compatible(current@, required@),
    {
        major_of(current) >= major_of(required)
    }

    /// The tool's compatibility with Rust `current_version` on
    /// `current_platform` (`compatibility_of`).
    pub fn analyze_tool_compatibility(
        &self,
        tool: &CargoTool,
        current_version: &str,
        current_platform: &str,
    ) -> (r: Result<ToolCompatibility, String>)
        ensures
            r matches Ok(c) && compat_view(c) == compatibility_of(
                tool_view(*tool),
                current_version@,
                current_platform@,
                tool_views(self.integrated_tools@),
            ),
    {
        let mut c = copy_compat(&tool.compatibility);
        match &tool.compatibility.rust_version {
            Some(required) => {
                if !self.is_version_compatible(current_version, required.as_str()) {
                    c.compatibility_score = scaled(c.compatibility_score, 7);
                    let mut k = cat3("rust_version: ", required.as_str(), " required, ");
                    push_str(&mut k, current_version);
                    push_str(&mut k, " found");
                    push_line(&mut c.dependency_conflicts, k);
                }
            },
            None => {},
        }
        if !list_contains(&tool.compatibility.platform_support, current_platform) {
            c.compatibility_score = scaled(c.compatibility_score, 5);
            push_line(&mut c.dependency_conflicts, cat3("platform: ", current_platform, " not supported"));
        }
        let ghost s2 = c.compatibility_score;
        let ghost k2 = views(c.dependency_conflicts@);
        let ghost iv = tool_views(self.integrated_tools@);
        let ghost name = tool.name@;
        let mut j: usize = 0;
        assert(k2 + Seq::new(0, |i: int| "already_integrated: "@ + name) =~= k2);
        while j < self.integrated_tools.len()
            invariant
                j <= self.integrated_tools.len(),
                iv == tool_views(self.integrated_tools@),
                name == tool.name@,
                c.compatibility_score == integrated_penalty(s2, named_count(iv.take(j as int), name)),
                views(c.dependency_conflicts@) == k2 + Seq::new(
                    named_count(iv.take(j as int), name),
                    |i: int| "already_integrated: "@ + name,
                ),
                opt_view(c.rust_version) == opt_view(tool.compatibility.rust_version),
                views(c.platform_support@) == views(tool.compatibility.platform_support@),
            decreases self.integrated_tools.len() - j,
        {
            assert(iv.take(j + 1).drop_last() =~= iv.take(j as int));
            assert(iv.take(j + 1).last() == tool_view(self.integrated_tools@[j as int]));
            if str_eq(self.integrated_tools[j].name.as_str(), tool.name.as_str()) {
                let ghost before = views(c.dependency_conflicts@);
                c.compatibility_score = scaled(c.compatibility_score, 8);
                push_line(&mut c.dependency_conflicts, cat("already_integrated: ", tool.name.as_str()));
                assert(views(c.dependency_conflicts@) =~= k2 + Seq::new(
                    named_count(iv.take(j + 1), name),
                    |i: int| "already_integrated: "@ + name,
                ));
            }
            j += 1;
        }
        assert(iv.take(j as int) =~= iv);
        c.integration_status = if c.compatibility_score >= 900 {
            IntegrationStatus::Full
        } else if c.compatibility_score >= 500 {
            IntegrationStatus::Partial
        } else {
            IntegrationStatus::NotIntegrated
        };
        Ok(c)
    }

    /// The source to install a tool from before it is integrated; none for
    /// a tool already integrated.
    pub fn install_source(tool: &CargoTool) -> (r: Option<ToolSource>)
        ensures
            r == if tool.integrated {
                None
            } else {
                Some(tool.source)
            },
    {
        if tool.integrated {
            None
        } else {
            Some(tool.source)
        }
    }

    /// The marker file that records the installation of `tool` under the
    /// tool cache, with its contents (`install_marker_of`).
    pub fn install_marker(&self, tool: &CargoTool) -> (r: Option<(String, String)>)
        ensures
            match install_marker_of(self.tool_cache@, tool_view(*tool)) {
                Some((p, c)) => r matches Some(m) && m.0@ == p && m.1@ == c,
                None => r is None,
            },
    {
        let (suffix, contents) = match tool.source {
            ToolSource::CratesIo => (".installed", "installed"),
            ToolSource::GitHub => (".github-installed", "github_installed"),
            ToolSource::Custom => (".custom-installed", "custom_installed"),
            ToolSource::Local => {
                return None;
            },
        };
        let file = cat(tool.name.as_str(), suffix);
        Some((crate::path::path_join(self.tool_cache.as_str(), file.as_str()), owned(contents)))
    }

    /// Integrates a tool (installed from its source beforehand, see
    /// `install_source`): its compatibility is analysed, it is marked
    /// integrated and takes its place among the integrated tools.
    pub fn integrate_tool(&mut self, tool: CargoTool, current_version: &str, current_platform: &str) -> (r: Result<
        CargoTool,
        String,
    >)
        ensures
            r matches Ok(t) && tool_view(t) == integrated_tool(
                tool_view(tool),
                current_version@,
                current_platform@,
                tool_views(old(self).integrated_tools@),
            ) && tool_views(final(self).integrated_tools@) == integrated_with(
                tool_views(old(self).integrated_tools@),
                tool_view(t),
            ),
            final(self).local_tools_dir == old(self).local_tools_dir,
            final(self).tool_cache == old(self).tool_cache,
            final(self).github_token == old(self).github_token,
    {
        let ghost old_tool = tool;
        let mut tool = tool;
        let c = match self.analyze_tool_compatibility(&tool, current_version, current_platform) {
            Ok(c) => c,
            Err(e) => {
                return Err(e);
            },
        };
        tool.compatibility = c;
        tool.integrated = true;
        let result = copy_tool(&tool);
        let ghost tv = tool_view(tool);
        let ghost old_views = tool_views(self.integrated_tools@);
        assert(tv == integrated_tool(tool_view(old_tool), current_version@, current_platform@, old_views));
        match position_of_tool(&self.integrated_tools, tool.name.as_str()) {
            Some(k) => {
                proof {
                    lemma_position_named_bound(tool_views(self.integrated_tools@), tool.name@);
                }
                let ghost before = self.integrated_tools@;
                assert(tv.0 == tool.name@);
                assert(position_named(old_views, tv.0) == Some(k as int));
                self.integrated_tools.remove(k);
                self.integrated_tools.insert(k, tool);
                assert(tool_views(self.integrated_tools@) =~= tool_views(before).update(k as int, tv));
                assert(tool_views(self.integrated_tools@) == integrated_with(old_views, tv));
            },
            None => {
                push_tool(&mut self.integrated_tools, tool);
                assert(tool_views(self.integrated_tools@) == integrated_with(old_views, tv));
            },
        }
        Ok(result)
    }

    /// The integrated tools.
    pub fn get_integrated_tools(&self) -> (r: Vec<&CargoTool>)
        ensures
            r@.map_values(|t: &CargoTool| tool_view(*t)) == tool_views(self.integrated_tools@),
    {
        let mut r: Vec<&CargoTool> = Vec::new();
        let mut i: usize = 0;
        while i < self.integrated_tools.len()
            invariant
                i <= self.integrated_tools.len(),
                r@.map_values(|t: &CargoTool| tool_view(*t)) == tool_views(self.integrated_tools@).take(i as int),
            decreases self.integrated_tools.len() - i,
        {
            let ghost before = r@;
            r.push(&self.integrated_tools[i]);
            assert(r@.map_values(|t: &CargoTool| tool_view(*t)) =~= before.map_values(|t: &CargoTool| tool_view(*t)).push(
                tool_view(self.integrated_tools@[i as int]),
            ));
            assert(tool_views(self.integrated_tools@).take(i + 1) =~= tool_views(self.integrated_tools@).take(i as int).push(
                tool_view(self.integrated_tools@[i as int]),
            ));
            i += 1;
        }
        assert(tool_views(self.integrated_tools@).take(i as int) =~= tool_views(self.integrated_tools@));
        r
    }
}

impl CargoToolDiscovery {
    fn push_integrated_rows(&self, out: &mut Vec<String>)
        ensures
            views(final(out)@) == views(old(out)@) + tool_views(self.integrated_tools@).map_values(
                |t: ToolView| integrated_row(t),
            ),
    {
        let ghost head = views(out@);
        let ghost rows = tool_views(self.integrated_tools@).map_values(|t: ToolView| integrated_row(t));
        let mut i: usize = 0;
        assert(head + rows.take(0) =~= head);
        while i < self.integrated_tools.len()
            invariant
                i <= self.integrated_tools.len(),
                rows == tool_views(self.integrated_tools@).map_values(|t: ToolView| integrated_row(t)),
                views(out@) == head + rows.take(i as int),
            decreases self.integrated_tools.len() - i,
        {
            let t = &self.integrated_tools[i];
            assert(rows[i as int] == integrated_row(tool_view(*t)));
            let mut row = cat3("| ", t.name.as_str(), " | ");
            push_str(&mut row, t.version.as_str());
            push_str(&mut row, " | ");
            push_str(&mut row, source_str(t.source));
            push_str(&mut row, " | ");
            let pct = percent_string(t.compatibility.compatibility_score);
            push_str(&mut row, pct.as_str());
            push_str(&mut row, "% | ");
            push_str(&mut row, status_str(t.compatibility.integration_status));
            push_str(&mut row, " |\n");
            push_line(out, row);
            assert(rows.take(i + 1) =~= rows.take(i as int).push(rows[i as int]));
            assert(views(out@) =~= head + rows.take(i + 1));
            i += 1;
        }
        assert(rows.take(i as int) =~= rows);
    }

    fn available_tools(&self, local: &Vec<CargoTool>) -> (r: Vec<CargoTool>)
        ensures
            tool_views(r@) == not_integrated(
                all_sources(catalog_keywords(), 20, tool_views(local@)),
                tool_views(self.integrated_tools@),
            ),
    {
        let query = ToolSearchQuery {
            keywords: strings2("analysis", "performance"),
            categories: strings1("analysis"),
            min_downloads: None,
            rust_version: None,
            platform: None,
            limit: 20,
        };
        let all = match self.search_all_sources(&query, local) {
            Ok(v) => v,
            Err(_) => Vec::new(),
        };
        let ghost av = tool_views(all@);
        let ghost iv = tool_views(self.integrated_tools@);
        let mut r: Vec<CargoTool> = Vec::new();
        let mut i: usize = 0;
        while i < all.len()
            invariant
                i <= all.len(),
                av == tool_views(all@),
                iv == tool_views(self.integrated_tools@),
                tool_views(r@) == not_integrated(av.take(i as int), iv),
            decreases all.len() - i,
        {
            assert(av.take(i + 1).drop_last() =~= av.take(i as int));
            assert(av.take(i + 1).last() == tool_view(all@[i as int]));
            if !has_tool_named(&self.integrated_tools, all[i].name.as_str()) {
                push_tool(&mut r, copy_tool(&all[i]));
                assert(tool_views(r@) =~= not_integrated(av.take(i + 1), iv));
            } else {
                assert(tool_views(r@) =~= not_integrated(av.take(i + 1), iv));
            }
            i += 1;
        }
        assert(av.take(i as int) =~= av);
        r
    }

    fn push_available_rows(out: &mut Vec<String>, available: &Vec<CargoTool>)
        ensures
            views(final(out)@) == views(old(out)@) + first_n(tool_views(available@), 10).map_values(
                |t: ToolView| available_row(t),
            ),
    {
        let n: usize = if available.len() < 10 {
            available.len()
        } else {
            10
        };
        let ghost shown = first_n(tool_views(available@), 10);
        let ghost rows = shown.map_values(|t: ToolView| available_row(t));
        let ghost head = views(out@);
        let mut i: usize = 0;
        assert(head + rows.take(0) =~= head);
        while i < n
            invariant
                i <= n,
                n <= available.len(),
                n == shown.len(),
                shown == first_n(tool_views(available@), 10),
                rows == shown.map_values(|t: ToolView| available_row(t)),
                views(out@) == head + rows.take(i as int),
            decreases n - i,
        {
            let t = &available[i];
            assert(shown[i as int] == tool_view(*t));
            let mut row = cat3("| ", t.name.as_str(), " | ");
            push_str(&mut row, t.version.as_str());
            push_str(&mut row, " | ");
            push_str(&mut row, source_str(t.source));
            push_str(&mut row, " | ");
            push_str(&mut row, t.description.as_str());
            push_str(&mut row, " |\n");
            push_line(out, row);
            assert(rows.take(i + 1) =~= rows.take(i as int).push(rows[i as int]));
            assert(views(out@) =~= head + rows.take(i + 1));
            i += 1;
        }
        assert(rows.take(i as int) =~= rows);
    }

    /// The tool catalog (`tool_catalog`), headed with the time
    /// `generated`, given the tools found locally.
    pub fn generate_tool_catalog(&self, generated: &str, local: &Vec<CargoTool>) -> (r: String)
        ensures
            r@ == tool_catalog(tool_views(self.integrated_tools@), generated@, tool_views(local@)),
    {
        let mut out: Vec<String> = Vec::new();
        push_line(&mut out, owned("# Cargo Tool Catalog\n\n"));
        push_line(&mut out, cat3("Generated: ", generated, "\n\n"));
        push_line(&mut out, owned("## Integrated Tools\n\n"));
        push_line(&mut out, owned("| Name | Version | Source | Compatibility | Status |\n"));
        push_line(&mut out, owned("|------|---------|--------|---------------|--------|\n"));
        self.push_integrated_rows(&mut out);
        push_line(&mut out, owned("\n## Available Tools (Not Integrated)\n\n"));
        push_line(&mut out, owned("These tools were discovered but not yet integrated:\n\n"));
        let ghost mid = views(out@);
        let available = self.available_tools(local);
        if available.len() > 0 {
            push_line(&mut out, owned("| Name | Version | Source | Description |\n"));
            push_line(&mut out, owned("|------|---------|--------|-------------|\n"));
            Self::push_available_rows(&mut out, &available);
        } else {
            push_line(&mut out, owned("No additional tools found.\n"));
        }
        push_line(&mut out, owned("\n## Tool Sources Summary\n\n"));
        let a = decimal_string(self.integrated_tools.len());
        push_line(&mut out, cat3("- **Integrated Tools**: ", a.as_str(), "\n"));
        let b = decimal_string(available.len());
        push_line(&mut out, cat3("- **Available Tools**: ", b.as_str(), "\n"));
        push_line(&mut out, owned("- **Search Sources**: crates.io, GitHub, local installation\n"));
        let ghost integrated = tool_views(self.integrated_tools@);
        let ghost av = tool_views(available@);
        assert(views(out@) =~= seq![
            "# Cargo Tool Catalog\n\n"@,
            "Generated: "@ + generated@ + "\n\n"@,
            "## Integrated Tools\n\n"@,
            "| Name | Version | Source | Compatibility | Status |\n"@,
            "|------|---------|--------|---------------|--------|\n"@,
        ] + integrated.map_values(|t: ToolView| integrated_row(t)) + seq![
            "\n## Available Tools (Not Integrated)\n\n"@,
            "These tools were discovered but not yet integrated:\n\n"@,
        ] + if av.len() > 0 {
            seq!["| Name | Version | Source | Description |\n"@, "|------|---------|--------|-------------|\n"@]
                + first_n(av, 10).map_values(|t: ToolView| available_row(t))
        } else {
            seq!["No additional tools found.\n"@]
        } + seq![
            "\n## Tool Sources Summary\n\n"@,
            "- **Integrated Tools**: "@ + decimal(integrated.len()) + "\n"@,
            "- **Available Tools**: "@ + decimal(av.len()) + "\n"@,
            "- **Search Sources**: crates.io, GitHub, local installation\n"@,
        ]);
        concat_strings(&out)
    }

    fn push_steps(out: &mut Vec<String>, tool: &CargoTool)
        ensures
            views(final(out)@) == views(old(out)@) + integration_steps(tool_view(*tool)),
    {
        let ghost head = views(out@);
        match tool.source {
            ToolSource::CratesIo => {
                push_line(out, cat3("1. Run: `cargo install ", tool.name.as_str(), "`\n"));
                push_line(out, owned("2. Verify installation: `cargo <tool> --version`\n"));
                push_line(out, owned("3. Configure integration in cargo-vendormod\n"));
            },
            ToolSource::GitHub => {
                match &tool.download_url {
                    Some(url) => {
                        push_line(out, cat3("1. Clone repository: `git clone ", url.as_str(), "`\n"));
                        push_line(out, cat3("2. Build and install: `cd ", tool.name.as_str(), " && cargo install --path .`\n"));
                    },
                    None => {},
                }
                push_line(out, owned("3. Verify installation\n"));
                push_line(out, owned("4. Configure integration\n"));
            },
            ToolSource::Local => {
                push_line(out, owned("1. Tool is already available locally\n"));
                push_line(out, owned("2. Verify executable path\n"));
                push_line(out, owned("3. Configure integration\n"));
            },
            ToolSource::Custom => {
                push_line(out, owned("1. Follow custom installation instructions\n"));
                push_line(out, owned("2. Verify tool functionality\n"));
                push_line(out, owned("3. Configure integration\n"));
            },
        }
        assert(views(out@) =~= head + integration_steps(tool_view(*tool)));
    }

    /// The integration report of `tool` (`integration_report`).
    pub fn generate_integration_report(&self, tool: &CargoTool) -> (r: String)
        ensures
            r@ == integration_report(tool_view(*tool)),
    {
        let c = &tool.compatibility;
        let mut out: Vec<String> = Vec::new();
        push_line(&mut out, owned("# Tool Integration Report\n\n"));
        push_line(&mut out, cat3("Tool: ", tool.name.as_str(), "\n"));
        push_line(&mut out, cat3("Version: ", tool.version.as_str(), "\n"));
        push_line(&mut out, cat3("Source: ", source_str(tool.source), "\n\n"));
        push_line(&mut out, cat3("## Description\n\n", tool.description.as_str(), "\n\n"));
        push_line(&mut out, owned("## Compatibility Analysis\n\n"));
        let pct = percent_string(c.compatibility_score);
        push_line(&mut out, cat3("- **Compatibility Score**: ", pct.as_str(), "%\n"));
        push_line(&mut out, cat3("- **Integration Status**: ", status_str(c.integration_status), "\n"));
        let rv = match &c.rust_version {
            Some(v) => v.clone(),
            None => owned("unknown"),
        };
        push_line(&mut out, cat3("- **Rust Version**: ", rv.as_str(), "\n"));
        let platforms = crate::text::join_strings(&c.platform_support, ", ");
        push_line(&mut out, cat3("- **Platform Support**: ", platforms.as_str(), "\n"));
        let ghost head = views(out@);
        let ghost ks = views(c.dependency_conflicts@);
        if c.dependency_conflicts.len() > 0 {
            push_line(&mut out, owned("\n### Dependency Conflicts\n\n"));
            let ghost mid = views(out@);
            let ghost rows = ks.map_values(|k: Seq<char>| "- "@ + k + "\n"@);
            let mut i: usize = 0;
            assert(mid + rows.take(0) =~= mid);
            while i < c.dependency_conflicts.len()
                invariant
                    i <= c.dependency_conflicts.len(),
                    ks == views(c.dependency_conflicts@),
                    rows == ks.map_values(|k: Seq<char>| "- "@ + k + "\n"@),
                    views(out@) == mid + rows.take(i as int),
                decreases c.dependency_conflicts.len() - i,
            {
                push_line(&mut out, cat3("- ", c.dependency_conflicts[i].as_str(), "\n"));
                assert(rows.take(i + 1) =~= rows.take(i as int).push(rows[i as int]));
                assert(views(out@) =~= mid + rows.take(i + 1));
                i += 1;
            }
            assert(rows.take(i as int) =~= rows);
        } else {
            push_line(&mut out, owned("\n### Dependency Conflicts\n\nNone detected\n"));
        }
        push_line(&mut out, owned("\n## Integration Steps\n\n"));
        Self::push_steps(&mut out, tool);
        push_line(&mut out, owned("\n## Expected Benefits\n\n"));
        push_line(&mut out, owned("- Enhanced performance analysis\n"));
        push_line(&mut out, owned("- Additional metrics and insights\n"));
        push_line(&mut out, owned("- Improved correlation with other tools\n"));
        push_line(&mut out, owned("- Better workload optimization\n"));
        let ghost t = tool_view(*tool);
        assert(views(out@) =~= seq![
            "# Tool Integration Report\n\n"@,
            "Tool: "@ + t.0 + "\n"@,
            "Version: "@ + t.3 + "\n"@,
            "Source: "@ + source_name(t.4) + "\n\n"@,
            "## Description\n\n"@ + t.2 + "\n\n"@,
            "## Compatibility Analysis\n\n"@,
            "- **Compatibility Score**: "@ + percent(t.11.4) + "%\n"@,
            "- **Integration Status**: "@ + status_name(t.11.3) + "\n"@,
            "- **Rust Version**: "@ + match t.11.0 {
                Some(v) => v,
                None => "unknown"@,
            } + "\n"@,
            "- **Platform Support**: "@ + crate::text::join(t.11.1, ", "@) + "\n"@,
        ] + if t.11.2.len() > 0 {
            seq!["\n### Dependency Conflicts\n\n"@] + t.11.2.map_values(|k: Seq<char>| "- "@ + k + "\n"@)
        } else {
            seq!["\n### Dependency Conflicts\n\nNone detected\n"@]
        } + seq!["\n## Integration Steps\n\n"@] + integration_steps(t) + seq![
            "\n## Expected Benefits\n\n"@,
            "- Enhanced performance analysis\n"@,
            "- Additional metrics and insights\n"@,
            "- Improved correlation with other tools\n"@,
            "- Better workload optimization\n"@,
        ]);
        concat_strings(&out)
    }
}

} // verus!
