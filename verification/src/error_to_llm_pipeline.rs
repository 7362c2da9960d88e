//! Parallel Nix builds over a dependency graph, and reports of their
//! failures for language models.
//!
//! Packages are grouped for building (external crates first, then the
//! workspace in dependency order), flakes are chunked into groups of a
//! bounded size, and build failures are classified as retryable or not.
use vstd::prelude::*;
use crate::global_dep_graph::GlobalDependencyGraph;
use crate::path::{file_name_of, join_path, path_file_name, path_join};
use crate::text::{
    cat, cat3, concat, concat_strings, contains, decimal, decimal_string, decimal_string_u64, has_substr, join, join_strings, owned,
    push_line, push_str, trim, trimmed, views,
};
use vstd::utf8::{
    decode_utf8, encode_utf8, encode_utf8_decode_utf8, encode_utf8_valid_utf8, is_char_boundary,
    is_char_boundary_iff_not_is_continuation_byte, is_char_boundary_start_end_of_seq, valid_utf8, valid_utf8_split,
};
use vstd::string::StringSliceAdditionalSpecFns;

verus! {

/// A failed build.
pub struct BuildError {
    pub crate_name: String,
    pub error_message: String,
    pub build_log: String,
    pub dependencies: Vec<String>,
    pub nix_flake_path: String,
    pub is_retryable: bool,
}

/// The outcome of one build.
pub struct BuildResult {
    pub crate_name: String,
    pub success: bool,
    pub error: Option<BuildError>,
    pub build_time_ms: u64,
    pub dependencies: Vec<String>,
}

/// How builds run.
pub struct ParallelBuildConfig {
    pub max_parallel: usize,
    pub max_retries: usize,
    pub timeout_seconds: u64,
    pub nix_command: String,
    pub output_dir: String,
    pub log_dir: String,
}

impl Default for ParallelBuildConfig {
    /// Eight builds at a time, two retries, an hour each, `nix`, outputs
    /// in `./nix_builds` and logs in `./build_logs`.
    fn default() -> (c: Self)
        ensures
            c.max_parallel == 8,
            c.max_retries == 2,
            c.timeout_seconds == 3600,
            c.nix_command@ == "nix"@,
            c.output_dir@ == "./nix_builds"@,
            c.log_dir@ == "./build_logs"@,
    {
        ParallelBuildConfig {
            max_parallel: 8,
            max_retries: 2,
            timeout_seconds: 3600,
            nix_command: owned("nix"),
            output_dir: owned("./nix_builds"),
            log_dir: owned("./build_logs"),
        }
    }
}

/// The build pipeline: its configuration, the dependency graph once
/// loaded, and the build results.
pub struct ErrorToLLMPipeline {
    pub config: ParallelBuildConfig,
    pub dependency_graph: Option<GlobalDependencyGraph>,
    pub build_results: Vec<BuildResult>,
}

/// The build groups of a graph: the external crates in dependency order,
/// then the workspace in topological order (or, lacking one, in publish
/// order); when both are empty, all crates by name in node order. Empty
/// groups are left out.
pub open spec fn build_groups(g: GlobalDependencyGraph) -> Seq<Seq<Seq<char>>> {
    let ext = views(g.external_dependency_order@);
    let topo = views(g.topological_order@);
    let publish = views(g.publish_order@);
    let first = if ext.len() > 0 {
        seq![ext]
    } else {
        Seq::empty()
    };
    let second = if topo.len() > 0 {
        seq![topo]
    } else if publish.len() > 0 {
        seq![publish]
    } else {
        Seq::empty()
    };
    let groups = first + second;
    if groups.len() == 0 {
        let all = g.nodes@.map_values(|n: crate::global_dep_graph::DependencyNode| n.crate_name@);
        if all.len() > 0 {
            seq![all]
        } else {
            Seq::empty()
        }
    } else {
        groups
    }
}

fn copy_strings(v: &Vec<String>) -> (r: Vec<String>)
    ensures
        views(r@) == views(v@),
{
    let mut r: Vec<String> = Vec::new();
    for i in 0..v.len()
        invariant
            views(r@) == views(v@).take(i as int),
    {
        let ghost before = views(r@);
        r.push(v[i].clone());
        assert(views(r@) =~= before.push(v@[i as int]@));
        assert(views(v@).take(i + 1) =~= views(v@).take(i as int).push(v@[i as int]@));
    }
    assert(views(v@).take(v.len() as int) =~= views(v@));
    r
}

fn copy_error(e: &BuildError) -> (r: BuildError)
    ensures
        error_view(r) == error_view(*e),
{
    BuildError {
        crate_name: e.crate_name.clone(),
        error_message: e.error_message.clone(),
        build_log: e.build_log.clone(),
        dependencies: copy_strings(&e.dependencies),
        nix_flake_path: e.nix_flake_path.clone(),
        is_retryable: e.is_retryable,
    }
}

/// All fields of a build error.
pub open spec fn error_view(e: BuildError) -> (Seq<char>, Seq<char>, Seq<char>, Seq<Seq<char>>, Seq<char>, bool) {
    (e.crate_name@, e.error_message@, e.build_log@, views(e.dependencies@), e.nix_flake_path@, e.is_retryable)
}

/// All fields of a build result.
pub open spec fn result_view(r: BuildResult) -> (
    Seq<char>,
    bool,
    Option<(Seq<char>, Seq<char>, Seq<char>, Seq<Seq<char>>, Seq<char>, bool)>,
    u64,
    Seq<Seq<char>>,
) {
    (
        r.crate_name@,
        r.success,
        match r.error {
            Some(e) => Some(error_view(e)),
            None => None,
        },
        r.build_time_ms,
        views(r.dependencies@),
    )
}

fn copy_result(r: &BuildResult) -> (c: BuildResult)
    ensures
        result_view(c) == result_view(*r),
{
    BuildResult {
        crate_name: r.crate_name.clone(),
        success: r.success,
        error: match &r.error {
            Some(e) => Some(copy_error(e)),
            None => None,
        },
        build_time_ms: r.build_time_ms,
        dependencies: copy_strings(&r.dependencies),
    }
}

impl ErrorToLLMPipeline {
    /// A pipeline with this configuration, no graph and no results.
    pub fn new(config: ParallelBuildConfig) -> (p: Self)
        ensures
            p.config == config,
            p.dependency_graph is None,
            p.build_results.len() == 0,
    {
        ErrorToLLMPipeline { config, dependency_graph: None, build_results: Vec::new() }
    }

    /// Takes the dependency graph of the workspace (as loading it gives).
    pub fn load_dependency_graph(&mut self, graph: GlobalDependencyGraph)
        ensures
            final(self).dependency_graph == Some(graph),
            final(self).config == old(self).config,
            final(self).build_results == old(self).build_results,
    {
        self.dependency_graph = Some(graph);
    }

    /// The groups to build one after the other; an error when no
    /// dependency graph was loaded.
    pub fn partition_independent_groups(&self) -> (r: Result<Vec<Vec<String>>, String>)
        ensures
            match self.dependency_graph {
                Some(g) => r matches Ok(groups) && groups@.map_values(|v: Vec<String>| views(v@))
                    == build_groups(g),
                None => r matches Err(m) && m@ == "Dependency graph not loaded"@,
            },
    {
        let graph = match &self.dependency_graph {
            Some(g) => g,
            None => {
                return Err(owned("Dependency graph not loaded"));
            },
        };
        let mut groups: Vec<Vec<String>> = Vec::new();
        if graph.external_dependency_order.len() > 0 {
            groups.push(copy_strings(&graph.external_dependency_order));
        }
        if graph.topological_order.len() > 0 {
            groups.push(copy_strings(&graph.topological_order));
        } else if graph.publish_order.len() > 0 {
            groups.push(copy_strings(&graph.publish_order));
        }
        if groups.len() == 0 {
            let mut all: Vec<String> = Vec::new();
            let ghost names = graph.nodes@.map_values(|n: crate::global_dep_graph::DependencyNode| n.crate_name@);
            for i in 0..graph.nodes.len()
                invariant
                    names == graph.nodes@.map_values(|n: crate::global_dep_graph::DependencyNode| n.crate_name@),
                    views(all@) == names.take(i as int),
            {
                let ghost before = views(all@);
                all.push(graph.nodes[i].crate_name.clone());
                assert(views(all@) =~= before.push(names[i as int]));
                assert(names.take(i + 1) =~= names.take(i as int).push(names[i as int]));
            }
            assert(names.take(graph.nodes.len() as int) =~= names);
            if all.len() > 0 {
                groups.push(all);
            }
        }
        proof {
            let gv = groups@.map_values(|v: Vec<String>| views(v@));
            assert(gv =~= build_groups(*graph));
        }
        Ok(groups)
    }

    /// The number of build groups.
    pub fn get_max_independent_builds(&self) -> (r: Result<usize, String>)
        ensures
            match self.dependency_graph {
                Some(g) => r == Ok::<usize, String>(build_groups(g).len() as usize),
                None => r matches Err(m) && m@ == "Dependency graph not loaded"@,
            },
    {
        match self.partition_independent_groups() {
            Ok(groups) => Ok(groups.len()),
            Err(e) => Err(e),
        }
    }

    /// A copy of the build results.
    pub fn get_build_results(&self) -> (r: Vec<BuildResult>)
        ensures
            r@.map_values(|b: BuildResult| result_view(b)) == self.build_results@.map_values(
                |b: BuildResult| result_view(b),
            ),
    {
        let mut r: Vec<BuildResult> = Vec::new();
        let ghost src = self.build_results@.map_values(|b: BuildResult| result_view(b));
        for i in 0..self.build_results.len()
            invariant
                src == self.build_results@.map_values(|b: BuildResult| result_view(b)),
                r@.map_values(|b: BuildResult| result_view(b)) == src.take(i as int),
        {
            let ghost before = r@.map_values(|b: BuildResult| result_view(b));
            let c = copy_result(&self.build_results[i]);
            r.push(c);
            assert(r@.map_values(|b: BuildResult| result_view(b)) =~= before.push(src[i as int]));
            assert(src.take(i + 1) =~= src.take(i as int).push(src[i as int]));
        }
        assert(src.take(self.build_results.len() as int) =~= src);
        r
    }

    /// Replaces the build results (as when loading them from JSON).
    pub fn set_build_results(&mut self, results: Vec<BuildResult>)
        ensures
            final(self).build_results == results,
            final(self).config == old(self).config,
            final(self).dependency_graph == old(self).dependency_graph,
    {
        self.build_results = results;
    }
}

/// Build output that cannot get better by retrying.
pub open spec fn non_retryable(log: Seq<char>) -> bool {
    contains(log, "not found"@) || contains(log, "No such file"@) || contains(log, "permission denied"@)
        || contains(log, "invalid syntax"@) || contains(log, "parse error"@)
}

/// A build is retried exactly when its log reports none of: something not
/// found, a missing file ("No such file"), a permission denial, invalid
/// syntax, or a parse error.
pub proof fn lemma_retry_classes(log: Seq<char>)
    ensures
        contains(log, "not found"@) ==> non_retryable(log),
        contains(log, "No such file"@) ==> non_retryable(log),
        contains(log, "permission denied"@) ==> non_retryable(log),
        contains(log, "invalid syntax"@) ==> non_retryable(log),
        contains(log, "parse error"@) ==> non_retryable(log),
        !contains(log, "not found"@) && !contains(log, "No such file"@) && !contains(log, "permission denied"@)
            && !contains(log, "invalid syntax"@) && !contains(log, "parse error"@) ==> !non_retryable(log),
{
}

/// Whether a failed build is worth retrying: not when its log reports a
/// missing file, a permission problem or a syntax or parse error.
pub fn is_retryable_error(build_log: &str) -> (r: bool)
    ensures
        r == !non_retryable(build_log@),
{
    !(has_substr(build_log, "not found") || has_substr(build_log, "No such file") || has_substr(
        build_log,
        "permission denied",
    ) || has_substr(build_log, "invalid syntax") || has_substr(build_log, "parse error"))
}

/// Concatenation of groups.
pub open spec fn flatten<T>(groups: Seq<Seq<T>>) -> Seq<T>
    decreases groups.len(),
{
    if groups.len() == 0 {
        Seq::empty()
    } else {
        flatten(groups.drop_last()) + groups.last()
    }
}

/// The views of groups of strings.
pub open spec fn group_views(gs: Seq<Vec<String>>) -> Seq<Seq<Seq<char>>> {
    gs.map_values(|g: Vec<String>| views(g@))
}

/// Splits the flakes into build groups of at most `max_group_size`, in
/// order: the groups, put together, are the flakes; every group but the
/// last holds exactly `max_group_size` flakes and none is empty. A size
/// of 0 puts everything in one group.
pub fn create_parallel_build_groups(flake_files: Vec<String>, max_group_size: usize) -> (r: Vec<Vec<String>>)
    ensures
        max_group_size == 0 ==> group_views(r@) == seq![views(flake_files@)],
        max_group_size > 0 ==> {
            let gv = group_views(r@);
            &&& flatten(gv) == views(flake_files@)
            &&& forall|k: int| 0 <= k < gv.len() ==> 0 < (#[trigger] gv[k]).len() <= max_group_size
            &&& forall|k: int| 0 <= k < gv.len() - 1 ==> (#[trigger] gv[k]).len() == max_group_size
        },
{
    if max_group_size == 0 {
        let mut r: Vec<Vec<String>> = Vec::new();
        let ghost fv = views(flake_files@);
        r.push(flake_files);
        assert(group_views(r@) =~= seq![fv]);
        return r;
    }
    let ghost all = views(flake_files@);
    let mut groups: Vec<Vec<String>> = Vec::new();
    let mut current: Vec<String> = Vec::new();
    let n = flake_files.len();
    for i in 0..n
        invariant
            n == flake_files.len(),
            all == views(flake_files@),
            max_group_size > 0,
            current.len() < max_group_size,
            flatten(group_views(groups@)) + views(current@) == all.take(i as int),
            forall|k: int|
                0 <= k < groups.len() ==> (#[trigger] group_views(groups@)[k]).len()
                    == max_group_size,
    {
        let ghost gv = group_views(groups@);
        let ghost cv = views(current@);
        current.push(flake_files[i].clone());
        assert(views(current@) =~= cv.push(all[i as int]));
        assert(all.take(i + 1) =~= all.take(i as int).push(all[i as int]));
        if current.len() >= max_group_size {
            let mut full: Vec<String> = Vec::new();
            std::mem::swap(&mut full, &mut current);
            let ghost fullv = views(full@);
            groups.push(full);
            proof {
                let gv2 = group_views(groups@);
                assert(gv2 =~= gv.push(fullv));
                assert(gv2.drop_last() =~= gv);
                assert(views(current@) =~= Seq::<Seq<char>>::empty());
                assert(flatten(gv2) + views(current@) =~= flatten(gv) + fullv);
            }
        }
    }
    assert(all.take(n as int) =~= all);
    if current.len() > 0 {
        let ghost gv = group_views(groups@);
        let ghost cv = views(current@);
        groups.push(current);
        proof {
            let gv2 = group_views(groups@);
            assert(gv2 =~= gv.push(cv));
            assert(gv2.drop_last() =~= gv);
        }
    } else {
        assert(views(current@) =~= Seq::<Seq<char>>::empty());
        assert(flatten(group_views(groups@)) =~= all);
    }
    groups
}

// ───────────────────────────── one build ───────────────────────────────

/// How a build went: the build command could not start (and why), or it
/// ran to success or failure, writing `stderr`.
pub enum BuildOutcome {
    NotStarted(String),
    Finished { success: bool, stderr: String },
}

/// `p` occurs in `s` at the byte `i`.
pub open spec fn bytes_at(s: Seq<u8>, p: Seq<u8>, i: int) -> bool {
    0 <= i && i + p.len() <= s.len() && s.subrange(i, i + p.len()) == p
}

/// The first byte at or after `i` where `p` occurs in `s`.
pub open spec fn find_bytes_from(s: Seq<u8>, p: Seq<u8>, i: int) -> Option<int>
    decreases s.len() - i,
{
    if i < 0 || i + p.len() > s.len() {
        None
    } else if bytes_at(s, p, i) {
        Some(i)
    } else if i >= s.len() {
        None
    } else {
        find_bytes_from(s, p, i + 1)
    }
}

proof fn lemma_find_bytes_bound(s: Seq<u8>, p: Seq<u8>, i: int)
    ensures
        find_bytes_from(s, p, i) matches Some(k) ==> 0 <= k && k + p.len() <= s.len(),
    decreases s.len() - i,
{
    if !(i < 0 || i + p.len() > s.len()) && !bytes_at(s, p, i) && i < s.len() {
        lemma_find_bytes_bound(s, p, i + 1);
    }
}

proof fn lemma_first_hit_bound(log: Seq<u8>, patterns: Seq<Seq<char>>)
    ensures
        first_hit(log, patterns) matches Some(k) ==> 0 <= k <= log.len(),
    decreases patterns.len(),
{
    if patterns.len() > 0 {
        lemma_first_hit_bound(log, patterns.drop_last());
        lemma_find_bytes_bound(log, encode_utf8(patterns.last()), 0);
    }
}

proof fn lemma_window_bound(log: Seq<u8>)
    ensures
        0 <= error_window(log).0 <= error_window(log).1 <= log.len(),
{
    lemma_first_hit_bound(log, error_patterns());
}

/// The words that mark an error, in the order they are looked for.
pub open spec fn error_patterns() -> Seq<Seq<char>> {
    seq!["error:"@, "Error:"@, "failed"@, "Failed"@, "not found"@, "No such file"@, "permission denied"@, "timeout"@]
}

/// Where the first of `patterns` that occurs in the log first occurs (in
/// bytes).
pub open spec fn first_hit(log: Seq<u8>, patterns: Seq<Seq<char>>) -> Option<int>
    decreases patterns.len(),
{
    if patterns.len() == 0 {
        None
    } else {
        match first_hit(log, patterns.drop_last()) {
            Some(i) => Some(i),
            None => find_bytes_from(log, encode_utf8(patterns.last()), 0),
        }
    }
}

/// The bytes of a log that its error message is taken from: from 100
/// bytes before the first error word to 500 bytes on, or the first 500
/// bytes when there is no error word (always within the log).
pub open spec fn error_window(log: Seq<u8>) -> (int, int) {
    let start = match first_hit(log, error_patterns()) {
        Some(pos) => if pos > 100 {
            pos - 100
        } else {
            0
        },
        None => 0,
    };
    let end = if start + 500 < log.len() {
        start + 500
    } else {
        log.len() as int
    };
    (start, end)
}

/// The error window of the log falls on character boundaries.
pub open spec fn window_on_boundaries(log: Seq<char>) -> bool {
    let w = error_window(encode_utf8(log));
    is_char_boundary(encode_utf8(log), w.0) && is_char_boundary(encode_utf8(log), w.1)
}

/// The main error message of a build log: its error window, trimmed.
pub open spec fn error_message_of(log: Seq<char>) -> Seq<char> {
    let w = error_window(encode_utf8(log));
    trim(decode_utf8(encode_utf8(log).subrange(w.0, w.1)))
}

/// What the pattern `(?:depends on|requires|needs) ["']?([a-zA-Z0-9_-]+)["']?`
/// captures in its group, match by match, as the regex crate finds them.
pub uninterp spec fn dependency_pattern_matches(log: Seq<char>) -> Seq<Seq<char>>;

/// The names that the regular expression
/// `(?:depends on|requires|needs) ["']?([a-zA-Z0-9_-]+)["']?` captures,
/// match by match, in a build log (`Regex::captures_iter`, group 1). The
/// contract claims only that they are the named
/// `dependency_pattern_matches` of the log.
#[verifier::external_body]
fn dependency_names(log: &str) -> (r: Vec<String>)
    ensures
        views(r@) == dependency_pattern_matches(log@),
{
    let re = regex::Regex::new(r#"(?:depends on|requires|needs) [\"']?([a-zA-Z0-9_-]+)[\"']?"#).unwrap();
    re.captures_iter(log).map(|c| c[1].to_string()).collect()
}

fn find_bytes(s: &[u8], p: &[u8]) -> (r: Option<usize>)
    ensures
        match find_bytes_from(s@, p@, 0) {
            Some(i) => r == Some(i as usize),
            None => r is None,
        },
{
    let mut i: usize = 0;
    while i <= s.len() && p.len() <= s.len() - i
        invariant
            i <= s.len() + 1,
            find_bytes_from(s@, p@, 0) == find_bytes_from(s@, p@, i as int),
        decreases s.len() + 1 - i,
    {
        let mut j: usize = 0;
        while j < p.len() && s[i + j] == p[j]
            invariant
                j <= p.len(),
                i + p.len() <= s.len(),
                forall|k: int| 0 <= k < j ==> s@[i + k] == p@[k],
            decreases p.len() - j,
        {
            j += 1;
        }
        if j == p.len() {
            assert(s@.subrange(i as int, i + p.len()) =~= p@);
            return Some(i);
        }
        assert(s@.subrange(i as int, i + p.len())[j as int] != p@[j as int]);
        assert(!bytes_at(s@, p@, i as int));
        i += 1;
    }
    None
}

fn error_pattern(k: usize) -> (r: &'static str)
    requires
        k < 8,
    ensures
        r@ == error_patterns()[k as int],
{
    if k == 0 {
        "error:"
    } else if k == 1 {
        "Error:"
    } else if k == 2 {
        "failed"
    } else if k == 3 {
        "Failed"
    } else if k == 4 {
        "not found"
    } else if k == 5 {
        "No such file"
    } else if k == 6 {
        "permission denied"
    } else {
        "timeout"
    }
}

proof fn lemma_prefix_boundary(b: Seq<u8>, start: int, end: int)
    requires
        valid_utf8(b),
        is_char_boundary(b, start),
        is_char_boundary(b, end),
        0 <= start <= end <= b.len(),
    ensures
        is_char_boundary(b.subrange(0, end), start),
{
    let pre = b.subrange(0, end);
    valid_utf8_split(b, end);
    if start == end {
        is_char_boundary_start_end_of_seq(pre);
    } else {
        is_char_boundary_iff_not_is_continuation_byte(b, start);
        is_char_boundary_iff_not_is_continuation_byte(pre, start);
        assert(pre[start] == b[start]);
    }
}

/// The characters of `s` between the byte offsets `start` and `end`,
/// which fall on character boundaries.
fn byte_slice(s: &str, start: usize, end: usize) -> (r: &str)
    requires
        start <= end <= encode_utf8(s@).len(),
        is_char_boundary(encode_utf8(s@), start as int),
        is_char_boundary(encode_utf8(s@), end as int),
    ensures
        r@ == decode_utf8(encode_utf8(s@).subrange(start as int, end as int)),
{
    proof {
        encode_utf8_valid_utf8(s@);
        lemma_prefix_boundary(encode_utf8(s@), start as int, end as int);
    }
    let (pre, _) = s.split_at(end);
    let (_, piece) = pre.split_at(start);
    proof {
        assert(piece.spec_bytes() =~= encode_utf8(s@).subrange(start as int, end as int));
        encode_utf8_decode_utf8(piece@);
    }
    piece
}

/// The error window of a log (`error_window`).
fn error_window_of(log: &str) -> (r: (usize, usize))
    ensures
        r.0 == error_window(encode_utf8(log@)).0,
        r.1 == error_window(encode_utf8(log@)).1,
{
    let b = log.as_bytes();
    let ghost lb = encode_utf8(log@);
    proof {
        lemma_window_bound(lb);
        lemma_first_hit_bound(lb, error_patterns());
    }
    let n = b.len();
    assert(lb.len() == n);
    let mut hit: Option<usize> = None;
    let mut k: usize = 0;
    while k < 8
        invariant
            k <= 8,
            b@ == lb,
            lb.len() == n,
            match first_hit(lb, error_patterns().take(k as int)) {
                Some(i) => hit is Some && hit.unwrap() as int == i,
                None => hit is None,
            },
        decreases 8 - k,
    {
        assert(error_patterns().take(k + 1).drop_last() =~= error_patterns().take(k as int));
        assert(error_patterns().take(k + 1).last() == error_patterns()[k as int]);
        proof {
            lemma_find_bytes_bound(lb, encode_utf8(error_patterns()[k as int]), 0);
            lemma_first_hit_bound(lb, error_patterns().take(k as int));
        }
        if hit.is_none() {
            let p = error_pattern(k);
            hit = find_bytes(b, p.as_bytes());
        }
        k += 1;
    }
    assert(error_patterns().take(8) =~= error_patterns());
    proof {
        lemma_first_hit_bound(lb, error_patterns());
    }
    let start: usize = match hit {
        Some(pos) => if pos > 100 {
            pos - 100
        } else {
            0
        },
        None => 0,
    };
    let end: usize = if start < n && n - start > 500 {
        start + 500
    } else {
        n
    };
    (start, end)
}

/// Whether the error window of a build log falls on character boundaries,
/// so that its error message can be cut out.
pub fn error_window_on_boundaries(build_log: &str) -> (r: bool)
    ensures
        r == window_on_boundaries(build_log@),
{
    let (start, end) = error_window_of(build_log);
    proof {
        lemma_window_bound(encode_utf8(build_log@));
        assert(build_log.spec_bytes() == encode_utf8(build_log@));
    }
    build_log.is_char_boundary(start) && build_log.is_char_boundary(end)
}

/// The main error message of a build log (`error_message_of`).
pub fn extract_error_message(build_log: &str) -> (r: String)
    requires
        window_on_boundaries(build_log@),
    ensures
        r@ == error_message_of(build_log@),
{
    let (start, end) = error_window_of(build_log);
    proof {
        lemma_window_bound(encode_utf8(build_log@));
    }
    trimmed(byte_slice(build_log, start, end))
}

/// The dependencies a build log names (`dependency_pattern_matches`).
pub fn extract_dependencies(build_log: &str) -> (r: Vec<String>)
    ensures
        views(r@) == dependency_pattern_matches(build_log@),
{
    dependency_names(build_log)
}

/// The part of a file name before its last `.`: the whole name when it
/// has no `.` but a leading one.
pub open spec fn stem_of(name: Seq<char>) -> Seq<char> {
    match last_dot(name, name.len() as int) {
        Some(k) => if k == 0 {
            name
        } else {
            name.take(k)
        },
        None => name,
    }
}

/// The last `.` among the first `n` characters.
pub open spec fn last_dot(name: Seq<char>, n: int) -> Option<int>
    decreases n,
{
    if n <= 0 {
        None
    } else if name[n - 1] == '.' {
        Some(n - 1)
    } else {
        last_dot(name, n - 1)
    }
}

/// The crate a flake builds: the stem of the flake's file name, or
/// `unknown`.
pub open spec fn flake_crate(flake_path: Seq<char>) -> Seq<char> {
    match path_file_name(flake_path) {
        Some(n) => stem_of(n),
        None => "unknown"@,
    }
}

fn stem(name: &str) -> (r: String)
    ensures
        r@ == stem_of(name@),
{
    let v = crate::text::chars_of(name);
    let mut i: usize = v.len();
    while i > 0
        invariant
            i <= v.len(),
            v@ == name@,
            last_dot(name@, name@.len() as int) == last_dot(name@, i as int),
        decreases i,
    {
        if v[i - 1] == '.' {
            if i - 1 == 0 {
                return owned(name);
            }
            return crate::text::string_of_range(&v, 0, i - 1);
        }
        i -= 1;
    }
    owned(name)
}

/// The crate a flake builds (`flake_crate`).
pub fn flake_crate_name(flake_path: &str) -> (r: String)
    ensures
        r@ == flake_crate(flake_path@),
{
    match file_name_of(flake_path) {
        Some(n) => stem(n.as_str()),
        None => owned("unknown"),
    }
}

/// The view of a build result whose ends are given.
pub open spec fn failed_result(
    crate_name: Seq<char>,
    message: Seq<char>,
    log: Seq<char>,
    deps: Seq<Seq<char>>,
    flake_path: Seq<char>,
    retryable: bool,
    build_time_ms: u64,
) -> (Seq<char>, bool, Option<(Seq<char>, Seq<char>, Seq<char>, Seq<Seq<char>>, Seq<char>, bool)>, u64, Seq<Seq<char>>) {
    (crate_name, false, Some((crate_name, message, log, deps, flake_path, retryable)), build_time_ms, deps)
}

/// The result of building the flake at `flake_path`, given how the build
/// command went.
pub open spec fn build_result_of(flake_path: Seq<char>, outcome: BuildOutcome, build_time_ms: u64) -> (
    Seq<char>,
    bool,
    Option<(Seq<char>, Seq<char>, Seq<char>, Seq<Seq<char>>, Seq<char>, bool)>,
    u64,
    Seq<Seq<char>>,
) {
    let c = flake_crate(flake_path);
    match outcome {
        BuildOutcome::NotStarted(e) => failed_result(
            c,
            "Failed to execute Nix command: "@ + e@,
            Seq::empty(),
            Seq::empty(),
            flake_path,
            true,
            build_time_ms,
        ),
        BuildOutcome::Finished { success, stderr } => if success {
            (c, true, None, build_time_ms, Seq::empty())
        } else {
            failed_result(
                c,
                error_message_of(stderr@),
                stderr@,
                dependency_pattern_matches(stderr@),
                flake_path,
                !non_retryable(stderr@),
                build_time_ms,
            )
        },
    }
}

/// A failed build's log can be cut where its error message is taken.
pub open spec fn outcome_ok(outcome: BuildOutcome) -> bool {
    match outcome {
        BuildOutcome::Finished { success, stderr } => !success ==> window_on_boundaries(stderr@),
        BuildOutcome::NotStarted(_) => true,
    }
}

impl ErrorToLLMPipeline {
    /// The result of building the flake at `flake_path`
    /// (`build_result_of`), given how the build command went and how long
    /// it took.
    pub fn build_single_package(&self, flake_path: &str, outcome: &BuildOutcome, build_time_ms: u64) -> (r: BuildResult)
        requires
            outcome_ok(*outcome),
        ensures
            result_view(r) == build_result_of(flake_path@, *outcome, build_time_ms),
    {
        let crate_name = flake_crate_name(flake_path);
        match outcome {
            BuildOutcome::NotStarted(e) => {
                let err = BuildError {
                    crate_name: crate_name.clone(),
                    error_message: cat("Failed to execute Nix command: ", e.as_str()),
                    build_log: String::new(),
                    dependencies: Vec::new(),
                    nix_flake_path: owned(flake_path),
                    is_retryable: true,
                };
                let r = BuildResult {
                    crate_name,
                    success: false,
                    error: Some(err),
                    build_time_ms,
                    dependencies: Vec::new(),
                };
                assert(views(r.dependencies@) =~= Seq::<Seq<char>>::empty());
                assert(views(err.dependencies@) =~= Seq::<Seq<char>>::empty());
                r
            },
            BuildOutcome::Finished { success, stderr } => {
                if *success {
                    let r = BuildResult {
                        crate_name,
                        success: true,
                        error: None,
                        build_time_ms,
                        dependencies: Vec::new(),
                    };
                    assert(views(r.dependencies@) =~= Seq::<Seq<char>>::empty());
                    r
                } else {
                    let message = extract_error_message(stderr.as_str());
                    let retryable = is_retryable_error(stderr.as_str());
                    let deps = extract_dependencies(stderr.as_str());
                    let err = BuildError {
                        crate_name: crate_name.clone(),
                        error_message: message,
                        build_log: stderr.clone(),
                        dependencies: copy_strings(&deps),
                        nix_flake_path: owned(flake_path),
                        is_retryable: retryable,
                    };
                    BuildResult { crate_name, success: false, error: Some(err), build_time_ms, dependencies: deps }
                }
            },
        }
    }

    /// Where the log of building `crate_name` is kept.
    pub fn log_path(&self, crate_name: &str) -> (r: String)
        ensures
            r@ == join_path(self.config.log_dir@, crate_name@ + ".log"@),
    {
        let f = cat(crate_name, ".log");
        path_join(self.config.log_dir.as_str(), f.as_str())
    }

    /// Adds build results after the earlier ones.
    pub fn add_build_results(&mut self, results: Vec<BuildResult>)
        ensures
            final(self).build_results@ == old(self).build_results@ + results@,
            final(self).config == old(self).config,
            final(self).dependency_graph == old(self).dependency_graph,
    {
        let mut results = results;
        self.build_results.append(&mut results);
    }
}

// ───────────────────────────── the report ──────────────────────────────

pub type ErrorView = (Seq<char>, Seq<char>, Seq<char>, Seq<Seq<char>>, Seq<char>, bool);

pub type ResultView = (Seq<char>, bool, Option<ErrorView>, u64, Seq<Seq<char>>);

/// The views of build results.
pub open spec fn result_views(rs: Seq<BuildResult>) -> Seq<ResultView> {
    rs.map_values(|r: BuildResult| result_view(r))
}

/// The failed builds, in order.
pub open spec fn failed_views(rs: Seq<ResultView>) -> Seq<ResultView>
    decreases rs.len(),
{
    if rs.len() == 0 {
        Seq::empty()
    } else {
        failed_views(rs.drop_last()) + if !rs.last().1 {
            seq![rs.last()]
        } else {
            Seq::empty()
        }
    }
}

/// The number of builds with a retryable error.
pub open spec fn retryable_count(fs: Seq<ResultView>) -> nat
    decreases fs.len(),
{
    if fs.len() == 0 {
        0
    } else {
        retryable_count(fs.drop_last()) + match fs.last().2 {
            Some(e) => if e.5 {
                1nat
            } else {
                0nat
            },
            None => 0nat,
        }
    }
}

/// The first 1000 bytes of a log (all of it when shorter).
pub open spec fn log_head(log: Seq<char>) -> Seq<char> {
    if encode_utf8(log).len() > 1000 {
        decode_utf8(encode_utf8(log).subrange(0, 1000))
    } else {
        log
    }
}

/// The log can be cut after 1000 bytes where it is longer.
pub open spec fn head_ok(log: Seq<char>) -> bool {
    encode_utf8(log).len() > 1000 ==> is_char_boundary(encode_utf8(log), 1000)
}

/// How a `bool` is written.
pub open spec fn bool_text(b: bool) -> Seq<char> {
    if b {
        "true"@
    } else {
        "false"@
    }
}

/// The section of the report on the `i`-th failed build.
pub open spec fn error_section(i: int, r: ResultView) -> Seq<Seq<char>> {
    match r.2 {
        Some(e) => seq![
            "## Error "@ + decimal((i + 1) as nat) + ": "@ + e.0 + "\n"@,
            "- **Error Message**: "@ + e.1 + "\n"@,
            "- **Dependencies**: "@ + (if e.3.len() == 0 {
                "None"@
            } else {
                join(e.3, ", "@)
            }) + "\n"@,
            "- **Retryable**: "@ + bool_text(e.5) + "\n"@,
            "- **Build Time**: "@ + decimal(r.3 as nat) + "ms\n"@,
            "- **Flake Path**: "@ + e.4 + "\n\n"@,
            "### Build Log (first 1000 chars):\n"@,
            "```\n"@,
            log_head(e.2),
            "```\n\n"@,
        ],
        None => Seq::empty(),
    }
}

/// The sections on the failed builds.
pub open spec fn error_sections(fs: Seq<ResultView>) -> Seq<Seq<char>>
    decreases fs.len(),
{
    if fs.len() == 0 {
        Seq::empty()
    } else {
        error_sections(fs.drop_last()) + error_section(fs.len() - 1, fs.last())
    }
}

/// The report of the failed builds for a language model: counts, a
/// section per failure with its log's first 1000 bytes, and a summary.
pub open spec fn llm_error_report(rs: Seq<ResultView>) -> Seq<char> {
    let fs = failed_views(rs);
    let rc = retryable_count(fs);
    if fs.len() == 0 {
        "All builds successful! No errors to report."@
    } else {
        concat(
            seq![
                "# Nix Build Error Report for LLM Analysis\n\n"@,
                "Total builds: "@ + decimal(rs.len()) + "\n"@,
                "Failed builds: "@ + decimal(fs.len()) + "\n"@,
                "Success rate: "@ + decimal(((rs.len() - fs.len()) * 100 / (rs.len() as int)) as nat) + "%\n\n"@,
            ] + error_sections(fs) + seq![
                "## Summary\n"@,
                "- Total failed builds: "@ + decimal(fs.len()) + "\n"@,
                "- Retryable errors: "@ + decimal(rc) + "\n"@,
                "- Non-retryable errors: "@ + decimal((fs.len() - rc) as nat) + "\n"@,
            ],
        )
    }
}

/// Every failed build's log can be cut after 1000 bytes.
pub open spec fn logs_ok(rs: Seq<ResultView>) -> bool {
    forall|i: int| 0 <= i < rs.len() && !(#[trigger] rs[i]).1 ==> (rs[i].2 matches Some(e) ==> head_ok(e.2))
}

proof fn lemma_failed_len(rs: Seq<ResultView>)
    ensures
        failed_views(rs).len() <= rs.len(),
        retryable_count(failed_views(rs)) <= failed_views(rs).len(),
    decreases rs.len(),
{
    if rs.len() > 0 {
        lemma_failed_len(rs.drop_last());
        lemma_retryable_le(failed_views(rs));
    }
}

proof fn lemma_failed_all_failed(rs: Seq<ResultView>)
    ensures
        forall|q: int| 0 <= q < failed_views(rs).len() ==> !(#[trigger] failed_views(rs)[q]).1,
    decreases rs.len(),
{
    if rs.len() > 0 {
        lemma_failed_all_failed(rs.drop_last());
        let a = failed_views(rs.drop_last());
        assert forall|q: int| 0 <= q < failed_views(rs).len() implies !(#[trigger] failed_views(rs)[q]).1 by {
            if q < a.len() {
                assert(failed_views(rs)[q] == a[q]);
            }
        }
    }
}

proof fn lemma_retryable_le(fs: Seq<ResultView>)
    ensures
        retryable_count(fs) <= fs.len(),
    decreases fs.len(),
{
    if fs.len() > 0 {
        lemma_retryable_le(fs.drop_last());
    }
}

fn log_head_text(log: &str) -> (r: String)
    requires
        head_ok(log@),
    ensures
        r@ == log_head(log@),
{
    let b = log.as_bytes();
    let n = b.len();
    if n > 1000 {
        proof {
            encode_utf8_valid_utf8(log@);
            is_char_boundary_start_end_of_seq(encode_utf8(log@));
        }
        owned(byte_slice(log, 0, 1000))
    } else {
        owned(log)
    }
}

impl ErrorToLLMPipeline {
    fn push_error_section(out: &mut Vec<String>, i: usize, r: &BuildResult)
        requires
            i < usize::MAX,
            r.error matches Some(e) ==> head_ok(e.build_log@),
        ensures
            views(final(out)@) == views(old(out)@) + error_section(i as int, result_view(*r)),
    {
        let ghost head = views(out@);
        match &r.error {
            Some(e) => {
                let idx = decimal_string(i + 1);
                let mut a = cat3("## Error ", idx.as_str(), ": ");
                push_str(&mut a, e.crate_name.as_str());
                push_str(&mut a, "\n");
                push_line(out, a);
                push_line(out, cat3("- **Error Message**: ", e.error_message.as_str(), "\n"));
                let deps = if e.dependencies.len() == 0 {
                    owned("None")
                } else {
                    join_strings(&e.dependencies, ", ")
                };
                push_line(out, cat3("- **Dependencies**: ", deps.as_str(), "\n"));
                push_line(out, cat3("- **Retryable**: ", if e.is_retryable { "true" } else { "false" }, "\n"));
                let t = decimal_string_u64(r.build_time_ms);
                push_line(out, cat3("- **Build Time**: ", t.as_str(), "ms\n"));
                push_line(out, cat3("- **Flake Path**: ", e.nix_flake_path.as_str(), "\n\n"));
                push_line(out, owned("### Build Log (first 1000 chars):\n"));
                push_line(out, owned("```\n"));
                push_line(out, log_head_text(e.build_log.as_str()));
                push_line(out, owned("```\n\n"));
            },
            None => {},
        }
        assert(views(out@) =~= head + error_section(i as int, result_view(*r)));
    }

    fn failed_positions(&self) -> (r: (Vec<usize>, usize))
        ensures
            r.0@.map_values(|k: usize| result_views(self.build_results@)[k as int]) == failed_views(
                result_views(self.build_results@),
            ),
            forall|q: int| 0 <= q < r.0.len() ==> (#[trigger] r.0@[q]) < self.build_results.len(),
            r.1 == retryable_count(failed_views(result_views(self.build_results@))),
    {
        let ghost rs = result_views(self.build_results@);
        let mut failed: Vec<usize> = Vec::new();
        let mut retryable: usize = 0;
        let mut i: usize = 0;
        while i < self.build_results.len()
            invariant
                i <= self.build_results.len(),
                rs == result_views(self.build_results@),
                failed@.map_values(|k: usize| rs[k as int]) == failed_views(rs.take(i as int)),
                forall|q: int| 0 <= q < failed.len() ==> (#[trigger] failed@[q]) < i,
                retryable == retryable_count(failed_views(rs.take(i as int))),
                retryable <= failed.len(),
                failed.len() <= i,
            decreases self.build_results.len() - i,
        {
            assert(rs.take(i + 1).drop_last() =~= rs.take(i as int));
            assert(rs.take(i + 1).last() == result_view(self.build_results@[i as int]));
            let r = &self.build_results[i];
            if !r.success {
                let ghost before = failed@;
                failed.push(i);
                assert(failed@.map_values(|k: usize| rs[k as int]) =~= before.map_values(|k: usize| rs[k as int]).push(
                    rs[i as int],
                ));
                let ghost fv = failed_views(rs.take(i + 1));
                assert(fv.drop_last() =~= failed_views(rs.take(i as int)));
                match &r.error {
                    Some(e) => {
                        if e.is_retryable {
                            retryable += 1;
                        }
                    },
                    None => {},
                }
            }
            i += 1;
        }
        assert(rs.take(i as int) =~= rs);
        (failed, retryable)
    }

    fn push_error_sections(&self, out: &mut Vec<String>, failed: &Vec<usize>)
        requires
            failed@.map_values(|k: usize| result_views(self.build_results@)[k as int]) == failed_views(
                result_views(self.build_results@),
            ),
            forall|q: int| 0 <= q < failed.len() ==> (#[trigger] failed@[q]) < self.build_results.len(),
            logs_ok(result_views(self.build_results@)),
        ensures
            views(final(out)@) == views(old(out)@) + error_sections(failed_views(result_views(self.build_results@))),
    {
        let ghost rs = result_views(self.build_results@);
        let ghost fs = failed_views(rs);
        proof {
            lemma_failed_all_failed(rs);
        }
        let ghost head = views(out@);
        let mut j: usize = 0;
        assert(fs.take(0) =~= Seq::<ResultView>::empty());
        assert(head + error_sections(fs.take(0)) =~= head);
        while j < failed.len()
            invariant
                j <= failed.len(),
                rs == result_views(self.build_results@),
                fs == failed_views(rs),
                failed@.map_values(|k: usize| rs[k as int]) == fs,
                forall|q: int| 0 <= q < failed.len() ==> (#[trigger] failed@[q]) < self.build_results.len(),
                forall|q: int| 0 <= q < fs.len() ==> !(#[trigger] fs[q]).1,
                logs_ok(rs),
                views(out@) == head + error_sections(fs.take(j as int)),
            decreases failed.len() - j,
        {
            let k = failed[j];
            let r = &self.build_results[k];
            assert(fs[j as int] == rs[k as int]);
            assert(rs[k as int] == result_view(*r));
            assert(!fs[j as int].1);
            Self::push_error_section(out, j, r);
            assert(fs.take(j + 1).drop_last() =~= fs.take(j as int));
            assert(views(out@) =~= head + error_sections(fs.take(j + 1)));
            j += 1;
        }
        assert(fs.take(j as int) =~= fs);
    }

    /// The report of the failed builds for a language model
    /// (`llm_error_report`).
    pub fn generate_llm_error_report(&self) -> (r: Result<String, String>)
        requires
            self.build_results.len() * 100 <= usize::MAX,
            logs_ok(result_views(self.build_results@)),
        ensures
            r matches Ok(t) && t@ == llm_error_report(result_views(self.build_results@)),
    {
        let ghost rs = result_views(self.build_results@);
        let ghost fs = failed_views(rs);
        let (failed, retryable) = self.failed_positions();
        assert(failed.len() == fs.len());
        if failed.len() == 0 {
            return Ok(owned("All builds successful! No errors to report."));
        }
        proof {
            lemma_failed_len(rs);
        }
        let n = self.build_results.len();
        let f = failed.len();
        let mut out: Vec<String> = Vec::new();
        push_line(&mut out, owned("# Nix Build Error Report for LLM Analysis\n\n"));
        let a = decimal_string(n);
        push_line(&mut out, cat3("Total builds: ", a.as_str(), "\n"));
        let b = decimal_string(f);
        push_line(&mut out, cat3("Failed builds: ", b.as_str(), "\n"));
        let rate = (n - f) * 100 / n;
        let c = decimal_string(rate);
        push_line(&mut out, cat3("Success rate: ", c.as_str(), "%\n\n"));
        let ghost head = views(out@);
        self.push_error_sections(&mut out, &failed);
        push_line(&mut out, owned("## Summary\n"));
        push_line(&mut out, cat3("- Total failed builds: ", b.as_str(), "\n"));
        let d = decimal_string(retryable);
        push_line(&mut out, cat3("- Retryable errors: ", d.as_str(), "\n"));
        let e = decimal_string(f - retryable);
        push_line(&mut out, cat3("- Non-retryable errors: ", e.as_str(), "\n"));
        assert(views(out@) =~= seq![
            "# Nix Build Error Report for LLM Analysis\n\n"@,
            "Total builds: "@ + decimal(rs.len()) + "\n"@,
            "Failed builds: "@ + decimal(fs.len()) + "\n"@,
            "Success rate: "@ + decimal(((rs.len() - fs.len()) * 100 / (rs.len() as int)) as nat) + "%\n\n"@,
        ] + error_sections(fs) + seq![
            "## Summary\n"@,
            "- Total failed builds: "@ + decimal(fs.len()) + "\n"@,
            "- Retryable errors: "@ + decimal(retryable_count(fs)) + "\n"@,
            "- Non-retryable errors: "@ + decimal((fs.len() - retryable_count(fs)) as nat) + "\n"@,
        ]);
        Ok(concat_strings(&out))
    }
}

} // verus!
