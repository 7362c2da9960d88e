//! Ingesting an existing tree of git submodules: which submodules the
//! `.gitmodules` file registers, the state of each (clean, dirty, missing),
//! its version and commit, the counts, and the lock file that records them.
//!
//! The caller reads the files and runs git; this module decides from what
//! came back.
use vstd::prelude::*;
use crate::config::{Config, WarmDir};
use crate::git_wrapper::GitOutput;
use crate::text::{cat, cat3, views, decimal, decimal_string, lines, owned, push_str, split_lines, str_eq, trim, trimmed};

verus! {

broadcast use vstd::string::group_string_axioms;

/// A section of the `.gitmodules` file as the git-config reader gives it:
/// its name, its subsection, and the `path`, `url` and `branch` values
/// that the reader returns for that section name and subsection.
pub struct ConfigSection {
    pub name: String,
    pub subsection: Option<String>,
    pub path: Option<String>,
    pub url: Option<String>,
    pub branch: Option<String>,
}

/// A submodule registered in `.gitmodules`.
pub struct SubmoduleRecord {
    pub name: String,
    pub path: String,
    pub url: String,
    pub branch: Option<String>,
}

/// A section's value, or the empty string.
pub open spec fn value_or_empty(v: Option<String>) -> Seq<char> {
    match v {
        Some(s) => s@,
        None => Seq::empty(),
    }
}

/// A section registers a submodule when it is a `submodule` section with a
/// path and a URL.
pub open spec fn registers(s: ConfigSection) -> bool {
    s.name@ == "submodule"@ && value_or_empty(s.path).len() > 0 && value_or_empty(s.url).len() > 0
}

/// The submodule a section registers.
pub open spec fn record_of(s: ConfigSection) -> (Seq<char>, Seq<char>, Seq<char>, Option<Seq<char>>) {
    (value_or_empty(s.subsection), value_or_empty(s.path), value_or_empty(s.url), s.branch.deep_view())
}

/// The submodules that the sections register, in order.
pub open spec fn registered(ss: Seq<ConfigSection>) -> Seq<(Seq<char>, Seq<char>, Seq<char>, Option<Seq<char>>)>
    decreases ss.len(),
{
    if ss.len() == 0 {
        Seq::empty()
    } else {
        registered(ss.drop_last()) + if registers(ss.last()) {
            seq![record_of(ss.last())]
        } else {
            Seq::empty()
        }
    }
}

/// The view of a record.
pub open spec fn record_view(r: SubmoduleRecord) -> (Seq<char>, Seq<char>, Seq<char>, Option<Seq<char>>) {
    (r.name@, r.path@, r.url@, r.branch.deep_view())
}

fn or_empty(v: &Option<String>) -> (r: String)
    ensures
        r@ == value_or_empty(*v),
{
    match v {
        Some(s) => s.clone(),
        None => String::new(),
    }
}

fn copy_opt(v: &Option<String>) -> (r: Option<String>)
    ensures
        r.deep_view() == v.deep_view(),
{
    match v {
        Some(s) => Some(s.clone()),
        None => None,
    }
}

/// The submodules registered by the sections of `.gitmodules`
/// (`registered`).
pub fn registered_submodules(sections: &Vec<ConfigSection>) -> (r: Vec<SubmoduleRecord>)
    ensures
        r@.map_values(|x: SubmoduleRecord| record_view(x)) == registered(sections@),
{
    let mut r: Vec<SubmoduleRecord> = Vec::new();
    let mut i: usize = 0;
    assert(sections@.take(0) =~= Seq::<ConfigSection>::empty());
    while i < sections.len()
        invariant
            i <= sections.len(),
            r@.map_values(|x: SubmoduleRecord| record_view(x)) == registered(sections@.take(i as int)),
        decreases sections.len() - i,
    {
        assert(sections@.take(i + 1).drop_last() =~= sections@.take(i as int));
        let s = &sections[i];
        let path = or_empty(&s.path);
        let url = or_empty(&s.url);
        if str_eq(s.name.as_str(), "submodule") && !path.as_str().is_empty() && !url.as_str().is_empty() {
            let rec = SubmoduleRecord { name: or_empty(&s.subsection), path, url, branch: copy_opt(&s.branch) };
            let ghost rv = record_view(rec);
            let ghost before = r@.map_values(|x: SubmoduleRecord| record_view(x));
            r.push(rec);
            assert(r@.map_values(|x: SubmoduleRecord| record_view(x)) =~= before.push(rv));
        }
        assert(r@.map_values(|x: SubmoduleRecord| record_view(x)) =~= registered(sections@.take(i + 1)));
        i += 1;
    }
    assert(sections@.take(i as int) =~= sections@);
    r
}

// ───────────────────────────── states ──────────────────────────────────

/// The state of a submodule's working tree.
pub enum GitState {
    /// Present, and its status was not asked for.
    Skipped,
    /// Present with no changes.
    Clean,
    /// Present with this many changed paths.
    Dirty(usize),
    /// Present, but git did not report its status.
    Unknown,
    /// Not present.
    Missing,
}

/// The state of a submodule: when status checks are skipped, only
/// whether it is there; otherwise from `git status --porcelain` (absent
/// when git could not be started), which lists one changed path per line.
pub open spec fn state_of(no_git_status: bool, exists: bool, status: Option<GitOutput>) -> GitState {
    if no_git_status {
        if exists {
            GitState::Skipped
        } else {
            GitState::Missing
        }
    } else if exists {
        match status {
            Some(o) => if o.success {
                if trim(o.stdout@).len() == 0 {
                    GitState::Clean
                } else {
                    GitState::Dirty(lines(o.stdout@).len() as usize)
                }
            } else {
                GitState::Unknown
            },
            None => GitState::Unknown,
        }
    } else {
        GitState::Missing
    }
}

/// How a state is shown.
pub open spec fn state_label(s: GitState) -> Seq<char> {
    match s {
        GitState::Skipped => "unknown (skipped)"@,
        GitState::Clean => "clean"@,
        GitState::Dirty(n) => "dirty ("@ + decimal(n as nat) + " changes)"@,
        GitState::Unknown => "unknown"@,
        GitState::Missing => "missing"@,
    }
}

/// Executable `state_of`.
pub fn git_state(no_git_status: bool, exists: bool, status: &Option<GitOutput>) -> (r: GitState)
    ensures
        r == state_of(no_git_status, exists, *status),
{
    if no_git_status {
        if exists {
            GitState::Skipped
        } else {
            GitState::Missing
        }
    } else if exists {
        match status {
            Some(o) => if o.success {
                let t = trimmed(o.stdout.as_str());
                if t.as_str().is_empty() {
                    GitState::Clean
                } else {
                    let ls = split_lines(o.stdout.as_str());
                    proof {
                        assert(ls@.map_values(|l: String| l@).len() == ls.len());
                    }
                    GitState::Dirty(ls.len())
                }
            } else {
                GitState::Unknown
            },
            None => GitState::Unknown,
        }
    } else {
        GitState::Missing
    }
}

/// Executable `state_label`.
pub fn state_text(s: &GitState) -> (r: String)
    ensures
        r@ == state_label(*s),
{
    match s {
        GitState::Skipped => owned("unknown (skipped)"),
        GitState::Clean => owned("clean"),
        GitState::Dirty(n) => {
            let d = decimal_string(*n);
            cat3("dirty (", d.as_str(), " changes)")
        },
        GitState::Unknown => owned("unknown"),
        GitState::Missing => owned("missing"),
    }
}

// ───────────────────────────── versions ────────────────────────────────

/// The `package.version` string of a manifest, as the `toml` crate reads
/// it.
pub uninterp spec fn toml_package_version(text: Seq<char>) -> Option<Seq<char>>;

/// Parses `text` as a TOML table with the `toml` crate and reads the
/// string `package.version`: `None` when the text does not parse or the
/// value is missing or not a string. The contract claims only that the
/// result is the named `toml_package_version` of the text.
#[verifier::external_body]
fn package_version(text: &str) -> (r: Option<String>)
    ensures
        r.deep_view() == toml_package_version(text@),
{
    let doc = text.parse::<toml::Table>().ok()?;
    doc.get("package")?.get("version")?.as_str().map(|s| s.to_string())
}

/// What was found about one submodule.
pub struct SubmoduleObservation {
    /// Its directory exists.
    pub exists: bool,
    /// The output of `git status --porcelain`, when it ran.
    pub status: Option<GitOutput>,
    /// The text of its `Cargo.toml`, when it could be read.
    pub manifest: Option<String>,
    pub cargo_toml_exists: bool,
    pub flake_nix_exists: bool,
    /// The output of `git rev-parse HEAD`, when it ran.
    pub head: Option<GitOutput>,
}

/// What the registry records of a submodule.
pub struct IngestedSubmodule {
    pub name: String,
    pub path: String,
    pub url: String,
    pub branch: Option<String>,
    pub version: String,
    pub git_status: String,
    pub current_commit: String,
    pub has_cargo_toml: bool,
    pub has_flake_nix: bool,
}

/// The version recorded: `N/A` for a missing submodule, else its
/// manifest's version or `unknown`.
pub open spec fn version_of(exists: bool, manifest: Option<Seq<char>>) -> Seq<char> {
    if !exists {
        "N/A"@
    } else {
        match manifest {
            Some(t) => match toml_package_version(t) {
                Some(v) => v,
                None => "unknown"@,
            },
            None => "unknown"@,
        }
    }
}

/// The commit recorded: `N/A` when status checks are skipped or the
/// submodule is missing or git could not run, else git's trimmed output.
pub open spec fn commit_of(no_git_status: bool, exists: bool, head: Option<GitOutput>) -> Seq<char> {
    if no_git_status || !exists {
        "N/A"@
    } else {
        match head {
            Some(o) => trim(o.stdout@),
            None => "N/A"@,
        }
    }
}

/// The view of an ingested submodule.
pub open spec fn ingested_view(s: IngestedSubmodule) -> (
    Seq<char>,
    Seq<char>,
    Seq<char>,
    Option<Seq<char>>,
    Seq<char>,
    Seq<char>,
    Seq<char>,
    bool,
    bool,
) {
    (s.name@, s.path@, s.url@, s.branch.deep_view(), s.version@, s.git_status@, s.current_commit@, s.has_cargo_toml, s.has_flake_nix)
}

/// What is recorded of a registered submodule given what was found.
pub open spec fn ingested_of(
    r: SubmoduleRecord,
    no_git_status: bool,
    o: SubmoduleObservation,
) -> (Seq<char>, Seq<char>, Seq<char>, Option<Seq<char>>, Seq<char>, Seq<char>, Seq<char>, bool, bool) {
    (
        r.name@,
        r.path@,
        r.url@,
        r.branch.deep_view(),
        version_of(o.exists, o.manifest.deep_view()),
        state_label(state_of(no_git_status, o.exists, o.status)),
        commit_of(no_git_status, o.exists, o.head),
        o.exists && o.cargo_toml_exists,
        o.exists && o.flake_nix_exists,
    )
}

/// Records one submodule (`ingested_of`) and gives its state.
pub fn ingest_submodule(r: &SubmoduleRecord, no_git_status: bool, o: &SubmoduleObservation) -> (res: (IngestedSubmodule, GitState))
    ensures
        ingested_view(res.0) == ingested_of(*r, no_git_status, *o),
        res.1 == state_of(no_git_status, o.exists, o.status),
{
    let state = git_state(no_git_status, o.exists, &o.status);
    let version = if !o.exists {
        owned("N/A")
    } else {
        match &o.manifest {
            Some(t) => match package_version(t.as_str()) {
                Some(v) => v,
                None => owned("unknown"),
            },
            None => owned("unknown"),
        }
    };
    let current_commit = if no_git_status || !o.exists {
        owned("N/A")
    } else {
        match &o.head {
            Some(h) => trimmed(h.stdout.as_str()),
            None => owned("N/A"),
        }
    };
    let s = IngestedSubmodule {
        name: r.name.clone(),
        path: r.path.clone(),
        url: r.url.clone(),
        branch: copy_opt(&r.branch),
        version,
        git_status: state_text(&state),
        current_commit,
        has_cargo_toml: o.exists && o.cargo_toml_exists,
        has_flake_nix: o.exists && o.flake_nix_exists,
    };
    (s, state)
}

// ───────────────────────────── summary ─────────────────────────────────

/// The counts of an ingest.
pub struct IngestSummary {
    pub total: usize,
    pub clean: usize,
    pub dirty: usize,
    pub missing: usize,
    pub has_cargo_toml: usize,
    pub has_flake_nix: usize,
}

/// Which count a state adds to: 0 clean (a skipped check counts as
/// clean), 1 dirty (an unknown status counts as dirty), 2 missing.
pub open spec fn state_class(s: GitState) -> int {
    match s {
        GitState::Skipped => 0,
        GitState::Clean => 0,
        GitState::Dirty(_) => 1,
        GitState::Unknown => 1,
        GitState::Missing => 2,
    }
}

/// The number of states in a class.
pub open spec fn count_class(ss: Seq<GitState>, c: int) -> nat
    decreases ss.len(),
{
    if ss.len() == 0 {
        0
    } else {
        count_class(ss.drop_last(), c) + if state_class(ss.last()) == c { 1nat } else { 0nat }
    }
}

/// The number of flags set.
pub open spec fn count_true(bs: Seq<bool>) -> nat
    decreases bs.len(),
{
    if bs.len() == 0 {
        0
    } else {
        count_true(bs.drop_last()) + if bs.last() { 1nat } else { 0nat }
    }
}

/// Every submodule is counted once as clean, dirty or missing.
pub proof fn lemma_classes_partition(ss: Seq<GitState>)
    ensures
        count_class(ss, 0) + count_class(ss, 1) + count_class(ss, 2) == ss.len(),
    decreases ss.len(),
{
    if ss.len() > 0 {
        lemma_classes_partition(ss.drop_last());
    }
}

/// The registry of an ingest: one record per registered submodule, in
/// order, given what was found for each, and the counts.
pub fn ingest_all(records: &Vec<SubmoduleRecord>, no_git_status: bool, found: &Vec<SubmoduleObservation>) -> (r: (
    Vec<IngestedSubmodule>,
    IngestSummary,
))
    requires
        found.len() == records.len(),
    ensures
        r.0.len() == records.len(),
        forall|k: int|
            0 <= k < records.len() ==> ingested_view(#[trigger] r.0@[k]) == ingested_of(records@[k], no_git_status, found@[k]),
        r.1.total == records.len(),
        r.1.clean == count_class(found@.map_values(|o: SubmoduleObservation| state_of(no_git_status, o.exists, o.status)), 0),
        r.1.dirty == count_class(found@.map_values(|o: SubmoduleObservation| state_of(no_git_status, o.exists, o.status)), 1),
        r.1.missing == count_class(found@.map_values(|o: SubmoduleObservation| state_of(no_git_status, o.exists, o.status)), 2),
        r.1.has_cargo_toml == count_true(found@.map_values(|o: SubmoduleObservation| o.exists && o.cargo_toml_exists)),
        r.1.has_flake_nix == count_true(found@.map_values(|o: SubmoduleObservation| o.exists && o.flake_nix_exists)),
        r.1.clean + r.1.dirty + r.1.missing == r.1.total,
{
    let ghost states = found@.map_values(|o: SubmoduleObservation| state_of(no_git_status, o.exists, o.status));
    let ghost cargos = found@.map_values(|o: SubmoduleObservation| o.exists && o.cargo_toml_exists);
    let ghost flakes = found@.map_values(|o: SubmoduleObservation| o.exists && o.flake_nix_exists);
    let mut out: Vec<IngestedSubmodule> = Vec::new();
    let mut clean: usize = 0;
    let mut dirty: usize = 0;
    let mut missing: usize = 0;
    let mut cargo: usize = 0;
    let mut flake: usize = 0;
    let mut i: usize = 0;
    while i < records.len()
        invariant
            i <= records.len(),
            found.len() == records.len(),
            out.len() == i,
            states == found@.map_values(|o: SubmoduleObservation| state_of(no_git_status, o.exists, o.status)),
            cargos == found@.map_values(|o: SubmoduleObservation| o.exists && o.cargo_toml_exists),
            flakes == found@.map_values(|o: SubmoduleObservation| o.exists && o.flake_nix_exists),
            forall|k: int| 0 <= k < i ==> ingested_view(#[trigger] out@[k]) == ingested_of(records@[k], no_git_status, found@[k]),
            clean == count_class(states.take(i as int), 0),
            dirty == count_class(states.take(i as int), 1),
            missing == count_class(states.take(i as int), 2),
            cargo == count_true(cargos.take(i as int)),
            flake == count_true(flakes.take(i as int)),
            clean + dirty + missing == i,
            cargo <= i,
            flake <= i,
        decreases records.len() - i,
    {
        assert(states.take(i + 1).drop_last() =~= states.take(i as int));
        assert(cargos.take(i + 1).drop_last() =~= cargos.take(i as int));
        assert(flakes.take(i + 1).drop_last() =~= flakes.take(i as int));
        let (s, st) = ingest_submodule(&records[i], no_git_status, &found[i]);
        match st {
            GitState::Skipped => {
                clean = clean + 1;
            },
            GitState::Clean => {
                clean = clean + 1;
            },
            GitState::Dirty(_) => {
                dirty = dirty + 1;
            },
            GitState::Unknown => {
                dirty = dirty + 1;
            },
            GitState::Missing => {
                missing = missing + 1;
            },
        }
        if s.has_cargo_toml {
            cargo = cargo + 1;
        }
        if s.has_flake_nix {
            flake = flake + 1;
        }
        out.push(s);
        i += 1;
    }
    assert(states.take(i as int) =~= states);
    assert(cargos.take(i as int) =~= cargos);
    assert(flakes.take(i as int) =~= flakes);
    (out, IngestSummary { total: records.len(), clean, dirty, missing, has_cargo_toml: cargo, has_flake_nix: flake })
}

// ───────────────────────────── lock file ───────────────────────────────

/// What a submodule's content id is computed from: its URL, branch
/// (`main` when none) and commit.
pub open spec fn cid_source(s: IngestedSubmodule) -> Seq<char> {
    s.url@ + ":"@ + (match s.branch {
        Some(b) => b@,
        None => "main"@,
    }) + ":"@ + s.current_commit@
}

/// The 64-bit FNV-1a hash of some bytes: from the offset basis, each byte
/// is xor-ed in and the hash multiplied by the FNV prime, modulo 2^64.
pub open spec fn fnv1a(bytes: Seq<u8>) -> u64
    decreases bytes.len(),
{
    if bytes.len() == 0 {
        0xcbf29ce484222325u64
    } else {
        vstd::wrapping::u64_specs::wrapping_mul(fnv1a(bytes.drop_last()) ^ (bytes.last() as u64), 0x100000001b3u64)
    }
}

/// A lower-case hexadecimal digit.
pub open spec fn hex_digit(d: u64) -> char {
    if d < 10 {
        ((d + 48) as u8) as char
    } else {
        ((d + 87) as u8) as char
    }
}

/// The sixteen hexadecimal digits of `h`, most significant first.
pub open spec fn hex16(h: u64) -> Seq<char> {
    Seq::new(16, |i: int| hex_digit((h >> ((60 - 4 * i) as u64)) & 0xfu64))
}

/// The content identifier of a text: the sixteen hexadecimal digits of the
/// FNV-1a hash of its UTF-8 bytes.
pub fn compute_cid(text: &str) -> (r: String)
    ensures
        r@ == hex16(fnv1a(vstd::utf8::encode_utf8(text@))),
{
    let b = text.as_bytes();
    let ghost bs = vstd::utf8::encode_utf8(text@);
    let mut h: u64 = 0xcbf29ce484222325u64;
    let mut i: usize = 0;
    assert(bs.take(0) =~= Seq::<u8>::empty());
    while i < b.len()
        invariant
            i <= b.len(),
            b@ == bs,
            h == fnv1a(bs.take(i as int)),
        decreases b.len() - i,
    {
        assert(bs.take(i + 1).drop_last() =~= bs.take(i as int));
        assert(bs.take(i + 1).last() == b@[i as int]);
        h = (h ^ (b[i] as u64)).wrapping_mul(0x100000001b3u64);
        i += 1;
    }
    assert(bs.take(i as int) =~= bs);
    let mut out = String::new();
    let mut k: u64 = 0;
    while k < 16
        invariant
            k <= 16,
            out@ == hex16(h).take(k as int),
        decreases 16 - k,
    {
        let sh: u64 = 60 - 4 * k;
        let d: u64 = (h >> sh) & 0xfu64;
        assert(d < 16) by (bit_vector)
            requires
                d == (h >> sh) & 0xfu64,
        ;
        assert(sh == ((60 - 4 * (k as int)) as u64));
        assert(hex16(h)[k as int] == hex_digit(d));
        let c: char = if d < 10 {
            ((d as u8) + 48) as char
        } else {
            ((d as u8) + 87) as char
        };
        assert(c == hex_digit(d));
        crate::text::push_char(&mut out, c);
        assert(hex16(h).take(k + 1) =~= hex16(h).take(k as int).push(hex16(h)[k as int]));
        k += 1;
    }
    assert(hex16(h).take(16) =~= hex16(h));
    out
}

/// Executable `cid_source`.
pub fn cid_input(s: &IngestedSubmodule) -> (r: String)
    ensures
        r@ == cid_source(*s),
{
    let mut r = cat(s.url.as_str(), ":");
    match &s.branch {
        Some(b) => push_str(&mut r, b.as_str()),
        None => push_str(&mut r, "main"),
    }
    push_str(&mut r, ":");
    push_str(&mut r, s.current_commit.as_str());
    r
}

/// The lock line of a submodule with its content id.
pub open spec fn lock_line(cid: Seq<char>, s: IngestedSubmodule) -> Seq<char> {
    cid + " "@ + s.name@ + " "@ + s.version@ + " "@ + s.git_status@ + " "@ + s.url@ + "\n"@
}

/// The lock lines of submodules with their content ids.
pub open spec fn lock_lines(cids: Seq<Seq<char>>, subs: Seq<IngestedSubmodule>) -> Seq<char>
    decreases subs.len(),
{
    if subs.len() == 0 || cids.len() < subs.len() {
        Seq::empty()
    } else {
        lock_lines(cids.take(subs.len() - 1), subs.drop_last()) + lock_line(cids[subs.len() - 1], subs.last())
    }
}

/// The lock file: a header with the count, then one line per submodule.
pub open spec fn lock_file(cids: Seq<Seq<char>>, subs: Seq<IngestedSubmodule>) -> Seq<char> {
    "# vendormod.lock \u{2014} CID-indexed submodule registry\n"@ + "# Generated by cargo-vendormod ingest\n"@ + "# Total: "@
        + decimal(subs.len()) + " submodules\n\n"@ + lock_lines(cids, subs)
}

/// The text of `vendormod.lock` (`lock_file`), given each submodule's
/// content id.
pub fn render_lock(subs: &Vec<IngestedSubmodule>, cids: &Vec<String>) -> (r: String)
    requires
        cids.len() == subs.len(),
    ensures
        r@ == lock_file(cids@.map_values(|c: String| c@), subs@),
{
    let ghost cv = cids@.map_values(|c: String| c@);
    let mut r = owned("# vendormod.lock \u{2014} CID-indexed submodule registry\n");
    push_str(&mut r, "# Generated by cargo-vendormod ingest\n");
    push_str(&mut r, "# Total: ");
    let n = decimal_string(subs.len());
    push_str(&mut r, n.as_str());
    push_str(&mut r, " submodules\n\n");
    let ghost head = r@;
    let mut i: usize = 0;
    assert(subs@.take(0) =~= Seq::<IngestedSubmodule>::empty());
    assert(head + lock_lines(cv.take(0), subs@.take(0)) =~= head);
    while i < subs.len()
        invariant
            i <= subs.len(),
            cids.len() == subs.len(),
            cv == cids@.map_values(|c: String| c@),
            r@ == head + lock_lines(cv.take(i as int), subs@.take(i as int)),
        decreases subs.len() - i,
    {
        let s = &subs[i];
        push_str(&mut r, cids[i].as_str());
        push_str(&mut r, " ");
        push_str(&mut r, s.name.as_str());
        push_str(&mut r, " ");
        push_str(&mut r, s.version.as_str());
        push_str(&mut r, " ");
        push_str(&mut r, s.git_status.as_str());
        push_str(&mut r, " ");
        push_str(&mut r, s.url.as_str());
        push_str(&mut r, "\n");
        assert(subs@.take(i + 1).drop_last() =~= subs@.take(i as int));
        assert(cv.take(i + 1).take(i as int) =~= cv.take(i as int));
        assert(cv.take(i + 1)[i as int] == cids@[i as int]@);
        i += 1;
    }
    assert(subs@.take(i as int) =~= subs@);
    assert(cv.take(i as int) =~= cv);
    r
}

// ───────────────────────────── warm state ──────────────────────────────

fn copy_strings(v: &Vec<String>) -> (r: Vec<String>)
    ensures
        views(r@) == views(v@),
{
    let mut r: Vec<String> = Vec::new();
    let mut i: usize = 0;
    while i < v.len()
        invariant
            i <= v.len(),
            views(r@) == views(v@).take(i as int),
        decreases v.len() - i,
    {
        let ghost b = r@;
        r.push(v[i].clone());
        assert(views(r@) =~= views(b).push(v@[i as int]@));
        assert(views(v@).take(i + 1) =~= views(v@).take(i as int).push(v@[i as int]@));
        i += 1;
    }
    assert(views(v@).take(i as int) =~= views(v@));
    r
}

/// Marks the warm directory `source_dir` of the configuration as warmed
/// at `now`; the other directories and settings are unchanged.
pub fn mark_warmed(config: &mut Config, source_dir: &str, now: &str)
    ensures
        final(config).warm_dirs.len() == old(config).warm_dirs.len(),
        forall|k: int|
            0 <= k < old(config).warm_dirs.len() ==> {
                let d = old(config).warm_dirs@[k];
                let e = #[trigger] final(config).warm_dirs@[k];
                &&& e.path@ == d.path@
                &&& e.prefix@ == d.prefix@
                &&& views(e.exts@) == views(d.exts@)
                &&& e.max_size == d.max_size
                &&& e.last_warmed.deep_view() == if d.path@ == source_dir@ {
                    Some(now@)
                } else {
                    d.last_warmed.deep_view()
                }
            },
        final(config).git_path == old(config).git_path,
        final(config).vendor_dir == old(config).vendor_dir,
        final(config).submodules_dir == old(config).submodules_dir,
        final(config).mirrors_dir == old(config).mirrors_dir,
        final(config).manifest_path == old(config).manifest_path,
        final(config).target_branch == old(config).target_branch,
        final(config).version_branch_format == old(config).version_branch_format,
        final(config).create_version_branches == old(config).create_version_branches,
        final(config).default_threads == old(config).default_threads,
        final(config).config_file == old(config).config_file,
{
    let n = config.warm_dirs.len();
    let mut dirs: Vec<WarmDir> = Vec::new();
    std::mem::swap(&mut dirs, &mut config.warm_dirs);
    let ghost orig = dirs@;
    let mut out: Vec<WarmDir> = Vec::new();
    let mut i: usize = 0;
    while i < n
        invariant
            i <= n,
            n == orig.len(),
            dirs@ == orig,
            out.len() == i,
            forall|k: int|
                0 <= k < i ==> {
                    let d = orig[k];
                    let e = #[trigger] out@[k];
                    &&& e.path@ == d.path@
                    &&& e.prefix@ == d.prefix@
                    &&& views(e.exts@) == views(d.exts@)
                    &&& e.max_size == d.max_size
                    &&& e.last_warmed.deep_view() == if d.path@ == source_dir@ {
                        Some(now@)
                    } else {
                        d.last_warmed.deep_view()
                    }
                },
        decreases n - i,
    {
        let d = &dirs[i];
        let last = if str_eq(d.path.as_str(), source_dir) {
            Some(owned(now))
        } else {
            copy_opt(&d.last_warmed)
        };
        let e = WarmDir {
            path: d.path.clone(),
            prefix: d.prefix.clone(),
            exts: copy_strings(&d.exts),
            max_size: d.max_size,
            last_warmed: last,
        };
        out.push(e);
        i += 1;
    }
    config.warm_dirs = out;
}

} // verus!
