//! Flake coverage: which target projects have a Nix flake yet.
//!
//! The targets are the CBOR libraries, fuzz tools and test suites that
//! must all get a flake. Each is classified by the files found in its
//! flake directory: both `flake.nix` and `flake.lock` (complete), only
//! `flake.nix` (partial), or neither (missing).
use vstd::prelude::*;
use crate::text::owned;

verus! {

/// The kind of a target project.
#[derive(PartialEq, Eq, Structural, Clone, Copy, Debug)]
pub enum ProjectCategory {
    /// A project buildable through its flake.
    MainProject,
    /// A CBOR/IPLD serialisation library.
    CborLib,
    /// A fuzzing harness or tool.
    FuzzTool,
    /// A conformance test suite or fixtures.
    TestSuite,
}

impl ProjectCategory {
    /// The label shown for the category.
    pub fn to_string(&self) -> (r: String)
        ensures
            r@ == category_label(*self),
    {
        match self {
            ProjectCategory::MainProject => owned("Main Project"),
            ProjectCategory::CborLib => owned("CBOR Lib"),
            ProjectCategory::FuzzTool => owned("Fuzz Tool"),
            ProjectCategory::TestSuite => owned("Test Suite"),
        }
    }
}

/// The label of a category.
pub open spec fn category_label(c: ProjectCategory) -> Seq<char> {
    match c {
        ProjectCategory::MainProject => "Main Project"@,
        ProjectCategory::CborLib => "CBOR Lib"@,
        ProjectCategory::FuzzTool => "Fuzz Tool"@,
        ProjectCategory::TestSuite => "Test Suite"@,
    }
}

/// A project expected to have a flake.
pub struct TargetProject {
    pub name: String,
    pub category: ProjectCategory,
    /// Where its sources come from.
    pub source: String,
    /// Its directory under the flakes root.
    pub flake_dir: String,
    pub has_flake_nix: bool,
    pub has_flake_lock: bool,
}

/// A target as `(name, category, source, flake directory)`.
pub open spec fn target_view(t: TargetProject) -> (Seq<char>, ProjectCategory, Seq<char>, Seq<char>) {
    (t.name@, t.category, t.source@, t.flake_dir@)
}

/// The targets, in report order.
pub open spec fn target_table() -> Seq<(Seq<char>, ProjectCategory, Seq<char>, Seq<char>)> {
    seq![
        ("dasl"@, ProjectCategory::MainProject, "n0-computer/dasl"@, "dasl"@),
        ("ipld-core"@, ProjectCategory::CborLib, "ipld/rust-ipld-core"@, "ipld-core"@),
        ("serde_ipld_dagcbor"@, ProjectCategory::CborLib, "ipld/serde_ipld_dagcbor"@, "serde_ipld_dagcbor"@),
        ("libipld (w/ fuzz)"@, ProjectCategory::CborLib, "ipld/libipld"@, "libipld"@),
        ("ipld-dagpb"@, ProjectCategory::CborLib, "ipld/rust-ipld-dagpb"@, "rust-ipld-dagpb"@),
        ("serde_cbor (pyfisch)"@, ProjectCategory::CborLib, "pyfisch/cbor"@, "pyfisch-cbor"@),
        ("libipld-fuzz"@, ProjectCategory::FuzzTool, "ipld/libipld (fuzz/ dir)"@, "libipld-fuzz"@),
        ("codec-fixtures"@, ProjectCategory::TestSuite, "ipld/codec-fixtures"@, "codec-fixtures"@),
        ("specs"@, ProjectCategory::TestSuite, "ipld/specs"@, "specs"@),
    ]
}

fn target(name: &str, category: ProjectCategory, source: &str, flake_dir: &str) -> (t: TargetProject)
    ensures
        target_view(t) == (name@, category, source@, flake_dir@),
        !t.has_flake_nix,
        !t.has_flake_lock,
{
    TargetProject {
        name: owned(name),
        category,
        source: owned(source),
        flake_dir: owned(flake_dir),
        has_flake_nix: false,
        has_flake_lock: false,
    }
}

/// All projects that must get a flake: nine targets, none found yet.
pub fn target_projects() -> (r: Vec<TargetProject>)
    ensures
        r@.map_values(|t: TargetProject| target_view(t)) == target_table(),
        forall|i: int| 0 <= i < r.len() ==> !(#[trigger] r@[i]).has_flake_nix && !r@[i].has_flake_lock,
{
    let mut r: Vec<TargetProject> = Vec::new();
    r.push(target("dasl", ProjectCategory::MainProject, "n0-computer/dasl", "dasl"));
    r.push(target("ipld-core", ProjectCategory::CborLib, "ipld/rust-ipld-core", "ipld-core"));
    r.push(
        target("serde_ipld_dagcbor", ProjectCategory::CborLib, "ipld/serde_ipld_dagcbor", "serde_ipld_dagcbor"),
    );
    r.push(target("libipld (w/ fuzz)", ProjectCategory::CborLib, "ipld/libipld", "libipld"));
    r.push(target("ipld-dagpb", ProjectCategory::CborLib, "ipld/rust-ipld-dagpb", "rust-ipld-dagpb"));
    r.push(target("serde_cbor (pyfisch)", ProjectCategory::CborLib, "pyfisch/cbor", "pyfisch-cbor"));
    r.push(target("libipld-fuzz", ProjectCategory::FuzzTool, "ipld/libipld (fuzz/ dir)", "libipld-fuzz"));
    r.push(target("codec-fixtures", ProjectCategory::TestSuite, "ipld/codec-fixtures", "codec-fixtures"));
    r.push(target("specs", ProjectCategory::TestSuite, "ipld/specs", "specs"));
    assert(r@.map_values(|t: TargetProject| target_view(t)) =~= target_table());
    r
}

// ───────────────────────────── classification ──────────────────────────

/// How far a project's flake is.
#[derive(PartialEq, Eq, Structural, Clone, Copy, Debug)]
pub enum ProjectFlakeStatus {
    /// Both `flake.nix` and `flake.lock`.
    Complete,
    /// `flake.nix` without `flake.lock`.
    Partial,
    /// No `flake.nix`.
    Missing,
}

impl ProjectFlakeStatus {
    /// The label shown for the status.
    pub fn to_string(&self) -> (r: String)
        ensures
            r@ == status_label(*self),
    {
        match self {
            ProjectFlakeStatus::Complete => owned("✅ Complete"),
            ProjectFlakeStatus::Partial => owned("⚠ Partial"),
            ProjectFlakeStatus::Missing => owned("❌ Missing"),
        }
    }
}

/// The label of a status.
pub open spec fn status_label(s: ProjectFlakeStatus) -> Seq<char> {
    match s {
        ProjectFlakeStatus::Complete => "✅ Complete"@,
        ProjectFlakeStatus::Partial => "⚠ Partial"@,
        ProjectFlakeStatus::Missing => "❌ Missing"@,
    }
}

/// The status of a project with or without `flake.nix` and `flake.lock`.
pub open spec fn flake_status(has_nix: bool, has_lock: bool) -> ProjectFlakeStatus {
    if has_nix && has_lock {
        ProjectFlakeStatus::Complete
    } else if has_nix {
        ProjectFlakeStatus::Partial
    } else {
        ProjectFlakeStatus::Missing
    }
}

/// Classifies a project by the flake files found.
pub fn classify(has_nix: bool, has_lock: bool) -> (s: ProjectFlakeStatus)
    ensures
        s == flake_status(has_nix, has_lock),
{
    if has_nix && has_lock {
        ProjectFlakeStatus::Complete
    } else if has_nix {
        ProjectFlakeStatus::Partial
    } else {
        ProjectFlakeStatus::Missing
    }
}

/// One target's status.
pub struct ProjectStatus {
    pub name: String,
    pub category: ProjectCategory,
    pub source: String,
    pub status: ProjectFlakeStatus,
}

/// The counts of a coverage scan.
pub struct CoverageCounts {
    pub total: usize,
    pub complete: usize,
    pub partial: usize,
    pub missing: usize,
}

/// The number of `(flake.nix, flake.lock)` findings with this status.
pub open spec fn count_status(found: Seq<(bool, bool)>, s: ProjectFlakeStatus) -> nat
    decreases found.len(),
{
    if found.len() == 0 {
        0
    } else {
        count_status(found.drop_last(), s) + (if flake_status(found.last().0, found.last().1) == s {
            1nat
        } else {
            0nat
        })
    }
}

/// The counts always add up to the total.
pub proof fn lemma_status_partition(found: Seq<(bool, bool)>)
    ensures
        count_status(found, ProjectFlakeStatus::Complete) + count_status(found, ProjectFlakeStatus::Partial)
            + count_status(found, ProjectFlakeStatus::Missing) == found.len(),
    decreases found.len(),
{
    if found.len() > 0 {
        lemma_status_partition(found.drop_last());
    }
}

/// The statuses of the targets, given for each (in `target_projects`
/// order) whether `flake.nix` and `flake.lock` were found in its flake
/// directory; a target with no finding counts as having neither.
pub fn flake_coverage(found: &Vec<(bool, bool)>) -> (r: (Vec<ProjectStatus>, CoverageCounts))
    ensures
        r.0.len() == 9,
        forall|i: int|
            0 <= i < 9 ==> {
                let t = target_table()[i];
                let f = if i < found.len() { found@[i] } else { (false, false) };
                &&& (#[trigger] r.0@[i]).name@ == t.0
                &&& r.0@[i].category == t.1
                &&& r.0@[i].source@ == t.2
                &&& r.0@[i].status == flake_status(f.0, f.1)
            },
        r.1.total == 9,
        r.1.complete == count_status(pad_findings(found@), ProjectFlakeStatus::Complete),
        r.1.partial == count_status(pad_findings(found@), ProjectFlakeStatus::Partial),
        r.1.missing == count_status(pad_findings(found@), ProjectFlakeStatus::Missing),
        r.1.complete + r.1.partial + r.1.missing == r.1.total,
{
    let targets = target_projects();
    let ghost tv = targets@.map_values(|t: TargetProject| target_view(t));
    let ghost pf = pad_findings(found@);
    let mut projects: Vec<ProjectStatus> = Vec::new();
    let mut complete: usize = 0;
    let mut partial: usize = 0;
    let mut missing: usize = 0;
    assert(tv.len() == targets.len());
    assert(target_table().len() == 9);
    for i in 0..targets.len()
        invariant
            targets.len() == 9,
            tv == targets@.map_values(|t: TargetProject| target_view(t)),
            tv == target_table(),
            pf == pad_findings(found@),
            projects.len() == i,
            forall|k: int|
                0 <= k < i ==> {
                    let t = target_table()[k];
                    let f = if k < found.len() { found@[k] } else { (false, false) };
                    &&& (#[trigger] projects@[k]).name@ == t.0
                    &&& projects@[k].category == t.1
                    &&& projects@[k].source@ == t.2
                    &&& projects@[k].status == flake_status(f.0, f.1)
                },
            complete == count_status(pf.take(i as int), ProjectFlakeStatus::Complete),
            partial == count_status(pf.take(i as int), ProjectFlakeStatus::Partial),
            missing == count_status(pf.take(i as int), ProjectFlakeStatus::Missing),
            complete + partial + missing == i,
    {
        let (has_nix, has_lock) = if i < found.len() {
            found[i]
        } else {
            (false, false)
        };
        let status = classify(has_nix, has_lock);
        proof {
            assert(pf.take(i + 1).drop_last() =~= pf.take(i as int));
            assert(pf[i as int] == (has_nix, has_lock));
            lemma_status_partition(pf.take(i as int));
        }
        match status {
            ProjectFlakeStatus::Complete => {
                complete += 1;
            },
            ProjectFlakeStatus::Partial => {
                partial += 1;
            },
            ProjectFlakeStatus::Missing => {
                missing += 1;
            },
        }
        assert(tv[i as int] == target_view(targets@[i as int]));
        projects.push(
            ProjectStatus {
                name: targets[i].name.clone(),
                category: targets[i].category,
                source: targets[i].source.clone(),
                status,
            },
        );
    }
    assert(pf.take(9) =~= pf);
    (projects, CoverageCounts { total: 9, complete, partial, missing })
}

/// The findings for the nine targets: those given, then `(false, false)`.
pub open spec fn pad_findings(found: Seq<(bool, bool)>) -> Seq<(bool, bool)> {
    Seq::new(9, |i: int| if i < found.len() { found[i] } else { (false, false) })
}

} // verus!
