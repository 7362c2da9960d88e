//! Monolith split: decomposing one Rust crate into workspace sub-crates.
//!
//! A split plan names the sub-crates and the modules each one takes. This
//! module holds the plan, checks it, groups a monolith's modules into
//! suggested sub-crates by their name prefixes, and renders the files of
//! the resulting workspace.
use vstd::prelude::*;
use crate::order::{less_than, str_less, strictly_sorted, lemma_less_total, lemma_less_transitive, lemma_less_irreflexive};
use crate::path::{join_path, path_join};
use crate::text::{has_prefix, owned, str_eq, starts_with, views};

verus! {

// ───────────────────────────── plan types ──────────────────────────────

/// `[workspace]` metadata of a split plan.
pub struct WorkspaceMeta {
    pub name: String,
    pub version: String,
    /// `2021` when the plan does not say.
    pub edition: String,
    pub description: String,
    pub license: String,
    pub repository: String,
    pub readme: String,
}

/// A module compiled only under a feature.
pub struct FeatureGatedModule {
    pub module: String,
    pub feature: String,
}

/// One sub-crate of a split plan.
pub struct CrateDef {
    pub name: String,
    /// File modules to move (names without `.rs`).
    pub modules: Vec<String>,
    /// Directory modules to move (whole directories).
    pub dir_modules: Vec<String>,
    /// Workspace crates this one depends on.
    pub depends_on: Vec<String>,
    /// crates.io dependencies `(name, version)`, ordered by name.
    pub external_deps: Vec<(String, String)>,
    /// Features `(name, enabled features)`, ordered by name.
    pub features: Vec<(String, Vec<String>)>,
    /// Dependency lines written verbatim.
    pub raw_deps: Vec<String>,
    pub feature_gated: Vec<FeatureGatedModule>,
}

/// A split plan.
pub struct SplitPlan {
    pub workspace: WorkspaceMeta,
    pub crates: Vec<CrateDef>,
    /// Crate names that exist outside the split.
    pub external_deps: Vec<String>,
}

/// The edition used when a plan names none.
pub fn default_edition() -> (r: String)
    ensures
        r@ == "2021"@,
{
    owned("2021")
}

/// A plan together with the directory it applies to.
pub struct SplitContext {
    pub root_dir: String,
    pub src_dir: String,
    pub dry_run: bool,
    pub plan: SplitPlan,
}

impl SplitContext {
    /// The context for splitting the crate at `root_dir`; its sources are
    /// in `root_dir/src`.
    pub fn new(root_dir: String, plan: SplitPlan, dry_run: bool) -> (r: Self)
        ensures
            r.root_dir@ == root_dir@,
            r.src_dir@ == join_path(root_dir@, "src"@),
            r.dry_run == dry_run,
            r.plan == plan,
    {
        let src_dir = path_join(root_dir.as_str(), "src");
        SplitContext { root_dir, src_dir, dry_run, plan }
    }

    /// The directory of the sub-crate `name`.
    pub fn crate_dir(&self, name: &str) -> (r: String)
        ensures
            r@ == join_path(self.root_dir@, name@),
    {
        path_join(self.root_dir.as_str(), name)
    }

    /// The source directory of the sub-crate `name`.
    pub fn crate_src_dir(&self, name: &str) -> (r: String)
        ensures
            r@ == join_path(join_path(self.root_dir@, name@), "src"@),
    {
        let d = self.crate_dir(name);
        path_join(d.as_str(), "src")
    }
}

// ───────────────────────────── validation ──────────────────────────────

/// Why a split plan is refused.
pub enum PlanError {
    /// The plan defines no crate.
    NoCrates,
    /// Two crates share this name.
    DuplicateCrate(String),
}

impl PlanError {
    /// The message shown for the error.
    pub fn message(&self) -> (r: String)
        ensures
            r@ == plan_error_message(*self),
    {
        match self {
            PlanError::NoCrates => owned("Plan contains no crate definitions"),
            PlanError::DuplicateCrate(n) => {
                let mut m = owned("Duplicate crate name: ");
                m.append(n.as_str());
                m
            },
        }
    }
}

/// The message of a plan error.
pub open spec fn plan_error_message(e: PlanError) -> Seq<char> {
    match e {
        PlanError::NoCrates => "Plan contains no crate definitions"@,
        PlanError::DuplicateCrate(n) => "Duplicate crate name: "@ + n@,
    }
}

/// The crate names of a plan, in order.
pub open spec fn crate_names(crates: Seq<CrateDef>) -> Seq<Seq<char>> {
    crates.map_values(|c: CrateDef| c.name@)
}

/// `names[j]` also occurs before position `j`.
pub open spec fn repeats_earlier(names: Seq<Seq<char>>, j: int) -> bool {
    exists|i: int| 0 <= i < j && names[i] == names[j]
}

/// Checks a plan: it defines at least one crate and no crate name twice.
/// The duplicate reported is the first name that repeats an earlier one.
pub fn validate_plan(plan: &SplitPlan) -> (r: Result<(), PlanError>)
    ensures
        plan.crates.len() == 0 ==> (r matches Err(PlanError::NoCrates)),
        plan.crates.len() > 0 ==> match r {
            Ok(()) => forall|j: int|
                0 <= j < plan.crates.len() ==> !repeats_earlier(crate_names(plan.crates@), j),
            Err(PlanError::DuplicateCrate(n)) => exists|j: int|
                0 <= j < plan.crates.len() && repeats_earlier(crate_names(plan.crates@), j) && n@
                    == crate_names(plan.crates@)[j] && forall|k: int|
                    0 <= k < j ==> !repeats_earlier(crate_names(plan.crates@), k),
            Err(PlanError::NoCrates) => false,
        },
{
    if plan.crates.len() == 0 {
        return Err(PlanError::NoCrates);
    }
    let ghost names = crate_names(plan.crates@);
    let mut j: usize = 0;
    while j < plan.crates.len()
        invariant
            j <= plan.crates.len(),
            names == crate_names(plan.crates@),
            forall|k: int| 0 <= k < j ==> !repeats_earlier(names, k),
        decreases plan.crates.len() - j,
    {
        let mut i: usize = 0;
        while i < j
            invariant
                i <= j < plan.crates.len(),
                names == crate_names(plan.crates@),
                forall|k: int| 0 <= k < i ==> names[k] != names[j as int],
                forall|k: int| 0 <= k < j ==> !repeats_earlier(names, k),
            decreases j - i,
        {
            if str_eq(plan.crates[i].name.as_str(), plan.crates[j].name.as_str()) {
                assert(names[i as int] == names[j as int]);
                assert(repeats_earlier(names, j as int));
                return Err(PlanError::DuplicateCrate(plan.crates[j].name.clone()));
            }
            i += 1;
        }
        j += 1;
    }
    Ok(())
}

// ───────────────────────────── grouping ────────────────────────────────

/// The module-name prefixes that suggest a sub-crate, in the order they
/// are tried: `(prefix, sub-crate)`.
pub open spec fn prefix_table() -> Seq<(Seq<char>, Seq<char>)> {
    seq![
        ("extension_"@, "extensions"@),
        ("extension"@, "extensions"@),
        ("hostcall_"@, "hostcall"@),
        ("hostcall"@, "hostcall"@),
        ("session_"@, "session"@),
        ("session"@, "session"@),
        ("swarm_"@, "swarm"@),
        ("swarm"@, "swarm"@),
        ("conformance_"@, "conformance"@),
        ("conformance"@, "conformance"@),
        ("model_"@, "models"@),
        ("model"@, "models"@),
        ("provider_"@, "providers"@),
        ("provider"@, "providers"@),
        ("interactive"@, "interactive"@),
        ("connector"@, "connectors"@),
        ("auth"@, "auth"@),
        ("cli"@, "cli"@),
        ("agent"@, "agent"@),
        ("compaction"@, "compaction"@),
        ("config"@, "traits"@),
        ("error"@, "traits"@),
        ("sdk"@, "traits"@),
        ("crypto"@, "crypto"@),
        ("tool"@, "tools"@),
        ("tui"@, "interactive"@),
        ("theme"@, "interactive"@),
        ("keybindings"@, "interactive"@),
        ("terminal"@, "interactive"@),
        ("vcr"@, "vcr"@),
        ("scheduler"@, "scheduler"@),
        ("resource"@, "scheduler"@),
        ("permission"@, "permissions"@),
        ("validation"@, "permissions"@),
        ("rpc"@, "rpc"@),
        ("autocomplete"@, "autocomplete"@),
        ("doctor"@, "doctor"@),
        ("migration"@, "agent"@),
        ("package"@, "agent"@),
        ("platform"@, "agent"@),
        ("semantic"@, "agent"@),
        ("version"@, "agent"@),
        ("flake"@, "agent"@),
        ("buffer"@, "agent"@),
        ("acp"@, "agent"@),
        ("perf"@, "zkperf"@),
        ("wasm"@, "wasm"@),
        ("pi_wasm"@, "wasm"@),
        ("http"@, "http"@),
        ("sse"@, "providers"@),
    ]
}

/// The views of a table of string pairs.
pub open spec fn table_view(t: Seq<(&str, &str)>) -> Seq<(Seq<char>, Seq<char>)> {
    t.map_values(|p: (&str, &str)| (p.0@, p.1@))
}

/// The group of the first table row whose prefix starts `m`; `misc` when
/// none does.
pub open spec fn group_in(table: Seq<(Seq<char>, Seq<char>)>, m: Seq<char>) -> Seq<char>
    decreases table.len(),
{
    if table.len() == 0 {
        "misc"@
    } else if starts_with(m, table[0].0) {
        table[0].1
    } else {
        group_in(table.drop_first(), m)
    }
}

/// The sub-crate a module is suggested for.
pub open spec fn module_group(m: Seq<char>) -> Seq<char> {
    group_in(prefix_table(), m)
}

/// The modules of `mods` suggested for the sub-crate `g`, in order.
pub open spec fn in_group(mods: Seq<Seq<char>>, g: Seq<char>) -> Seq<Seq<char>>
    decreases mods.len(),
{
    if mods.len() == 0 {
        seq![]
    } else if module_group(mods.last()) == g {
        in_group(mods.drop_last(), g).push(mods.last())
    } else {
        in_group(mods.drop_last(), g)
    }
}

/// The modules of the groups `gs`, one group after the other.
pub open spec fn grouped_modules(mods: Seq<Seq<char>>, gs: Seq<Seq<char>>) -> Seq<Seq<char>>
    decreases gs.len(),
{
    if gs.len() == 0 {
        seq![]
    } else {
        grouped_modules(mods, gs.drop_last()) + in_group(mods, gs.last())
    }
}

proof fn lemma_grouped_none(gs: Seq<Seq<char>>)
    ensures
        grouped_modules(Seq::empty(), gs) =~= Seq::<Seq<char>>::empty(),
    decreases gs.len(),
{
    if gs.len() > 0 {
        lemma_grouped_none(gs.drop_last());
    }
}

proof fn lemma_grouped_push(mods: Seq<Seq<char>>, m: Seq<char>, gs: Seq<Seq<char>>)
    requires
        gs.no_duplicates(),
    ensures
        grouped_modules(mods.push(m), gs).to_multiset() =~= (if gs.contains(module_group(m)) {
            grouped_modules(mods, gs).to_multiset().insert(m)
        } else {
            grouped_modules(mods, gs).to_multiset()
        }),
    decreases gs.len(),
{
    broadcast use vstd::seq_lib::group_to_multiset_ensures;
    if gs.len() > 0 {
        let g = gs.last();
        let init = gs.drop_last();
        assert(init.no_duplicates());
        lemma_grouped_push(mods, m, init);
        assert(mods.push(m).drop_last() =~= mods);
        assert(mods.push(m).last() == m);
        vstd::seq_lib::lemma_multiset_commutative(grouped_modules(mods.push(m), init), in_group(mods.push(m), g));
        vstd::seq_lib::lemma_multiset_commutative(grouped_modules(mods, init), in_group(mods, g));
        if g == module_group(m) {
            assert(!init.contains(g)) by {
                if init.contains(g) {
                    let k = choose|k: int| 0 <= k < init.len() && init[k] == g;
                    assert(gs[k] == gs[gs.len() - 1]);
                }
            }
        }
        assert(gs.contains(module_group(m)) <==> (init.contains(module_group(m)) || g == module_group(m))) by {
            if gs.contains(module_group(m)) && g != module_group(m) {
                let k = choose|k: int| 0 <= k < gs.len() && gs[k] == module_group(m);
                assert(init[k] == gs[k]);
            }
            if init.contains(module_group(m)) {
                let k = choose|k: int| 0 <= k < init.len() && init[k] == module_group(m);
                assert(gs[k] == init[k]);
            }
        }
    }
}

/// Grouping keeps every module, once: given distinct group names that
/// include the group of each module, the groups' modules, one group after
/// the other, are a permutation of the modules.
pub proof fn lemma_grouping_permutation(mods: Seq<Seq<char>>, gs: Seq<Seq<char>>)
    requires
        gs.no_duplicates(),
        forall|i: int| 0 <= i < mods.len() ==> gs.contains(module_group(#[trigger] mods[i])),
    ensures
        grouped_modules(mods, gs).to_multiset() =~= mods.to_multiset(),
    decreases mods.len(),
{
    broadcast use vstd::seq_lib::group_to_multiset_ensures;
    if mods.len() == 0 {
        lemma_grouped_none(gs);
        assert(mods =~= Seq::<Seq<char>>::empty());
    } else {
        let init = mods.drop_last();
        let m = mods.last();
        assert forall|i: int| 0 <= i < init.len() implies gs.contains(module_group(#[trigger] init[i])) by {
            assert(init[i] == mods[i]);
        }
        lemma_grouping_permutation(init, gs);
        assert(init.push(m) =~= mods);
        assert(gs.contains(module_group(mods[mods.len() - 1])));
        lemma_grouped_push(init, m, gs);
    }
}

/// Strictly sorted names are distinct.
pub proof fn lemma_sorted_names_distinct(names: Seq<Seq<char>>)
    requires
        strictly_sorted(names),
    ensures
        names.no_duplicates(),
{
    assert forall|i: int, j: int| 0 <= i < names.len() && 0 <= j < names.len() && i != j implies names[i] != names[j] by {
        if i < j {
            assert(str_less(names[i], names[j]));
            crate::order::lemma_less_irreflexive(names[i]);
        } else {
            assert(str_less(names[j], names[i]));
            crate::order::lemma_less_irreflexive(names[j]);
        }
    }
}

/// A module lies in the group of its own name: no group that a module
/// names is empty.
pub proof fn lemma_in_own_group(mods: Seq<Seq<char>>, i: int)
    requires
        0 <= i < mods.len(),
    ensures
        in_group(mods, module_group(mods[i])).contains(mods[i]),
    decreases mods.len(),
{
    if i < mods.len() - 1 {
        lemma_in_own_group(mods.drop_last(), i);
        assert(mods.drop_last()[i] == mods[i]);
        let g = module_group(mods[i]);
        let k = choose|k: int| 0 <= k < in_group(mods.drop_last(), g).len() && in_group(mods.drop_last(), g)[k] == mods[i];
        if module_group(mods.last()) == g {
            assert(in_group(mods, g)[k] == mods[i]);
        }
    } else {
        let g = module_group(mods[i]);
        assert(in_group(mods, g) == in_group(mods.drop_last(), g).push(mods.last()));
        assert(in_group(mods, g)[in_group(mods, g).len() - 1] == mods[i]);
    }
}

/// The group names of a grouping result.
pub open spec fn group_names(r: Seq<(String, (Vec<String>, Vec<String>))>) -> Seq<Seq<char>> {
    r.map_values(|e: (String, (Vec<String>, Vec<String>))| e.0@)
}

/// Builds the prefix table.
fn prefix_map() -> (t: Vec<(&'static str, &'static str)>)
    ensures
        table_view(t@) == prefix_table(),
{
    let mut t: Vec<(&'static str, &'static str)> = Vec::new();
    t.push(("extension_", "extensions"));
    t.push(("extension", "extensions"));
    t.push(("hostcall_", "hostcall"));
    t.push(("hostcall", "hostcall"));
    t.push(("session_", "session"));
    t.push(("session", "session"));
    t.push(("swarm_", "swarm"));
    t.push(("swarm", "swarm"));
    t.push(("conformance_", "conformance"));
    t.push(("conformance", "conformance"));
    t.push(("model_", "models"));
    t.push(("model", "models"));
    t.push(("provider_", "providers"));
    t.push(("provider", "providers"));
    t.push(("interactive", "interactive"));
    t.push(("connector", "connectors"));
    t.push(("auth", "auth"));
    t.push(("cli", "cli"));
    t.push(("agent", "agent"));
    t.push(("compaction", "compaction"));
    t.push(("config", "traits"));
    t.push(("error", "traits"));
    t.push(("sdk", "traits"));
    t.push(("crypto", "crypto"));
    t.push(("tool", "tools"));
    t.push(("tui", "interactive"));
    t.push(("theme", "interactive"));
    t.push(("keybindings", "interactive"));
    t.push(("terminal", "interactive"));
    t.push(("vcr", "vcr"));
    t.push(("scheduler", "scheduler"));
    t.push(("resource", "scheduler"));
    t.push(("permission", "permissions"));
    t.push(("validation", "permissions"));
    t.push(("rpc", "rpc"));
    t.push(("autocomplete", "autocomplete"));
    t.push(("doctor", "doctor"));
    t.push(("migration", "agent"));
    t.push(("package", "agent"));
    t.push(("platform", "agent"));
    t.push(("semantic", "agent"));
    t.push(("version", "agent"));
    t.push(("flake", "agent"));
    t.push(("buffer", "agent"));
    t.push(("acp", "agent"));
    t.push(("perf", "zkperf"));
    t.push(("wasm", "wasm"));
    t.push(("pi_wasm", "wasm"));
    t.push(("http", "http"));
    t.push(("sse", "providers"));
    assert(table_view(t@) =~= prefix_table());
    t
}

/// The sub-crate suggested for module `m`.
fn group_for(table: &Vec<(&'static str, &'static str)>, m: &str) -> (g: String)
    requires
        table_view(table@) == prefix_table(),
    ensures
        g@ == module_group(m@),
{
    let ghost tv = table_view(table@);
    let mut i: usize = 0;
    assert(tv.skip(0) =~= tv);
    while i < table.len()
        invariant
            tv == table_view(table@),
            tv == prefix_table(),
            i <= table.len(),
            group_in(tv, m@) == group_in(tv.skip(i as int), m@),
        decreases table.len() - i,
    {
        let (p, grp) = table[i];
        assert(tv.skip(i as int)[0] == (p@, grp@));
        if has_prefix(m, p) {
            return owned(grp);
        }
        assert(tv.skip(i as int).drop_first() =~= tv.skip(i + 1));
        i += 1;
    }
    assert(tv.skip(i as int).len() == 0);
    owned("misc")
}

/// The suggested sub-crate of each module, in order.
fn groups_of(table: &Vec<(&'static str, &'static str)>, mods: &Vec<String>) -> (gs: Vec<String>)
    requires
        table_view(table@) == prefix_table(),
    ensures
        gs.len() == mods.len(),
        forall|i: int| 0 <= i < mods.len() ==> #[trigger] gs@[i]@ == module_group(mods@[i]@),
{
    let mut gs: Vec<String> = Vec::new();
    for i in 0..mods.len()
        invariant
            table_view(table@) == prefix_table(),
            gs.len() == i,
            forall|k: int| 0 <= k < i ==> #[trigger] gs@[k]@ == module_group(mods@[k]@),
    {
        gs.push(group_for(table, mods[i].as_str()));
    }
    gs
}

/// Inserts `g` into the strictly sorted `names` unless it is there.
pub(crate) fn insert_sorted(names: &mut Vec<String>, g: &str)
    requires
        strictly_sorted(views(old(names)@)),
    ensures
        strictly_sorted(views(final(names)@)),
        forall|x: Seq<char>|
            views(final(names)@).contains(x) <==> (views(old(names)@).contains(x) || x == g@),
{
    let ghost old_v = views(names@);
    let mut j: usize = 0;
    while j < names.len() && less_than(names[j].as_str(), g)
        invariant
            j <= names.len(),
            names@ == old(names)@,
            forall|k: int| 0 <= k < j ==> str_less(#[trigger] names@[k]@, g@),
        decreases names.len() - j,
    {
        j += 1;
    }
    if j < names.len() && str_eq(names[j].as_str(), g) {
        assert(views(names@)[j as int] == g@);
        return;
    }
    proof {
        if j < names.len() {
            lemma_less_total(names@[j as int]@, g@);
        }
    }
    names.insert(j, owned(g));
    proof {
        let nv = views(names@);
        assert(nv =~= old_v.insert(j as int, g@));
        assert forall|a: int, b: int| 0 <= a < b < nv.len() implies str_less(
            #[trigger] nv[a],
            #[trigger] nv[b],
        ) by {
            if b < j {
                assert(nv[a] == old_v[a] && nv[b] == old_v[b]);
            } else if b == j {
                assert(nv[a] == old_v[a]);
            } else if a == j {
                assert(nv[b] == old_v[b - 1]);
                if b - 1 > j {
                    assert(str_less(old_v[j as int], old_v[b - 1]));
                    lemma_less_transitive(g@, old_v[j as int], old_v[b - 1]);
                }
            } else if a < j {
                assert(nv[a] == old_v[a] && nv[b] == old_v[b - 1]);
            } else {
                assert(nv[a] == old_v[a - 1] && nv[b] == old_v[b - 1]);
            }
        }
        assert forall|x: Seq<char>| nv.contains(x) <==> (old_v.contains(x) || x == g@) by {
            if nv.contains(x) {
                let k = choose|k: int| 0 <= k < nv.len() && nv[k] == x;
                if k < j {
                    assert(old_v[k] == x);
                } else if k > j {
                    assert(old_v[k - 1] == x);
                }
            }
            if old_v.contains(x) {
                let k = choose|k: int| 0 <= k < old_v.len() && old_v[k] == x;
                if k < j {
                    assert(nv[k] == x);
                } else {
                    assert(nv[k + 1] == x);
                }
            }
            if x == g@ {
                assert(nv[j as int] == x);
            }
        }
    }
}

/// The modules of `mods` whose suggested sub-crate is `g`.
fn modules_in(mods: &Vec<String>, gs: &Vec<String>, g: &str) -> (r: Vec<String>)
    requires
        gs.len() == mods.len(),
        forall|i: int| 0 <= i < mods.len() ==> #[trigger] gs@[i]@ == module_group(mods@[i]@),
    ensures
        views(r@) == in_group(views(mods@), g@),
{
    let mut r: Vec<String> = Vec::new();
    let ghost mv = views(mods@);
    for i in 0..mods.len()
        invariant
            gs.len() == mods.len(),
            mv == views(mods@),
            forall|k: int| 0 <= k < mods.len() ==> #[trigger] gs@[k]@ == module_group(mods@[k]@),
            views(r@) == in_group(mv.take(i as int), g@),
    {
        assert(mv.take(i + 1).drop_last() =~= mv.take(i as int));
        assert(mv.take(i + 1).last() == mods@[i as int]@);
        if str_eq(gs[i].as_str(), g) {
            r.push(mods[i].clone());
            assert(views(r@) =~= in_group(mv.take(i as int), g@).push(mods@[i as int]@));
        }
    }
    assert(mv.take(mods.len() as int) =~= mv);
    r
}

/// Groups a monolith's modules into suggested sub-crates by name prefix.
///
/// Each module goes to the sub-crate of the first prefix in
/// `prefix_table()` that starts its name, or to `misc`. The result holds
/// one entry per sub-crate that receives a module, ordered by name, with
/// its file modules and its directory modules in their given order.
pub fn group_modules_by_prefix(file_modules: &Vec<String>, dir_modules: &Vec<String>) -> (r: Vec<
    (String, (Vec<String>, Vec<String>)),
>)
    ensures
        strictly_sorted(group_names(r@)),
        forall|x: Seq<char>|
            group_names(r@).contains(x) <==> ((exists|i: int|
                0 <= i < file_modules.len() && module_group(#[trigger] file_modules@[i]@) == x)
                || (exists|i: int|
                0 <= i < dir_modules.len() && module_group(#[trigger] dir_modules@[i]@) == x)),
        forall|k: int|
            0 <= k < r.len() ==> views((#[trigger] r@[k]).1.0@) == in_group(
                views(file_modules@),
                r@[k].0@,
            ) && views(r@[k].1.1@) == in_group(views(dir_modules@), r@[k].0@),
{
    let table = prefix_map();
    let gf = groups_of(&table, file_modules);
    let gd = groups_of(&table, dir_modules);
    let mut names: Vec<String> = Vec::new();
    for i in 0..gf.len()
        invariant
            strictly_sorted(views(names@)),
            gf.len() == file_modules.len(),
            forall|k: int| 0 <= k < gf.len() ==> #[trigger] gf@[k]@ == module_group(file_modules@[k]@),
            forall|x: Seq<char>|
                views(names@).contains(x) <==> (exists|k: int|
                    0 <= k < i && module_group(#[trigger] file_modules@[k]@) == x),
    {
        insert_sorted(&mut names, gf[i].as_str());
        proof {
            assert forall|x: Seq<char>| views(names@).contains(x) <==> (exists|k: int|
                0 <= k < i + 1 && module_group(#[trigger] file_modules@[k]@) == x) by {
                if x == gf@[i as int]@ {
                    assert(module_group(file_modules@[i as int]@) == x);
                }
            }
        }
    }
    for i in 0..gd.len()
        invariant
            strictly_sorted(views(names@)),
            gd.len() == dir_modules.len(),
            forall|k: int| 0 <= k < gd.len() ==> #[trigger] gd@[k]@ == module_group(dir_modules@[k]@),
            forall|x: Seq<char>|
                views(names@).contains(x) <==> ((exists|k: int|
                    0 <= k < file_modules.len() && module_group(#[trigger] file_modules@[k]@) == x)
                    || (exists|k: int|
                    0 <= k < i && module_group(#[trigger] dir_modules@[k]@) == x)),
    {
        insert_sorted(&mut names, gd[i].as_str());
        proof {
            assert forall|x: Seq<char>| views(names@).contains(x) <==> ((exists|k: int|
                0 <= k < file_modules.len() && module_group(#[trigger] file_modules@[k]@) == x)
                || (exists|k: int| 0 <= k < i + 1 && module_group(#[trigger] dir_modules@[k]@) == x)) by {
                if x == gd@[i as int]@ {
                    assert(module_group(dir_modules@[i as int]@) == x);
                }
            }
        }
    }
    let mut r: Vec<(String, (Vec<String>, Vec<String>))> = Vec::new();
    for j in 0..names.len()
        invariant
            gf.len() == file_modules.len(),
            forall|k: int| 0 <= k < gf.len() ==> #[trigger] gf@[k]@ == module_group(file_modules@[k]@),
            gd.len() == dir_modules.len(),
            forall|k: int| 0 <= k < gd.len() ==> #[trigger] gd@[k]@ == module_group(dir_modules@[k]@),
            group_names(r@) == views(names@).take(j as int),
            forall|k: int|
                0 <= k < r.len() ==> views((#[trigger] r@[k]).1.0@) == in_group(
                    views(file_modules@),
                    r@[k].0@,
                ) && views(r@[k].1.1@) == in_group(views(dir_modules@), r@[k].0@),
    {
        let files = modules_in(file_modules, &gf, names[j].as_str());
        let dirs = modules_in(dir_modules, &gd, names[j].as_str());
        let name = names[j].clone();
        assert(name@ == names@[j as int]@);
        let ghost old_r = r@;
        r.push((name, (files, dirs)));
        assert(group_names(r@) =~= group_names(old_r).push(name@));
        assert(group_names(r@) =~= views(names@).take(j + 1));
    }
    assert(views(names@).take(names.len() as int) =~= views(names@));
    r
}

} // verus!
