//! Merging the dependency graphs of several projects into one global
//! graph: one node per crate id, one edge per pair of crates, a build
//! order over the merged graph, the git sources to mirror, and a plan for
//! crates used at several versions.
use vstd::prelude::*;
use crate::global_dep_graph::{
    distinct_in_order, petgraph_toposort, toposort_graph, DependencyEdge, DependencyNode, EdgeView, NodeView,
};
use crate::gitmodules_metadata::copy_string_map;
use crate::order::{less_than, str_less};
use crate::text::{cat, cat3, owned, push_str, str_eq, views};

verus! {

broadcast use vstd::string::group_string_axioms;

/// One project's graph, named after the directory it was found in.
pub struct ProjectGraph {
    pub project: String,
    pub nodes: Vec<DependencyNode>,
    pub edges: Vec<DependencyEdge>,
}

// ───────────────────────────── copies ──────────────────────────────────

fn copy_strings(v: &Vec<String>) -> (r: Vec<String>)
    ensures
        views(r@) == views(v@),
{
    let mut r: Vec<String> = Vec::new();
    let mut i: usize = 0;
    while i < v.len()
        invariant
            i <= v.len(),
            views(r@) == views(v@).take(i as int),
        decreases v.len() - i,
    {
        let ghost b = r@;
        r.push(v[i].clone());
        assert(views(r@) =~= views(b).push(v@[i as int]@));
        assert(views(v@).take(i + 1) =~= views(v@).take(i as int).push(v@[i as int]@));
        i += 1;
    }
    assert(views(v@).take(i as int) =~= views(v@));
    r
}

/// A copy of a node.
pub fn copy_node(n: &DependencyNode) -> (r: DependencyNode)
    ensures
        r.deep_view() == n.deep_view(),
{
    DependencyNode {
        id: n.id.clone(),
        crate_name: n.crate_name.clone(),
        version: n.version.clone(),
        source: n.source.clone(),
        is_workspace_member: n.is_workspace_member,
        is_direct_dependency: n.is_direct_dependency,
        features: copy_strings(&n.features),
        categories: copy_strings(&n.categories),
        properties: copy_string_map(&n.properties),
    }
}

/// A copy of an edge.
pub fn copy_edge(e: &DependencyEdge) -> (r: DependencyEdge)
    ensures
        r.deep_view() == e.deep_view(),
{
    DependencyEdge {
        from: e.from.clone(),
        to: e.to.clone(),
        edge_type: e.edge_type,
        required_features: copy_strings(&e.required_features),
        optional_features: copy_strings(&e.optional_features),
        is_dev_dependency: e.is_dev_dependency,
        is_build_dependency: e.is_build_dependency,
        properties: copy_string_map(&e.properties),
    }
}

// ───────────────────────────── nodes ───────────────────────────────────

/// The nodes of all project graphs, one graph after the other.
pub open spec fn all_nodes(gs: Seq<ProjectGraph>) -> Seq<NodeView>
    decreases gs.len(),
{
    if gs.len() == 0 {
        Seq::empty()
    } else {
        all_nodes(gs.drop_last()) + gs.last().nodes.deep_view()
    }
}

/// The edges of all project graphs, one graph after the other.
pub open spec fn all_edges(gs: Seq<ProjectGraph>) -> Seq<EdgeView>
    decreases gs.len(),
{
    if gs.len() == 0 {
        Seq::empty()
    } else {
        all_edges(gs.drop_last()) + gs.last().edges.deep_view()
    }
}

/// The first position of a node with the id.
pub open spec fn position_of_id(ns: Seq<NodeView>, id: Seq<char>) -> Option<int>
    decreases ns.len(),
{
    if ns.len() == 0 {
        None
    } else if ns[0].id == id {
        Some(0)
    } else {
        match position_of_id(ns.drop_first(), id) {
            Some(k) => Some(k + 1),
            None => None,
        }
    }
}

/// The merge of nodes met in order: the first node of each id is kept, in
/// the order the ids first appear, and it is a workspace member when any
/// node with its id is one.
pub open spec fn merge_nodes(all: Seq<NodeView>) -> Seq<NodeView>
    decreases all.len(),
{
    if all.len() == 0 {
        Seq::empty()
    } else {
        node_step(merge_nodes(all.drop_last()), all.last())
    }
}

/// The merge `m` after meeting the node `n`.
pub open spec fn node_step(m: Seq<NodeView>, n: NodeView) -> Seq<NodeView> {
    match position_of_id(m, n.id) {
        Some(k) => if n.is_workspace_member {
            m.update(k, NodeView { is_workspace_member: true, ..m[k] })
        } else {
            m
        },
        None => m.push(n),
    }
}

proof fn lemma_position_bounds(ns: Seq<NodeView>, id: Seq<char>)
    ensures
        position_of_id(ns, id) matches Some(k) ==> 0 <= k < ns.len() && ns[k].id == id,
        position_of_id(ns, id) is None ==> forall|i: int| 0 <= i < ns.len() ==> (#[trigger] ns[i]).id != id,
    decreases ns.len(),
{
    if ns.len() > 0 && ns[0].id != id {
        lemma_position_bounds(ns.drop_first(), id);
        if position_of_id(ns.drop_first(), id) is None {
            assert forall|i: int| 0 <= i < ns.len() implies (#[trigger] ns[i]).id != id by {
                if i > 0 {
                    assert(ns[i] == ns.drop_first()[i - 1]);
                }
            }
        }
    }
}

fn find_id(ns: &Vec<DependencyNode>, id: &str) -> (r: Option<usize>)
    ensures
        match r {
            Some(k) => position_of_id(ns.deep_view(), id@) == Some(k as int),
            None => position_of_id(ns.deep_view(), id@) is None,
        },
{
    let ghost dv = ns.deep_view();
    let mut i: usize = 0;
    while i < ns.len()
        invariant
            i <= ns.len(),
            dv == ns.deep_view(),
            dv.len() == ns.len(),
            forall|j: int| 0 <= j < i ==> (#[trigger] dv[j]).id != id@,
        decreases ns.len() - i,
    {
        if str_eq(ns[i].id.as_str(), id) {
            proof {
                lemma_first_position(dv, id@, i as int);
            }
            return Some(i);
        }
        i += 1;
    }
    proof {
        lemma_no_position(dv, id@);
    }
    None
}

proof fn lemma_first_position(ns: Seq<NodeView>, id: Seq<char>, i: int)
    requires
        0 <= i < ns.len(),
        ns[i].id == id,
        forall|j: int| 0 <= j < i ==> (#[trigger] ns[j]).id != id,
    ensures
        position_of_id(ns, id) == Some(i),
    decreases i,
{
    if i > 0 {
        assert(ns[0].id != id);
        assert forall|j: int| 0 <= j < i - 1 implies (#[trigger] ns.drop_first()[j]).id != id by {
            assert(ns.drop_first()[j] == ns[j + 1]);
        }
        lemma_first_position(ns.drop_first(), id, i - 1);
    }
}

proof fn lemma_no_position(ns: Seq<NodeView>, id: Seq<char>)
    requires
        forall|j: int| 0 <= j < ns.len() ==> (#[trigger] ns[j]).id != id,
    ensures
        position_of_id(ns, id) is None,
    decreases ns.len(),
{
    if ns.len() > 0 {
        assert forall|j: int| 0 <= j < ns.len() - 1 implies (#[trigger] ns.drop_first()[j]).id != id by {
            assert(ns.drop_first()[j] == ns[j + 1]);
        }
        lemma_no_position(ns.drop_first(), id);
    }
}

/// Adds one node to the merge.
fn merge_node(out: &mut Vec<DependencyNode>, n: &DependencyNode)
    ensures
        final(out).deep_view() == node_step(old(out).deep_view(), n.deep_view()),
{
    let ghost before = out.deep_view();
    proof {
        lemma_position_bounds(before, n.id@);
    }
    match find_id(out, n.id.as_str()) {
        Some(k) => {
            if n.is_workspace_member {
                let mut m = copy_node(&out[k]);
                m.is_workspace_member = true;
                let ghost mv = m.deep_view();
                out.set(k, m);
                proof {
                    lemma_position_bounds(before, n.id@);
                    assert(out.deep_view() =~= before.update(k as int, mv));
                }
            }
        },
        None => {
            out.push(copy_node(n));
            assert(out.deep_view() =~= before.push(n.deep_view()));
        },
    }
}

/// The merge of edges met in order: the first edge of each (from, to)
/// pair is kept.
pub open spec fn merge_edges(all: Seq<EdgeView>) -> Seq<EdgeView>
    decreases all.len(),
{
    if all.len() == 0 {
        Seq::empty()
    } else {
        edge_step(merge_edges(all.drop_last()), all.last())
    }
}

/// The merge `m` after meeting the edge `e`.
pub open spec fn edge_step(m: Seq<EdgeView>, e: EdgeView) -> Seq<EdgeView> {
    if exists|k: int| 0 <= k < m.len() && (#[trigger] m[k]).from == e.from && m[k].to == e.to {
        m
    } else {
        m.push(e)
    }
}

fn merge_edge(out: &mut Vec<DependencyEdge>, e: &DependencyEdge)
    ensures
        final(out).deep_view() == edge_step(old(out).deep_view(), e.deep_view()),
{
    let ghost before = out.deep_view();
    let mut i: usize = 0;
    while i < out.len()
        invariant
            i <= out.len(),
            out.deep_view() == before,
            before.len() == out.len(),
            forall|k: int| 0 <= k < i ==> !((#[trigger] before[k]).from == e.from@ && before[k].to == e.to@),
        decreases out.len() - i,
    {
        if str_eq(out[i].from.as_str(), e.from.as_str()) && str_eq(out[i].to.as_str(), e.to.as_str()) {
            assert(before[i as int].from == e.from@ && before[i as int].to == e.to@);
            return;
        }
        i += 1;
    }
    out.push(copy_edge(e));
    assert(out.deep_view() =~= before.push(e.deep_view()));
}

/// The git sources among the nodes' sources: neither empty nor
/// `workspace`, `crates.io` or `unknown`.
pub open spec fn source_list(all: Seq<NodeView>) -> Seq<Seq<char>>
    decreases all.len(),
{
    if all.len() == 0 {
        Seq::empty()
    } else {
        let s = all.last().source;
        source_list(all.drop_last()) + if s.len() > 0 && s != "workspace"@ && s != "crates.io"@ && s != "unknown"@ {
            seq![s]
        } else {
            Seq::empty()
        }
    }
}

fn note_source(sources: &mut Vec<String>, n: &DependencyNode, Ghost(seen): Ghost<Seq<NodeView>>)
    requires
        views(old(sources)@) == distinct_in_order(source_list(seen)),
    ensures
        views(final(sources)@) == distinct_in_order(source_list(seen.push(n.deep_view()))),
{
    let ghost all = seen.push(n.deep_view());
    assert(all.drop_last() =~= seen);
    let s = n.source.as_str();
    if s.is_empty() || str_eq(s, "workspace") || str_eq(s, "crates.io") || str_eq(s, "unknown") {
        assert(source_list(all) =~= source_list(seen));
        return;
    }
    assert(source_list(all) =~= source_list(seen).push(n.source@));
    let ghost rest = views(sources@);
    assert(source_list(all).drop_last() =~= source_list(seen));
    assert(distinct_in_order(source_list(all)) == if rest.contains(n.source@) {
        rest
    } else {
        rest.push(n.source@)
    });
    let mut i: usize = 0;
    while i < sources.len()
        invariant
            i <= sources.len(),
            views(sources@) == rest,
            s@ == n.source@,
            rest == distinct_in_order(source_list(seen)),
            source_list(all) == source_list(seen).push(n.source@),
            all == seen.push(n.deep_view()),
            forall|k: int| 0 <= k < i ==> rest[k] != n.source@,
            distinct_in_order(source_list(all)) == if rest.contains(n.source@) {
                rest
            } else {
                rest.push(n.source@)
            },
        decreases sources.len() - i,
    {
        assert(rest[i as int] == sources@[i as int]@);
        if str_eq(sources[i].as_str(), s) {
            assert(rest[i as int] == n.source@);
            assert(rest.contains(n.source@));
            return;
        }
        i += 1;
    }
    assert(!rest.contains(n.source@));
    sources.push(n.source.clone());
    assert(views(sources@) =~= rest.push(n.source@));
}


/// Appends `x` unless it is already there: one step of
/// `distinct_in_order`.
fn push_distinct(list: &mut Vec<String>, x: &str, Ghost(seen): Ghost<Seq<Seq<char>>>)
    requires
        views(old(list)@) == distinct_in_order(seen),
    ensures
        views(final(list)@) == distinct_in_order(seen.push(x@)),
{
    let ghost rest = views(list@);
    assert(seen.push(x@).drop_last() =~= seen);
    let mut i: usize = 0;
    while i < list.len()
        invariant
            i <= list.len(),
            views(list@) == rest,
            rest == distinct_in_order(seen),
            seen.push(x@).drop_last() == seen,
            forall|k: int| 0 <= k < i ==> rest[k] != x@,
        decreases list.len() - i,
    {
        assert(rest[i as int] == list@[i as int]@);
        if str_eq(list[i].as_str(), x) {
            assert(rest.contains(x@));
            return;
        }
        i += 1;
    }
    assert(!rest.contains(x@));
    list.push(owned(x));
    assert(views(list@) =~= rest.push(x@));
}

// ───────────────────────────── versions ────────────────────────────────

/// Who uses which crate at which version: `(project, crate, version)` for
/// every node of every project graph, in order.
pub open spec fn all_uses(gs: Seq<ProjectGraph>) -> Seq<(Seq<char>, Seq<char>, Seq<char>)>
    decreases gs.len(),
{
    if gs.len() == 0 {
        Seq::empty()
    } else {
        let g = gs.last();
        all_uses(gs.drop_last()) + g.nodes@.map_values(|n: DependencyNode| (g.project@, n.crate_name@, n.version@))
    }
}

/// The crate names of the uses.
pub open spec fn use_names(us: Seq<(Seq<char>, Seq<char>, Seq<char>)>) -> Seq<Seq<char>> {
    us.map_values(|u: (Seq<char>, Seq<char>, Seq<char>)| u.1)
}

/// The `(project, version)` uses of crate `c`.
pub open spec fn uses_of(us: Seq<(Seq<char>, Seq<char>, Seq<char>)>, c: Seq<char>) -> Seq<(Seq<char>, Seq<char>)>
    decreases us.len(),
{
    if us.len() == 0 {
        Seq::empty()
    } else {
        let u = us.last();
        uses_of(us.drop_last(), c) + if u.1 == c {
            seq![(u.0, u.2)]
        } else {
            Seq::empty()
        }
    }
}

/// The least string (in `str` order); empty for no strings.
pub open spec fn str_min(s: Seq<Seq<char>>) -> Seq<char>
    decreases s.len(),
{
    if s.len() == 0 {
        Seq::empty()
    } else if s.len() == 1 {
        s[0]
    } else {
        let m = str_min(s.drop_last());
        if str_less(s.last(), m) {
            s.last()
        } else {
            m
        }
    }
}

/// The greatest string (in `str` order); empty for no strings.
pub open spec fn str_max(s: Seq<Seq<char>>) -> Seq<char>
    decreases s.len(),
{
    if s.len() == 0 {
        Seq::empty()
    } else if s.len() == 1 {
        s[0]
    } else {
        let m = str_max(s.drop_last());
        if str_less(m, s.last()) {
            s.last()
        } else {
            m
        }
    }
}

/// A crate used at several versions, and the upgrade that unifies them.
pub struct UpgradePlan {
    pub crate_name: String,
    /// Its versions, each once, in the order first met.
    pub versions: Vec<String>,
    pub oldest: String,
    pub newest: String,
    /// The projects using it, once per use.
    pub used_by: Vec<String>,
    pub action: String,
}

/// An upgrade plan as plain values.
pub type PlanView = (Seq<char>, Seq<Seq<char>>, Seq<char>, Seq<char>, Seq<Seq<char>>, Seq<char>);

pub open spec fn plan_view(p: UpgradePlan) -> PlanView {
    (p.crate_name@, views(p.versions@), p.oldest@, p.newest@, views(p.used_by@), p.action@)
}

/// The plan for crate `c`: when it is used at more than one version, from
/// the least version to the greatest.
pub open spec fn plan_for(us: Seq<(Seq<char>, Seq<char>, Seq<char>)>, c: Seq<char>) -> Option<PlanView> {
    let u = uses_of(us, c);
    let vs = distinct_in_order(u.map_values(|p: (Seq<char>, Seq<char>)| p.1));
    if vs.len() > 1 {
        Some((
            c,
            vs,
            str_min(vs),
            str_max(vs),
            u.map_values(|p: (Seq<char>, Seq<char>)| p.0),
            "upgrade from "@ + str_min(vs) + " to "@ + str_max(vs),
        ))
    } else {
        None
    }
}

/// The plans for the crates `names`, in order.
pub open spec fn plans_for(us: Seq<(Seq<char>, Seq<char>, Seq<char>)>, names: Seq<Seq<char>>) -> Seq<PlanView>
    decreases names.len(),
{
    if names.len() == 0 {
        Seq::empty()
    } else {
        plans_for(us, names.drop_last()) + match plan_for(us, names.last()) {
            Some(p) => seq![p],
            None => Seq::empty(),
        }
    }
}

fn least_and_greatest(vs: &Vec<String>) -> (r: (String, String))
    ensures
        r.0@ == str_min(views(vs@)),
        r.1@ == str_max(views(vs@)),
{
    if vs.len() == 0 {
        return (String::new(), String::new());
    }
    let ghost v = views(vs@);
    let mut lo = vs[0].clone();
    let mut hi = vs[0].clone();
    let mut i: usize = 1;
    assert(v.take(1).drop_last() =~= Seq::<Seq<char>>::empty());
    while i < vs.len()
        invariant
            1 <= i <= vs.len(),
            v == views(vs@),
            lo@ == str_min(v.take(i as int)),
            hi@ == str_max(v.take(i as int)),
        decreases vs.len() - i,
    {
        assert(v.take(i + 1).drop_last() =~= v.take(i as int));
        assert(v.take(i + 1).last() == vs@[i as int]@);
        if less_than(vs[i].as_str(), lo.as_str()) {
            lo = vs[i].clone();
        }
        if less_than(hi.as_str(), vs[i].as_str()) {
            hi = vs[i].clone();
        }
        i += 1;
    }
    assert(v.take(i as int) =~= v);
    (lo, hi)
}

type Use = (String, String, String);

pub open spec fn use_views(us: Seq<Use>) -> Seq<(Seq<char>, Seq<char>, Seq<char>)> {
    us.map_values(|u: Use| (u.0@, u.1@, u.2@))
}

fn plan_of(uses: &Vec<Use>, c: &str) -> (r: Option<UpgradePlan>)
    ensures
        match r {
            Some(p) => plan_for(use_views(uses@), c@) == Some(plan_view(p)),
            None => plan_for(use_views(uses@), c@) is None,
        },
{
    let ghost us = use_views(uses@);
    let mut versions: Vec<String> = Vec::new();
    let mut used_by: Vec<String> = Vec::new();
    let ghost mut seen_versions: Seq<Seq<char>> = Seq::empty();
    let mut i: usize = 0;
    assert(us.take(0) =~= Seq::<(Seq<char>, Seq<char>, Seq<char>)>::empty());
    while i < uses.len()
        invariant
            i <= uses.len(),
            us == use_views(uses@),
            seen_versions == uses_of(us.take(i as int), c@).map_values(|p: (Seq<char>, Seq<char>)| p.1),
            views(versions@) == distinct_in_order(seen_versions),
            views(used_by@) == uses_of(us.take(i as int), c@).map_values(|p: (Seq<char>, Seq<char>)| p.0),
        decreases uses.len() - i,
    {
        assert(us.take(i + 1).drop_last() =~= us.take(i as int));
        assert(us.take(i + 1).last() == us[i as int]);
        let ghost before = uses_of(us.take(i as int), c@);
        if str_eq(uses[i].1.as_str(), c) {
            proof {
                push_distinct_hint(seen_versions, uses@[i as int].2@);
            }
            push_distinct(&mut versions, uses[i].2.as_str(), Ghost(seen_versions));
            proof {
                seen_versions = seen_versions.push(uses@[i as int].2@);
            }
            let ghost ub = used_by@;
            used_by.push(uses[i].0.clone());
            assert(views(used_by@) =~= views(ub).push(uses@[i as int].0@));
            assert(uses_of(us.take(i + 1), c@) =~= before.push((uses@[i as int].0@, uses@[i as int].2@)));
        } else {
            assert(uses_of(us.take(i + 1), c@) =~= before);
        }
        assert(seen_versions =~= uses_of(us.take(i + 1), c@).map_values(|p: (Seq<char>, Seq<char>)| p.1));
        assert(views(used_by@) =~= uses_of(us.take(i + 1), c@).map_values(|p: (Seq<char>, Seq<char>)| p.0));
        i += 1;
    }
    assert(us.take(i as int) =~= us);
    if versions.len() > 1 {
        let (oldest, newest) = least_and_greatest(&versions);
        let mut action = cat3("upgrade from ", oldest.as_str(), " to ");
        push_str(&mut action, newest.as_str());
        Some(UpgradePlan { crate_name: owned(c), versions, oldest, newest, used_by, action })
    } else {
        None
    }
}

proof fn push_distinct_hint(seen: Seq<Seq<char>>, x: Seq<char>)
    ensures
        seen.push(x).drop_last() == seen,
{
    assert(seen.push(x).drop_last() =~= seen);
}

fn upgrade_plans(uses: &Vec<Use>) -> (r: Vec<UpgradePlan>)
    ensures
        r@.map_values(|p: UpgradePlan| plan_view(p)) == plans_for(
            use_views(uses@),
            distinct_in_order(use_names(use_views(uses@))),
        ),
{
    let ghost us = use_views(uses@);
    let mut names: Vec<String> = Vec::new();
    let mut i: usize = 0;
    assert(use_names(us).take(0) =~= Seq::<Seq<char>>::empty());
    while i < uses.len()
        invariant
            i <= uses.len(),
            us == use_views(uses@),
            views(names@) == distinct_in_order(use_names(us).take(i as int)),
        decreases uses.len() - i,
    {
        assert(use_names(us).take(i + 1) =~= use_names(us).take(i as int).push(uses@[i as int].1@));
        push_distinct(&mut names, uses[i].1.as_str(), Ghost(use_names(us).take(i as int)));
        i += 1;
    }
    assert(use_names(us).take(i as int) =~= use_names(us));
    let ghost ns = views(names@);
    let mut plans: Vec<UpgradePlan> = Vec::new();
    let mut j: usize = 0;
    assert(ns.take(0) =~= Seq::<Seq<char>>::empty());
    while j < names.len()
        invariant
            j <= names.len(),
            ns == views(names@),
            us == use_views(uses@),
            plans@.map_values(|p: UpgradePlan| plan_view(p)) == plans_for(us, ns.take(j as int)),
        decreases names.len() - j,
    {
        assert(ns.take(j + 1).drop_last() =~= ns.take(j as int));
        assert(ns.take(j + 1).last() == names@[j as int]@);
        let ghost before = plans@.map_values(|p: UpgradePlan| plan_view(p));
        match plan_of(uses, names[j].as_str()) {
            Some(p) => {
                let ghost pv = plan_view(p);
                plans.push(p);
                assert(plans@.map_values(|p: UpgradePlan| plan_view(p)) =~= before.push(pv));
            },
            None => {},
        }
        assert(plans@.map_values(|p: UpgradePlan| plan_view(p)) =~= plans_for(us, ns.take(j + 1)));
        j += 1;
    }
    assert(ns.take(j as int) =~= ns);
    plans
}


// ───────────────────────────── build order ─────────────────────────────

/// The edges as pairs of node positions, for the edges whose two ends are
/// nodes.
pub open spec fn indexed_edges(ns: Seq<NodeView>, es: Seq<EdgeView>) -> Seq<(usize, usize)>
    decreases es.len(),
{
    if es.len() == 0 {
        Seq::empty()
    } else {
        let r = indexed_edges(ns, es.drop_last());
        let e = es.last();
        match (position_of_id(ns, e.from), position_of_id(ns, e.to)) {
            (Some(a), Some(b)) => r.push((a as usize, b as usize)),
            _ => r,
        }
    }
}

/// The build order of a merged graph: the crate names in petgraph's
/// topological order; on a cycle, every crate name in node order, with the
/// crate petgraph reported on the cycle.
pub open spec fn build_order_of(ns: Seq<NodeView>, es: Seq<EdgeView>) -> (Seq<Seq<char>>, Option<Seq<char>>) {
    match petgraph_toposort(ns.len(), indexed_edges(ns, es)) {
        Ok(o) => (o.map_values(|i: usize| ns[i as int].crate_name), None),
        Err(c) => (ns.map_values(|n: NodeView| n.crate_name), Some(ns[c as int].crate_name)),
    }
}

fn index_edges(nodes: &Vec<DependencyNode>, edges: &Vec<DependencyEdge>) -> (r: Vec<(usize, usize)>)
    ensures
        r@ == indexed_edges(nodes.deep_view(), edges.deep_view()),
        forall|k: int| 0 <= k < r.len() ==> (#[trigger] r@[k]).0 < nodes.len() && r@[k].1 < nodes.len(),
{
    let ghost ns = nodes.deep_view();
    let ghost es = edges.deep_view();
    let mut r: Vec<(usize, usize)> = Vec::new();
    let mut i: usize = 0;
    assert(es.take(0) =~= Seq::<EdgeView>::empty());
    while i < edges.len()
        invariant
            i <= edges.len(),
            ns == nodes.deep_view(),
            ns.len() == nodes.len(),
            es == edges.deep_view(),
            r@ == indexed_edges(ns, es.take(i as int)),
            forall|k: int| 0 <= k < r.len() ==> (#[trigger] r@[k]).0 < nodes.len() && r@[k].1 < nodes.len(),
        decreases edges.len() - i,
    {
        assert(es.take(i + 1).drop_last() =~= es.take(i as int));
        assert(es.take(i + 1).last() == edges@[i as int].deep_view());
        proof {
            lemma_position_bounds(ns, edges@[i as int].from@);
            lemma_position_bounds(ns, edges@[i as int].to@);
        }
        let a = find_id(nodes, edges[i].from.as_str());
        let b = find_id(nodes, edges[i].to.as_str());
        match (a, b) {
            (Some(x), Some(y)) => {
                r.push((x, y));
            },
            _ => {},
        }
        i += 1;
    }
    assert(es.take(i as int) =~= es);
    r
}

fn crate_names_at(nodes: &Vec<DependencyNode>, order: &Vec<usize>) -> (r: Vec<String>)
    requires
        forall|k: int| 0 <= k < order.len() ==> (#[trigger] order@[k]) < nodes.len(),
    ensures
        views(r@) == order@.map_values(|i: usize| nodes.deep_view()[i as int].crate_name),
{
    let mut r: Vec<String> = Vec::new();
    let mut k: usize = 0;
    while k < order.len()
        invariant
            k <= order.len(),
            forall|j: int| 0 <= j < order.len() ==> (#[trigger] order@[j]) < nodes.len(),
            views(r@) == order@.map_values(|i: usize| nodes.deep_view()[i as int].crate_name).take(k as int),
        decreases order.len() - k,
    {
        let ghost b = r@;
        let idx = order[k];
        r.push(nodes[idx].crate_name.clone());
        assert(views(r@) =~= views(b).push(nodes@[idx as int].crate_name@));
        assert(order@.map_values(|i: usize| nodes.deep_view()[i as int].crate_name).take(k + 1) =~= order@.map_values(
            |i: usize| nodes.deep_view()[i as int].crate_name,
        ).take(k as int).push(nodes.deep_view()[idx as int].crate_name));
        k += 1;
    }
    assert(order@.map_values(|i: usize| nodes.deep_view()[i as int].crate_name).take(k as int) =~= order@.map_values(
        |i: usize| nodes.deep_view()[i as int].crate_name,
    ));
    r
}

fn all_crate_names(nodes: &Vec<DependencyNode>) -> (r: Vec<String>)
    ensures
        views(r@) == nodes.deep_view().map_values(|n: NodeView| n.crate_name),
{
    let mut r: Vec<String> = Vec::new();
    let mut k: usize = 0;
    while k < nodes.len()
        invariant
            k <= nodes.len(),
            views(r@) == nodes.deep_view().map_values(|n: NodeView| n.crate_name).take(k as int),
        decreases nodes.len() - k,
    {
        let ghost b = r@;
        r.push(nodes[k].crate_name.clone());
        assert(views(r@) =~= views(b).push(nodes@[k as int].crate_name@));
        assert(nodes.deep_view().map_values(|n: NodeView| n.crate_name).take(k + 1) =~= nodes.deep_view().map_values(
            |n: NodeView| n.crate_name,
        ).take(k as int).push(nodes.deep_view()[k as int].crate_name));
        k += 1;
    }
    assert(nodes.deep_view().map_values(|n: NodeView| n.crate_name).take(k as int) =~= nodes.deep_view().map_values(
        |n: NodeView| n.crate_name,
    ));
    r
}

/// The build order of a merged graph (`build_order_of`).
pub fn build_order(nodes: &Vec<DependencyNode>, edges: &Vec<DependencyEdge>) -> (r: (Vec<String>, Option<String>))
    ensures
        (views(r.0@), r.1.deep_view()) == build_order_of(nodes.deep_view(), edges.deep_view()),
{
    let idx = index_edges(nodes, edges);
    match toposort_graph(nodes.len(), &idx) {
        Ok(order) => {
            proof {
                assert forall|k: int| 0 <= k < order.len() implies (#[trigger] order@[k]) < nodes.len() by {
                    assert(order@[k] < nodes.len());
                }
            }
            (crate_names_at(nodes, &order), None)
        },
        Err(c) => (all_crate_names(nodes), Some(nodes[c].crate_name.clone())),
    }
}

// ───────────────────────────── merging ─────────────────────────────────

/// Everything the merge of project graphs gives.
pub struct MergedGraph {
    pub nodes: Vec<DependencyNode>,
    pub edges: Vec<DependencyEdge>,
    /// The projects, in the order their graphs came.
    pub projects: Vec<String>,
    /// The git sources to mirror, each once, in the order first met.
    pub sources: Vec<String>,
    pub build_order: Vec<String>,
    /// A crate on a dependency cycle, when there is one.
    pub cycle_at: Option<String>,
    pub upgrade_plan: Vec<UpgradePlan>,
}

/// Merges the graphs of several projects, found under `input_path`: the
/// merged nodes (`merge_nodes`) and edges (`merge_edges`), the projects,
/// the git sources, the build order over the merged graph, and the
/// upgrade plan of the crates used at several versions. Fails when there
/// is no graph.
pub fn merge_graphs(input_path: &str, graphs: &Vec<ProjectGraph>) -> (r: Result<MergedGraph, String>)
    ensures
        graphs.len() == 0 <==> r is Err,
        r matches Err(e) ==> e@ == "No graph.json files found under "@ + input_path@,
        r matches Ok(m) ==> {
            &&& m.nodes.deep_view() == merge_nodes(all_nodes(graphs@))
            &&& m.edges.deep_view() == merge_edges(all_edges(graphs@))
            &&& views(m.projects@) == graphs@.map_values(|g: ProjectGraph| g.project@)
            &&& views(m.sources@) == distinct_in_order(source_list(all_nodes(graphs@)))
            &&& (views(m.build_order@), m.cycle_at.deep_view()) == build_order_of(
                merge_nodes(all_nodes(graphs@)),
                merge_edges(all_edges(graphs@)),
            )
            &&& m.upgrade_plan@.map_values(|p: UpgradePlan| plan_view(p)) == plans_for(
                all_uses(graphs@),
                distinct_in_order(use_names(all_uses(graphs@))),
            )
        },
{
    if graphs.len() == 0 {
        return Err(cat("No graph.json files found under ", input_path));
    }
    let mut nodes: Vec<DependencyNode> = Vec::new();
    let mut edges: Vec<DependencyEdge> = Vec::new();
    let mut projects: Vec<String> = Vec::new();
    let mut sources: Vec<String> = Vec::new();
    let mut uses: Vec<Use> = Vec::new();
    let mut g: usize = 0;
    assert(graphs@.take(0) =~= Seq::<ProjectGraph>::empty());
    while g < graphs.len()
        invariant
            g <= graphs.len(),
            nodes.deep_view() == merge_nodes(all_nodes(graphs@.take(g as int))),
            edges.deep_view() == merge_edges(all_edges(graphs@.take(g as int))),
            views(projects@) == graphs@.map_values(|g: ProjectGraph| g.project@).take(g as int),
            views(sources@) == distinct_in_order(source_list(all_nodes(graphs@.take(g as int)))),
            use_views(uses@) == all_uses(graphs@.take(g as int)),
        decreases graphs.len() - g,
    {
        let pg = &graphs[g];
        let ghost prev = graphs@.take(g as int);
        assert(graphs@.take(g + 1).drop_last() =~= prev);
        assert(graphs@.take(g + 1).last() == *pg);
        let ghost start_nodes = all_nodes(prev);
        let ghost start_uses = all_uses(prev);
        let ghost pn = pg.nodes.deep_view();
        let mut i: usize = 0;
        assert(pn.take(0) =~= Seq::<NodeView>::empty());
        assert(start_nodes + pn.take(0) =~= start_nodes);
        assert(start_uses + pg.nodes@.take(0).map_values(|n: DependencyNode| (pg.project@, n.crate_name@, n.version@)) =~= start_uses);
        while i < pg.nodes.len()
            invariant
                i <= pg.nodes.len(),
                pn == pg.nodes.deep_view(),
                pn.len() == pg.nodes.len(),
                nodes.deep_view() == merge_nodes(start_nodes + pn.take(i as int)),
                views(sources@) == distinct_in_order(source_list(start_nodes + pn.take(i as int))),
                use_views(uses@) == start_uses + pg.nodes@.take(i as int).map_values(
                    |n: DependencyNode| (pg.project@, n.crate_name@, n.version@),
                ),
            decreases pg.nodes.len() - i,
        {
            let n = &pg.nodes[i];
            let ghost seen = start_nodes + pn.take(i as int);
            assert(start_nodes + pn.take(i + 1) =~= seen.push(n.deep_view()));
            assert(seen.push(n.deep_view()).drop_last() =~= seen);
            merge_node(&mut nodes, n);
            note_source(&mut sources, n, Ghost(seen));
            let ghost ub = uses@;
            uses.push((pg.project.clone(), n.crate_name.clone(), n.version.clone()));
            assert(use_views(uses@) =~= use_views(ub).push((pg.project@, n.crate_name@, n.version@)));
            assert(pg.nodes@.take(i + 1).map_values(|n: DependencyNode| (pg.project@, n.crate_name@, n.version@))
                =~= pg.nodes@.take(i as int).map_values(|n: DependencyNode| (pg.project@, n.crate_name@, n.version@)).push(
                (pg.project@, n.crate_name@, n.version@),
            ));
            i += 1;
        }
        assert(pn.take(i as int) =~= pn);
        assert(pg.nodes@.take(i as int) =~= pg.nodes@);
        let ghost start_edges = all_edges(prev);
        let ghost pe = pg.edges.deep_view();
        let mut j: usize = 0;
        assert(start_edges + pe.take(0) =~= start_edges);
        while j < pg.edges.len()
            invariant
                j <= pg.edges.len(),
                pe == pg.edges.deep_view(),
                pe.len() == pg.edges.len(),
                edges.deep_view() == merge_edges(start_edges + pe.take(j as int)),
            decreases pg.edges.len() - j,
        {
            let e = &pg.edges[j];
            let ghost seen = start_edges + pe.take(j as int);
            assert(start_edges + pe.take(j + 1) =~= seen.push(e.deep_view()));
            assert(seen.push(e.deep_view()).drop_last() =~= seen);
            merge_edge(&mut edges, e);
            j += 1;
        }
        assert(pe.take(j as int) =~= pe);
        let ghost pb = projects@;
        projects.push(pg.project.clone());
        assert(views(projects@) =~= views(pb).push(pg.project@));
        assert(graphs@.map_values(|g: ProjectGraph| g.project@).take(g + 1) =~= graphs@.map_values(
            |g: ProjectGraph| g.project@,
        ).take(g as int).push(pg.project@));
        g += 1;
    }
    assert(graphs@.take(g as int) =~= graphs@);
    assert(graphs@.map_values(|g: ProjectGraph| g.project@).take(g as int) =~= graphs@.map_values(
        |g: ProjectGraph| g.project@,
    ));
    let (order, cycle_at) = build_order(&nodes, &edges);
    let upgrade_plan = upgrade_plans(&uses);
    Ok(MergedGraph { nodes, edges, projects, sources, build_order: order, cycle_at, upgrade_plan })
}


// ───────────────────────────── laws ────────────────────────────────────

/// Some node of `ns` has the id `x`.
pub open spec fn has_id(ns: Seq<NodeView>, x: Seq<char>) -> bool {
    exists|k: int| 0 <= k < ns.len() && (#[trigger] ns[k]).id == x
}

/// Merging keeps one node per id: the merged nodes have pairwise distinct
/// ids, and an id is among them exactly when some merged-in node has it.
pub proof fn lemma_merge_nodes_ids(all: Seq<NodeView>)
    ensures
        forall|i: int, j: int|
            0 <= i < j < merge_nodes(all).len() ==> (#[trigger] merge_nodes(all)[i]).id != (#[trigger] merge_nodes(all)[j]).id,
        forall|x: Seq<char>| has_id(merge_nodes(all), x) <==> has_id(all, x),
    decreases all.len(),
{
    if all.len() > 0 {
        let prev = all.drop_last();
        let m = merge_nodes(prev);
        let n = all.last();
        lemma_merge_nodes_ids(prev);
        lemma_position_bounds(m, n.id);
        let r = merge_nodes(all);
        assert(r == node_step(m, n));
        assert forall|x: Seq<char>| has_id(r, x) <==> has_id(all, x) by {
            if has_id(all, x) {
                let k = choose|k: int| 0 <= k < all.len() && (#[trigger] all[k]).id == x;
                if k < all.len() - 1 {
                    assert(prev[k].id == x);
                    assert(has_id(prev, x));
                    let q = choose|q: int| 0 <= q < m.len() && (#[trigger] m[q]).id == x;
                    assert(r[q].id == x);
                } else {
                    match position_of_id(m, n.id) {
                        Some(p) => {
                            assert(r[p].id == x);
                        },
                        None => {
                            assert(r[m.len() as int].id == x);
                        },
                    }
                }
            }
            if has_id(r, x) {
                let k = choose|k: int| 0 <= k < r.len() && (#[trigger] r[k]).id == x;
                if k < m.len() {
                    match position_of_id(m, n.id) {
                        Some(p) => {
                            if n.is_workspace_member && k == p {
                                assert(r[k].id == m[k].id);
                            } else {
                                assert(r[k] == m[k]);
                            }
                        },
                        None => {
                            assert(r[k] == m[k]);
                        },
                    }
                    assert(m[k].id == x);
                    assert(has_id(m, x));
                    assert(has_id(prev, x));
                    let q = choose|q: int| 0 <= q < prev.len() && (#[trigger] prev[q]).id == x;
                    assert(all[q].id == x);
                } else {
                    assert(all[all.len() - 1].id == x);
                }
            }
        }
    }
}

/// Merging keeps one edge per pair of ends: the merged edges have
/// pairwise distinct `(from, to)` pairs.
pub proof fn lemma_merge_edges_distinct(all: Seq<EdgeView>)
    ensures
        forall|i: int, j: int|
            0 <= i < j < merge_edges(all).len() ==> !((#[trigger] merge_edges(all)[i]).from == (#[trigger] merge_edges(
                all,
            )[j]).from && merge_edges(all)[i].to == merge_edges(all)[j].to),
    decreases all.len(),
{
    if all.len() > 0 {
        lemma_merge_edges_distinct(all.drop_last());
    }
}


// ───────────────────────────── CBOR users ──────────────────────────────

/// The DAG-CBOR serialisation crates.
pub open spec fn is_cbor_crate(name: Seq<char>) -> bool {
    name == "serde_ipld_dagcbor"@ || name == "serde_ipld_dagcbor-escaped"@
}

/// A node is a CBOR crate, or has an edge to a node that is one.
pub open spec fn uses_cbor(ns: Seq<NodeView>, es: Seq<EdgeView>, n: NodeView) -> bool {
    is_cbor_crate(n.crate_name) || exists|k: int, j: int|
        0 <= k < es.len() && 0 <= j < ns.len() && (#[trigger] es[k]).from == n.id && es[k].to == (#[trigger] ns[j]).id
            && is_cbor_crate(ns[j].crate_name)
}

fn is_cbor_name(name: &str) -> (r: bool)
    ensures
        r == is_cbor_crate(name@),
{
    str_eq(name, "serde_ipld_dagcbor") || str_eq(name, "serde_ipld_dagcbor-escaped")
}

fn points_to_cbor(nodes: &Vec<DependencyNode>, to: &str) -> (r: bool)
    ensures
        r == exists|j: int| 0 <= j < nodes.len() && nodes.deep_view()[j].id == to@ && is_cbor_crate(#[trigger] nodes.deep_view()[j].crate_name),
{
    let mut j: usize = 0;
    while j < nodes.len()
        invariant
            j <= nodes.len(),
            forall|q: int| 0 <= q < j ==> !(nodes.deep_view()[q].id == to@ && is_cbor_crate(#[trigger] nodes.deep_view()[q].crate_name)),
        decreases nodes.len() - j,
    {
        assert(nodes.deep_view()[j as int] == nodes@[j as int].deep_view());
        if str_eq(nodes[j].id.as_str(), to) && is_cbor_name(nodes[j].crate_name.as_str()) {
            assert(nodes.deep_view()[j as int].id == to@);
            assert(is_cbor_crate(nodes.deep_view()[j as int].crate_name));
            return true;
        }
        j += 1;
    }
    false
}

/// The crates that use DAG-CBOR: each CBOR crate and each crate with a
/// direct dependency on one, each name once, in node order.
pub fn analyze_cbor_usage(nodes: &Vec<DependencyNode>, edges: &Vec<DependencyEdge>) -> (r: Vec<String>)
    ensures
        forall|a: int, b: int| 0 <= a < b < r.len() ==> r@[a]@ != r@[b]@,
        forall|x: Seq<char>|
            views(r@).contains(x) <==> exists|k: int|
                0 <= k < nodes.len() && (#[trigger] nodes.deep_view()[k]).crate_name == x && uses_cbor(
                    nodes.deep_view(),
                    edges.deep_view(),
                    nodes.deep_view()[k],
                ),
{
    let ghost ns = nodes.deep_view();
    let ghost es = edges.deep_view();
    let mut r: Vec<String> = Vec::new();
    let mut i: usize = 0;
    while i < nodes.len()
        invariant
            i <= nodes.len(),
            ns == nodes.deep_view(),
            es == edges.deep_view(),
            forall|a: int, b: int| 0 <= a < b < r.len() ==> r@[a]@ != r@[b]@,
            forall|x: Seq<char>|
                views(r@).contains(x) <==> exists|k: int|
                    0 <= k < i && (#[trigger] ns[k]).crate_name == x && uses_cbor(ns, es, ns[k]),
        decreases nodes.len() - i,
    {
        let n = &nodes[i];
        assert(ns[i as int] == n.deep_view());
        let mut uses = is_cbor_name(n.crate_name.as_str());
        let mut k: usize = 0;
        while k < edges.len() && !uses
            invariant
                k <= edges.len(),
                ns == nodes.deep_view(),
                es == edges.deep_view(),
                ns[i as int] == n.deep_view(),
                i < nodes.len(),
                uses ==> uses_cbor(ns, es, ns[i as int]),
                !uses ==> !is_cbor_crate(n.crate_name@) && forall|q: int, j: int|
                    0 <= q < k && 0 <= j < ns.len() ==> !((#[trigger] es[q]).from == n.id@ && es[q].to == (#[trigger] ns[j]).id
                        && is_cbor_crate(ns[j].crate_name)),
            decreases edges.len() - k,
        {
            if str_eq(edges[k].from.as_str(), n.id.as_str()) && points_to_cbor(nodes, edges[k].to.as_str()) {
                let ghost j = choose|j: int| 0 <= j < nodes.len() && nodes.deep_view()[j].id == edges@[k as int].to@ && is_cbor_crate(#[trigger] nodes.deep_view()[j].crate_name);
                assert(es[k as int].from == n.id@ && es[k as int].to == ns[j].id && is_cbor_crate(ns[j].crate_name));
                uses = true;
            }
            k += 1;
        }
        proof {
            if !uses {
                assert(!uses_cbor(ns, es, ns[i as int]));
            }
        }
        let ghost before = views(r@);
        if uses {
            let mut seen = false;
            let mut q: usize = 0;
            while q < r.len()
                invariant
                    q <= r.len(),
                    views(r@) == before,
                    !seen ==> forall|a: int| 0 <= a < q ==> r@[a]@ != n.crate_name@,
                    seen ==> views(r@).contains(n.crate_name@),
                decreases r.len() - q,
            {
                if str_eq(r[q].as_str(), n.crate_name.as_str()) {
                    assert(views(r@)[q as int] == n.crate_name@);
                    seen = true;
                }
                q += 1;
            }
            if !seen {
                r.push(n.crate_name.clone());
                assert(views(r@) =~= before.push(n.crate_name@));
                assert(views(r@)[before.len() as int] == n.crate_name@);
            }
        }
        proof {
            assert(uses ==> views(r@).contains(n.crate_name@));
            assert(views(r@) == before || views(r@) == before.push(n.crate_name@));
            assert forall|x: Seq<char>| before.contains(x) implies views(r@).contains(x) by {
                let j = choose|j: int| 0 <= j < before.len() && before[j] == x;
                assert(views(r@)[j] == x);
            }
            assert(forall|x: Seq<char>| views(r@).contains(x) ==> before.contains(x) || (uses && x == n.crate_name@));
            assert forall|x: Seq<char>| views(r@).contains(x) <==> exists|k: int|
                0 <= k < i + 1 && (#[trigger] ns[k]).crate_name == x && uses_cbor(ns, es, ns[k]) by {
                if views(r@).contains(x) {
                    if before.contains(x) {
                        let k = choose|k: int| 0 <= k < i && (#[trigger] ns[k]).crate_name == x && uses_cbor(ns, es, ns[k]);
                        assert(0 <= k < i + 1);
                    } else {
                        assert(ns[i as int].crate_name == x && uses_cbor(ns, es, ns[i as int]));
                    }
                }
                if exists|k: int| 0 <= k < i + 1 && (#[trigger] ns[k]).crate_name == x && uses_cbor(ns, es, ns[k]) {
                    let k = choose|k: int| 0 <= k < i + 1 && (#[trigger] ns[k]).crate_name == x && uses_cbor(ns, es, ns[k]);
                    if k == i {
                        assert(uses);
                    } else {
                        assert(before.contains(x));
                    }
                }
            }
        }
        i += 1;
    }
    r
}

} // verus!
