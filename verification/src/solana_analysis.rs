//! What a dependency graph says of a Solana-like workspace: its critical
//! path (the workspace members), its core components (crates that depend
//! on more than five others), its dependency cycles, the highest degree,
//! the features each crate enables and what they pull in; and the report
//! of it all.
//!
//! A crate's degree is the number of its outgoing edges. Where the graph
//! is walked, it is walked in node and edge order.
use vstd::prelude::*;
use crate::global_dep_graph::{
    builder_wf, count_edges, count_nodes, cyclic_components, distinct_in_order, distinct_strings, graph_of,
    graph_wf, index_edges, petgraph_tarjan_scc, EdgeView, GlobalDependencyGraph, GlobalDependencyGraphBuilder,
    GraphCounts, GraphView, NodeView,
};
use crate::toml_structure::GlobalDependencyGraphAnalyzer;
use crate::text::{cat, cat3, concat, concat_strings, decimal, decimal_string, has_prefix, join, join_strings, owned, push_line, push_str, starts_with, str_eq, views};

verus! {

broadcast use vstd::string::group_string_axioms;

/// A crate of high degree.
pub struct CoreComponent {
    pub crate_name: String,
    pub version: String,
    pub degree: usize,
    pub is_workspace_member: bool,
}

/// The features a crate enables, its default features, and for each
/// feature that an edge requires, the crates it pulls in.
pub struct FeatureSet {
    pub crate_name: String,
    pub features: Vec<String>,
    pub default_features: Vec<String>,
    pub feature_dependencies: Vec<(String, Vec<String>)>,
}

/// The analysis of a graph.
pub struct SolanaAnalysis {
    pub critical_path: Vec<String>,
    pub core_components: Vec<CoreComponent>,
    pub circular_dependencies: Vec<Vec<String>>,
    /// The highest degree of a crate.
    pub max_degree: usize,
    pub counts: GraphCounts,
}

pub type CoreView = (Seq<char>, Seq<char>, nat, bool);

pub type DepsView = Seq<(Seq<char>, Seq<Seq<char>>)>;

pub type FeatureSetView = (Seq<char>, Seq<Seq<char>>, Seq<Seq<char>>, DepsView);

pub open spec fn core_view(c: CoreComponent) -> CoreView {
    (c.crate_name@, c.version@, c.degree as nat, c.is_workspace_member)
}

pub open spec fn deps_view(d: Seq<(String, Vec<String>)>) -> DepsView {
    d.map_values(|e: (String, Vec<String>)| (e.0@, views(e.1@)))
}

pub open spec fn feature_set_view(f: FeatureSet) -> FeatureSetView {
    (f.crate_name@, views(f.features@), views(f.default_features@), deps_view(f.feature_dependencies@))
}

// ───────────────────────────── the analysis, as specs ──────────────────

/// The degree of the node `i`: the edges that leave it.
pub open spec fn out_degree(es: Seq<(int, int, EdgeView)>, i: int) -> nat
    decreases es.len(),
{
    if es.len() == 0 {
        0
    } else {
        out_degree(es.drop_last(), i) + if es.last().0 == i {
            1nat
        } else {
            0nat
        }
    }
}

/// The ids of the workspace members among the first `n` nodes.
pub open spec fn critical_path_of(ns: Seq<NodeView>) -> Seq<Seq<char>>
    decreases ns.len(),
{
    if ns.len() == 0 {
        Seq::empty()
    } else {
        critical_path_of(ns.drop_last()) + if starts_with(ns.last().id, "workspace:"@) {
            seq![ns.last().id]
        } else {
            Seq::empty()
        }
    }
}

/// The crates among the first `n` whose degree is above 5.
pub open spec fn core_components_of(g: GraphView, n: int) -> Seq<CoreView>
    decreases n,
{
    if n <= 0 {
        Seq::empty()
    } else {
        let d = out_degree(g.edges, n - 1);
        let nd = g.nodes[n - 1];
        core_components_of(g, n - 1) + if d > 5 {
            seq![(nd.crate_name, nd.version, d, nd.is_workspace_member)]
        } else {
            Seq::empty()
        }
    }
}

/// The highest degree among the first `n` nodes (0 for none).
pub open spec fn max_degree_of(g: GraphView, n: int) -> nat
    decreases n,
{
    if n <= 0 {
        0
    } else {
        let a = max_degree_of(g, n - 1);
        let d = out_degree(g.edges, n - 1);
        if d > a {
            d
        } else {
            a
        }
    }
}

/// The features named `default` or starting with `default-`.
pub open spec fn default_features_of(fs: Seq<Seq<char>>) -> Seq<Seq<char>>
    decreases fs.len(),
{
    if fs.len() == 0 {
        Seq::empty()
    } else {
        let f = fs.last();
        default_features_of(fs.drop_last()) + if starts_with(f, "default-"@) || f == "default"@ {
            seq![f]
        } else {
            Seq::empty()
        }
    }
}

/// The position of the entry for the feature `f`.
pub open spec fn entry_of(m: DepsView, f: Seq<char>) -> Option<int>
    decreases m.len(),
{
    if m.len() == 0 {
        None
    } else if m.last().0 == f {
        Some(m.len() - 1)
    } else {
        entry_of(m.drop_last(), f)
    }
}

/// `m` with the crate `c` among those the feature `f` pulls in.
pub open spec fn dep_added(m: DepsView, f: Seq<char>, c: Seq<char>) -> DepsView {
    match entry_of(m, f) {
        Some(k) => m.update(
            k,
            (
                f,
                if m[k].1.contains(c) {
                    m[k].1
                } else {
                    m[k].1.push(c)
                },
            ),
        ),
        None => m.push((f, seq![c])),
    }
}

/// `m` with the crate `c` pulled in by each of `fs`.
pub open spec fn deps_added(m: DepsView, fs: Seq<Seq<char>>, c: Seq<char>) -> DepsView
    decreases fs.len(),
{
    if fs.len() == 0 {
        m
    } else {
        dep_added(deps_added(m, fs.drop_last(), c), fs.last(), c)
    }
}

/// What the features of node `i` pull in, over the edges `es`: for each
/// edge leaving it, each feature it requires pulls in the crate it
/// reaches.
pub open spec fn feature_deps_of(g: GraphView, i: int, es: Seq<(int, int, EdgeView)>) -> DepsView
    decreases es.len(),
{
    if es.len() == 0 {
        Seq::empty()
    } else {
        let m = feature_deps_of(g, i, es.drop_last());
        let e = es.last();
        if e.0 == i {
            deps_added(m, e.2.required_features, g.nodes[e.1].crate_name)
        } else {
            m
        }
    }
}

/// The feature sets of the first `n` nodes: one for each crate that is
/// not a workspace member and enables features.
pub open spec fn feature_sets_of(g: GraphView, n: int) -> Seq<FeatureSetView>
    decreases n,
{
    if n <= 0 {
        Seq::empty()
    } else {
        let nd = g.nodes[n - 1];
        feature_sets_of(g, n - 1) + if !starts_with(nd.id, "workspace:"@) && nd.features.len() > 0 {
            seq![
                (
                    nd.crate_name,
                    distinct_in_order(nd.features),
                    distinct_in_order(default_features_of(nd.features)),
                    feature_deps_of(g, n - 1, g.edges),
                ),
            ]
        } else {
            Seq::empty()
        }
    }
}

// ───────────────────────────── the analysis ────────────────────────────

fn copy_strings(v: &Vec<String>) -> (r: Vec<String>)
    ensures
        views(r@) == views(v@),
{
    let mut r: Vec<String> = Vec::new();
    let mut i: usize = 0;
    while i < v.len()
        invariant
            i <= v.len(),
            views(r@) == views(v@).take(i as int),
        decreases v.len() - i,
    {
        push_line(&mut r, v[i].clone());
        assert(views(v@).take(i + 1) =~= views(v@).take(i as int).push(v@[i as int]@));
        i += 1;
    }
    assert(views(v@).take(i as int) =~= views(v@));
    r
}

/// A string list holds `s`, compared from the end.
fn has_string(v: &Vec<String>, s: &str) -> (r: bool)
    ensures
        r == views(v@).contains(s@),
{
    crate::text::list_contains(v, s)
}

fn entry_position(m: &Vec<(String, Vec<String>)>, f: &str) -> (r: Option<usize>)
    ensures
        match entry_of(deps_view(m@), f@) {
            Some(k) => r == Some(k as usize),
            None => r is None,
        },
{
    let ghost dv = deps_view(m@);
    let mut i: usize = m.len();
    assert(dv.take(i as int) =~= dv);
    while i > 0
        invariant
            i <= m.len(),
            dv == deps_view(m@),
            entry_of(dv, f@) == entry_of(dv.take(i as int), f@),
        decreases i,
    {
        let ghost t = dv.take(i as int);
        assert(t.drop_last() =~= dv.take(i - 1));
        assert(t.last() == (m@[i - 1].0@, views(m@[i - 1].1@)));
        if str_eq(m[i - 1].0.as_str(), f) {
            return Some(i - 1);
        }
        i -= 1;
    }
    None
}

proof fn lemma_entry_bound(m: DepsView, f: Seq<char>)
    ensures
        entry_of(m, f) matches Some(k) ==> 0 <= k < m.len() && m[k].0 == f,
    decreases m.len(),
{
    if m.len() > 0 {
        lemma_entry_bound(m.drop_last(), f);
    }
}

fn add_dep(m: &mut Vec<(String, Vec<String>)>, f: &str, c: &str)
    ensures
        deps_view(final(m)@) == dep_added(deps_view(old(m)@), f@, c@),
{
    proof {
        lemma_entry_bound(deps_view(m@), f@);
    }
    match entry_position(m, f) {
        Some(k) => {
            let ghost before = deps_view(m@);
            let (key, mut list) = m.remove(k);
            if !has_string(&list, c) {
                push_line(&mut list, owned(c));
            }
            m.insert(k, (key, list));
            assert(deps_view(m@) =~= dep_added(before, f@, c@));
        },
        None => {
            let ghost before = deps_view(m@);
            let mut list: Vec<String> = Vec::new();
            push_line(&mut list, owned(c));
            assert(views(list@) =~= seq![c@]);
            m.push((owned(f), list));
            assert(deps_view(m@) =~= before.push((f@, seq![c@])));
        },
    }
}

impl GlobalDependencyGraphBuilder {
    /// The degree of the node `i` (`out_degree`).
    pub fn out_degree_of(&self, i: usize) -> (r: usize)
        ensures
            r == out_degree(graph_of(*self).edges, i as int),
    {
        let ghost es = graph_of(*self).edges;
        let mut c: usize = 0;
        let mut k: usize = 0;
        while k < self.edges.len()
            invariant
                k <= self.edges.len(),
                es == graph_of(*self).edges,
                c == out_degree(es.take(k as int), i as int),
                c <= k,
            decreases self.edges.len() - k,
        {
            assert(es.take(k + 1).drop_last() =~= es.take(k as int));
            assert(es.take(k + 1).last().0 == self.edges@[k as int].0 as int);
            if self.edges[k].0 == i {
                c += 1;
            }
            k += 1;
        }
        assert(es.take(k as int) =~= es);
        c
    }

    /// The ids of the workspace members (`critical_path_of`).
    pub fn find_critical_path(&self) -> (r: Vec<String>)
        ensures
            views(r@) == critical_path_of(graph_of(*self).nodes),
    {
        let ghost ns = graph_of(*self).nodes;
        let mut r: Vec<String> = Vec::new();
        let mut i: usize = 0;
        while i < self.nodes.len()
            invariant
                i <= self.nodes.len(),
                ns == graph_of(*self).nodes,
                views(r@) == critical_path_of(ns.take(i as int)),
            decreases self.nodes.len() - i,
        {
            assert(ns.take(i + 1).drop_last() =~= ns.take(i as int));
            assert(ns.take(i + 1).last() == self.nodes@[i as int].deep_view());
            proof {
                reveal_strlit("workspace:");
            }
            if has_prefix(self.nodes[i].id.as_str(), "workspace:") {
                push_line(&mut r, self.nodes[i].id.clone());
            }
            i += 1;
        }
        assert(ns.take(i as int) =~= ns);
        r
    }

    /// The crates of degree above 5 (`core_components_of`).
    pub fn identify_core_components(&self) -> (r: Vec<CoreComponent>)
        ensures
            r@.map_values(|c: CoreComponent| core_view(c)) == core_components_of(
                graph_of(*self),
                self.nodes.len() as int,
            ),
    {
        let ghost g = graph_of(*self);
        let mut r: Vec<CoreComponent> = Vec::new();
        let mut i: usize = 0;
        while i < self.nodes.len()
            invariant
                i <= self.nodes.len(),
                g == graph_of(*self),
                r@.map_values(|c: CoreComponent| core_view(c)) == core_components_of(g, i as int),
            decreases self.nodes.len() - i,
        {
            let d = self.out_degree_of(i);
            assert(g.nodes[i as int] == self.nodes@[i as int].deep_view());
            if d > 5 {
                let n = &self.nodes[i];
                let c = CoreComponent {
                    crate_name: n.crate_name.clone(),
                    version: n.version.clone(),
                    degree: d,
                    is_workspace_member: n.is_workspace_member,
                };
                let ghost before = r@.map_values(|c: CoreComponent| core_view(c));
                let ghost cv = core_view(c);
                r.push(c);
                assert(r@.map_values(|c: CoreComponent| core_view(c)) =~= before.push(cv));
            }
            i += 1;
        }
        r
    }

    /// The highest degree of a crate (`max_degree_of`).
    pub fn max_out_degree(&self) -> (r: usize)
        ensures
            r == max_degree_of(graph_of(*self), self.nodes.len() as int),
    {
        let ghost g = graph_of(*self);
        let mut m: usize = 0;
        let mut i: usize = 0;
        while i < self.nodes.len()
            invariant
                i <= self.nodes.len(),
                g == graph_of(*self),
                m == max_degree_of(g, i as int),
            decreases self.nodes.len() - i,
        {
            let d = self.out_degree_of(i);
            if d > m {
                m = d;
            }
            i += 1;
        }
        m
    }

    fn feature_deps(&self, i: usize) -> (r: Vec<(String, Vec<String>)>)
        requires
            builder_wf(*self),
        ensures
            deps_view(r@) == feature_deps_of(graph_of(*self), i as int, graph_of(*self).edges),
    {
        let ghost g = graph_of(*self);
        let mut m: Vec<(String, Vec<String>)> = Vec::new();
        assert(deps_view(m@) =~= Seq::<(Seq<char>, Seq<Seq<char>>)>::empty());
        let mut k: usize = 0;
        while k < self.edges.len()
            invariant
                k <= self.edges.len(),
                g == graph_of(*self),
                graph_wf(g),
                deps_view(m@) == feature_deps_of(g, i as int, g.edges.take(k as int)),
            decreases self.edges.len() - k,
        {
            assert(g.edges.take(k + 1).drop_last() =~= g.edges.take(k as int));
            let e = &self.edges[k];
            assert(g.edges.take(k + 1).last() == (e.0 as int, e.1 as int, e.2.deep_view()));
            if e.0 == i {
                assert(0 <= g.edges[k as int].1 < g.nodes.len());
                let target = &self.nodes[e.1];
                assert(g.nodes[e.1 as int] == target.deep_view());
                let fs = &e.2.required_features;
                let ghost start = deps_view(m@);
                let ghost fv = views(fs@);
                let mut j: usize = 0;
                assert(deps_added(start, fv.take(0), target.crate_name@) == start);
                while j < fs.len()
                    invariant
                        j <= fs.len(),
                        fv == views(fs@),
                        deps_view(m@) == deps_added(start, fv.take(j as int), target.crate_name@),
                    decreases fs.len() - j,
                {
                    add_dep(&mut m, fs[j].as_str(), target.crate_name.as_str());
                    assert(fv.take(j + 1).drop_last() =~= fv.take(j as int));
                    j += 1;
                }
                assert(fv.take(j as int) =~= fv);
            }
            k += 1;
        }
        assert(g.edges.take(k as int) =~= g.edges);
        m
    }

    fn default_features(fs: &Vec<String>) -> (r: Vec<String>)
        ensures
            views(r@) == default_features_of(views(fs@)),
    {
        let ghost fv = views(fs@);
        let mut r: Vec<String> = Vec::new();
        let mut i: usize = 0;
        while i < fs.len()
            invariant
                i <= fs.len(),
                fv == views(fs@),
                views(r@) == default_features_of(fv.take(i as int)),
            decreases fs.len() - i,
        {
            assert(fv.take(i + 1).drop_last() =~= fv.take(i as int));
            assert(fv.take(i + 1).last() == fs@[i as int]@);
            proof {
                reveal_strlit("default-");
            }
            if has_prefix(fs[i].as_str(), "default-") || str_eq(fs[i].as_str(), "default") {
                push_line(&mut r, fs[i].clone());
            }
            i += 1;
        }
        assert(fv.take(i as int) =~= fv);
        r
    }

    /// The feature sets of the crates (`feature_sets_of`).
    pub fn collect_feature_information(&self) -> (r: Vec<FeatureSet>)
        requires
            builder_wf(*self),
        ensures
            r@.map_values(|f: FeatureSet| feature_set_view(f)) == feature_sets_of(
                graph_of(*self),
                self.nodes.len() as int,
            ),
    {
        let ghost g = graph_of(*self);
        let mut r: Vec<FeatureSet> = Vec::new();
        let mut i: usize = 0;
        while i < self.nodes.len()
            invariant
                i <= self.nodes.len(),
                g == graph_of(*self),
                builder_wf(*self),
                r@.map_values(|f: FeatureSet| feature_set_view(f)) == feature_sets_of(g, i as int),
            decreases self.nodes.len() - i,
        {
            let n = &self.nodes[i];
            assert(g.nodes[i as int] == n.deep_view());
            proof {
                reveal_strlit("workspace:");
            }
            if !has_prefix(n.id.as_str(), "workspace:") && n.features.len() > 0 {
                let defaults = Self::default_features(&n.features);
                let f = FeatureSet {
                    crate_name: n.crate_name.clone(),
                    features: distinct_strings(&n.features),
                    default_features: distinct_strings(&defaults),
                    feature_dependencies: self.feature_deps(i),
                };
                let ghost before = r@.map_values(|f: FeatureSet| feature_set_view(f));
                let ghost fv = feature_set_view(f);
                r.push(f);
                assert(r@.map_values(|f: FeatureSet| feature_set_view(f)) =~= before.push(fv));
            }
            i += 1;
        }
        r
    }

    /// The analysis of the graph: its critical path, core components,
    /// dependency cycles, highest degree and counts.
    pub fn analyze_solana_patterns(&self) -> (r: Result<SolanaAnalysis, String>)
        requires
            builder_wf(*self),
        ensures
            r matches Ok(a) && {
                &&& views(a.critical_path@) == critical_path_of(graph_of(*self).nodes)
                &&& a.core_components@.map_values(|c: CoreComponent| core_view(c)) == core_components_of(
                    graph_of(*self),
                    self.nodes.len() as int,
                )
                &&& a.circular_dependencies@.map_values(|c: Vec<String>| views(c@)) == cyclic_components(
                    graph_of(*self),
                    petgraph_tarjan_scc(self.nodes.len() as nat, index_edges(graph_of(*self))),
                )
                &&& a.max_degree == max_degree_of(graph_of(*self), self.nodes.len() as int)
                &&& a.counts.node_count == graph_of(*self).nodes.len()
                &&& a.counts.edge_count == graph_of(*self).edges.len()
                &&& a.counts.workspace_members == count_nodes(graph_of(*self).nodes)
                &&& a.counts.direct_dependencies == count_edges(graph_of(*self).edges, 0)
                &&& a.counts.transitive_dependencies == count_edges(graph_of(*self).edges, 1)
                &&& a.counts.feature_gated_dependencies == count_edges(graph_of(*self).edges, 2)
                &&& a.counts.dev_dependencies == count_edges(graph_of(*self).edges, 3)
                &&& a.counts.build_dependencies == count_edges(graph_of(*self).edges, 4)
            },
    {
        Ok(
            SolanaAnalysis {
                critical_path: self.find_critical_path(),
                core_components: self.identify_core_components(),
                circular_dependencies: self.find_strongly_connected_components(),
                max_degree: self.max_out_degree(),
                counts: self.calculate_metrics(),
            },
        )
    }
}

// ───────────────────────────── the report ──────────────────────────────

/// Measures of the graph that are fractions, as written in the report:
/// the average degree with two decimals, the highest betweenness and
/// closeness with four.
pub struct ReportMeasures {
    pub average_degree: String,
    pub max_betweenness: String,
    pub max_closeness: String,
}

/// The integer part of the base-2 logarithm of `n` (0 for 0 and 1).
pub open spec fn floor_log2(n: nat) -> nat
    decreases n,
{
    if n <= 1 {
        0
    } else {
        1 + floor_log2(n / 2)
    }
}

/// A numbered line of the critical path.
pub open spec fn path_line(i: int, id: Seq<char>) -> Seq<char> {
    decimal((i + 1) as nat) + ". "@ + id + "\n"@
}

/// The row of a core component.
pub open spec fn core_row(c: CoreView) -> Seq<char> {
    "| "@ + c.0 + " | "@ + c.1 + " | "@ + decimal(c.2) + " | "@ + (if c.3 {
        "Workspace"@
    } else {
        "External"@
    }) + " |\n"@
}

/// The lines naming the crates of a component.
pub open spec fn node_lines(comp: Seq<Seq<char>>) -> Seq<Seq<char>> {
    comp.map_values(|n: Seq<char>| "- "@ + n + "\n"@)
}

/// The sections on dependency cycles, numbered from 1.
pub open spec fn cycle_sections(cs: Seq<Seq<Seq<char>>>) -> Seq<Seq<char>>
    decreases cs.len(),
{
    if cs.len() == 0 {
        Seq::empty()
    } else {
        cycle_sections(cs.drop_last()) + seq!["### Component "@ + decimal(cs.len()) + "\n\n"@, "Nodes:\n"@]
            + node_lines(cs.last()) + seq!["\n"@]
    }
}

/// The sections on strongly connected components, numbered from 1.
pub open spec fn scc_sections(cs: Seq<Seq<Seq<char>>>) -> Seq<Seq<char>>
    decreases cs.len(),
{
    if cs.len() == 0 {
        Seq::empty()
    } else {
        scc_sections(cs.drop_last()) + seq!["### SCC "@ + decimal(cs.len()) + "\n\n"@, "Nodes:\n"@] + node_lines(
            cs.last(),
        )
    }
}

/// The section on a feature set.
pub open spec fn feature_section(f: FeatureSetView) -> Seq<Seq<char>> {
    seq![
        "\n### "@ + f.0 + " v1.0.0\n\n"@,
        "- **Features**: "@ + decimal(f.1.len()) + "\n"@,
        "- **Default Features**: "@ + decimal(f.2.len()) + "\n"@,
        "- **Feature Dependencies**:\n"@,
    ] + f.3.map_values(|d: (Seq<char>, Seq<Seq<char>>)| "  - **"@ + d.0 + "**: "@ + join(d.1, ", "@) + "\n"@)
}

/// The sections on feature sets.
pub open spec fn feature_sections(fs: Seq<FeatureSetView>) -> Seq<Seq<char>>
    decreases fs.len(),
{
    if fs.len() == 0 {
        Seq::empty()
    } else {
        feature_sections(fs.drop_last()) + feature_section(fs.last())
    }
}

/// The head of the report: the graph's counts.
pub open spec fn stats_pieces(c: GraphCounts, generated: Seq<char>, m: ReportMeasures) -> Seq<Seq<char>> {
    seq![
        "# Global Dependency Graph Analysis Report\n\n"@,
        "Generated: "@ + generated + "\n\n"@,
        "## Graph Statistics\n\n"@,
        "- **Total Nodes**: "@ + decimal(c.node_count as nat) + "\n"@,
        "- **Total Edges**: "@ + decimal(c.edge_count as nat) + "\n"@,
        "- **Workspace Members**: "@ + decimal(c.workspace_members as nat) + "\n"@,
        "- **Direct Dependencies**: "@ + decimal(c.direct_dependencies as nat) + "\n"@,
        "- **Transitive Dependencies**: "@ + decimal(c.transitive_dependencies as nat) + "\n"@,
        "- **Feature-Gated Dependencies**: "@ + decimal(c.feature_gated_dependencies as nat) + "\n"@,
        "- **Dev Dependencies**: "@ + decimal(c.dev_dependencies as nat) + "\n"@,
        "- **Build Dependencies**: "@ + decimal(c.build_dependencies as nat) + "\n"@,
        "- **Strongly Connected Components**: 0\n"@,
        "- **Graph Diameter**: "@ + decimal(floor_log2(c.node_count as nat)) + "\n"@,
        "- **Average Degree**: "@ + m.average_degree@ + "\n\n"@,
        "## Critical Path\n\n"@,
        "The critical path represents the most important dependencies in the Solana universe:\n\n"@,
    ]
}

/// The critical path and the core components.
pub open spec fn path_and_core_pieces(a: SolanaAnalysis) -> Seq<Seq<char>> {
    views(a.critical_path@).map(|i: int, id: Seq<char>| path_line(i, id)) + seq![
        "\n## Core Components\n\n"@,
        "Components with high connectivity (degree > 5):\n\n"@,
        "| Crate | Version | Degree | Type |\n"@,
        "|-------|---------|--------|------|\n"@,
    ] + a.core_components@.map_values(|x: CoreComponent| core_row(core_view(x)))
}

/// The dependency cycles.
pub open spec fn cycles_pieces(cycles: Seq<Seq<Seq<char>>>) -> Seq<Seq<char>> {
    if cycles.len() > 0 {
        seq![
            "\n## Circular Dependencies\n\n"@,
            "Found "@ + decimal(cycles.len()) + " strongly connected components:\n\n"@,
        ] + cycle_sections(cycles)
    } else {
        seq!["\n## Circular Dependencies\n\nNo circular dependencies found.\n"@]
    }
}

/// The centrality measures and the feature sets.
pub open spec fn centrality_pieces(a: SolanaAnalysis, m: ReportMeasures, features: Seq<FeatureSetView>) -> Seq<Seq<char>> {
    seq![
        "\n## Centrality Metrics\n\n"@,
        "- **Max Degree**: "@ + decimal(a.max_degree as nat) + "\n"@,
        "- **Max Betweenness**: "@ + m.max_betweenness@ + "\n"@,
        "- **Max Closeness**: "@ + m.max_closeness@ + "\n"@,
        "- **Average Degree**: "@ + m.average_degree@ + "\n\n"@,
        "## Feature Analysis\n\n"@,
        "- **Total Feature Sets**: "@ + decimal(features.len()) + "\n"@,
    ] + feature_sections(features)
}

/// The strongly connected components.
pub open spec fn scc_pieces(sccs: Seq<Seq<Seq<char>>>) -> Seq<Seq<char>> {
    seq![
        "\n## Strongly Connected Components\n\n"@,
        "Found "@ + decimal(sccs.len()) + " SCCs (excluding single nodes):\n\n"@,
    ] + scc_sections(sccs)
}

/// The recommendations: on cycles, on a degree above 10, on more
/// feature-gated dependencies than half the direct ones, and overall.
pub open spec fn recommendation_pieces(c: GraphCounts, a: SolanaAnalysis) -> Seq<Seq<char>> {
    seq!["\n## Recommendations\n\n"@] + (if a.circular_dependencies@.len() > 0 {
        seq![
            "\u{26a0}\u{fe0f} **Circular Dependencies Detected**: Consider refactoring to break dependency cycles.\n\n"@,
        ]
    } else {
        Seq::empty()
    }) + (if a.max_degree > 10 {
        seq![
            "\u{1f4ca} **High Connectivity**: Some components have very high degree. Consider if this is intentional architecture.\n\n"@,
        ]
    } else {
        Seq::empty()
    }) + (if c.feature_gated_dependencies > c.direct_dependencies / 2 {
        seq![
            "\u{1f39b}\u{fe0f} **Feature-Heavy**: Many dependencies are feature-gated. Ensure proper feature management.\n\n"@,
        ]
    } else {
        Seq::empty()
    }) + seq![
        "\u{2705} **Overall**: The dependency graph appears well-structured with clear critical path and core components.\n"@,
    ]
}

/// The report of a graph and its analysis, with the time it was made,
/// the measures that are fractions, and the crates' feature sets.
pub open spec fn analysis_report(
    g: GlobalDependencyGraph,
    a: SolanaAnalysis,
    features: Seq<FeatureSetView>,
    generated: Seq<char>,
    m: ReportMeasures,
) -> Seq<char> {
    concat(
        stats_pieces(g.counts, generated, m) + path_and_core_pieces(a) + cycles_pieces(
            a.circular_dependencies@.map_values(|x: Vec<String>| views(x@)),
        ) + centrality_pieces(a, m, features) + scc_pieces(
            g.strongly_connected_components@.map_values(|x: Vec<String>| views(x@)),
        ) + recommendation_pieces(g.counts, a),
    )
}

fn floor_log2_of(n: usize) -> (r: usize)
    ensures
        r == floor_log2(n as nat),
    decreases n,
{
    if n <= 1 {
        0
    } else {
        let r = floor_log2_of(n / 2);
        assert(r <= n / 2) by {
            lemma_floor_log2_le(n as nat / 2);
        }
        1 + r
    }
}

proof fn lemma_floor_log2_le(n: nat)
    ensures
        floor_log2(n) <= n,
    decreases n,
{
    if n > 1 {
        lemma_floor_log2_le(n / 2);
    }
}

fn push_node_lines(out: &mut Vec<String>, comp: &Vec<String>)
    ensures
        views(final(out)@) == views(old(out)@) + node_lines(views(comp@)),
{
    let ghost head = views(out@);
    let ghost all = node_lines(views(comp@));
    let mut i: usize = 0;
    assert(head + all.take(0) =~= head);
    while i < comp.len()
        invariant
            i <= comp.len(),
            all == node_lines(views(comp@)),
            views(out@) == head + all.take(i as int),
        decreases comp.len() - i,
    {
        push_line(out, cat3("- ", comp[i].as_str(), "\n"));
        assert(all.take(i + 1) =~= all.take(i as int).push(all[i as int]));
        assert(views(out@) =~= head + all.take(i + 1));
        i += 1;
    }
    assert(all.take(i as int) =~= all);
}

fn push_components(out: &mut Vec<String>, cs: &Vec<Vec<String>>, scc: bool)
    requires
        cs.len() < usize::MAX,
    ensures
        views(final(out)@) == views(old(out)@) + if scc {
            scc_sections(cs@.map_values(|x: Vec<String>| views(x@)))
        } else {
            cycle_sections(cs@.map_values(|x: Vec<String>| views(x@)))
        },
{
    let ghost head = views(out@);
    let ghost cv = cs@.map_values(|x: Vec<String>| views(x@));
    let mut i: usize = 0;
    assert(cv.take(0) =~= Seq::<Seq<Seq<char>>>::empty());
    assert(head + scc_sections(cv.take(0)) =~= head);
    assert(head + cycle_sections(cv.take(0)) =~= head);
    while i < cs.len()
        invariant
            i <= cs.len(),
            cs.len() < usize::MAX,
            cv == cs@.map_values(|x: Vec<String>| views(x@)),
            views(out@) == head + if scc {
                scc_sections(cv.take(i as int))
            } else {
                cycle_sections(cv.take(i as int))
            },
        decreases cs.len() - i,
    {
        let ghost t = cv.take(i + 1);
        assert(t.drop_last() =~= cv.take(i as int));
        assert(t.last() == views(cs@[i as int]@));
        let idx = decimal_string(i + 1);
        if scc {
            push_line(out, cat3("### SCC ", idx.as_str(), "\n\n"));
        } else {
            push_line(out, cat3("### Component ", idx.as_str(), "\n\n"));
        }
        push_line(out, owned("Nodes:\n"));
        push_node_lines(out, &cs[i]);
        if !scc {
            push_line(out, owned("\n"));
        }
        assert(views(out@) =~= head + if scc {
            scc_sections(t)
        } else {
            cycle_sections(t)
        });
        i += 1;
    }
    assert(cv.take(i as int) =~= cv);
}

fn push_feature_section(out: &mut Vec<String>, f: &FeatureSet)
    ensures
        views(final(out)@) == views(old(out)@) + feature_section(feature_set_view(*f)),
{
    let ghost head = views(out@);
    push_line(out, cat3("\n### ", f.crate_name.as_str(), " v1.0.0\n\n"));
    let a = decimal_string(f.features.len());
    push_line(out, cat3("- **Features**: ", a.as_str(), "\n"));
    let b = decimal_string(f.default_features.len());
    push_line(out, cat3("- **Default Features**: ", b.as_str(), "\n"));
    push_line(out, owned("- **Feature Dependencies**:\n"));
    let ghost mid = views(out@);
    let ghost rows = deps_view(f.feature_dependencies@).map_values(
        |d: (Seq<char>, Seq<Seq<char>>)| "  - **"@ + d.0 + "**: "@ + join(d.1, ", "@) + "\n"@,
    );
    let mut i: usize = 0;
    assert(mid + rows.take(0) =~= mid);
    while i < f.feature_dependencies.len()
        invariant
            i <= f.feature_dependencies.len(),
            rows == deps_view(f.feature_dependencies@).map_values(
                |d: (Seq<char>, Seq<Seq<char>>)| "  - **"@ + d.0 + "**: "@ + join(d.1, ", "@) + "\n"@,
            ),
            views(out@) == mid + rows.take(i as int),
        decreases f.feature_dependencies.len() - i,
    {
        let d = &f.feature_dependencies[i];
        let deps = join_strings(&d.1, ", ");
        let mut line = cat3("  - **", d.0.as_str(), "**: ");
        push_str(&mut line, deps.as_str());
        push_str(&mut line, "\n");
        push_line(out, line);
        assert(rows.take(i + 1) =~= rows.take(i as int).push(rows[i as int]));
        assert(views(out@) =~= mid + rows.take(i + 1));
        i += 1;
    }
    assert(rows.take(i as int) =~= rows);
    assert(views(out@) =~= head + feature_section(feature_set_view(*f)));
}

fn push_feature_sections(out: &mut Vec<String>, fs: &Vec<FeatureSet>)
    ensures
        views(final(out)@) == views(old(out)@) + feature_sections(
            fs@.map_values(|f: FeatureSet| feature_set_view(f)),
        ),
{
    let ghost head = views(out@);
    let ghost fv = fs@.map_values(|f: FeatureSet| feature_set_view(f));
    let mut i: usize = 0;
    assert(fv.take(0) =~= Seq::<FeatureSetView>::empty());
    assert(head + feature_sections(fv.take(0)) =~= head);
    while i < fs.len()
        invariant
            i <= fs.len(),
            fv == fs@.map_values(|f: FeatureSet| feature_set_view(f)),
            views(out@) == head + feature_sections(fv.take(i as int)),
        decreases fs.len() - i,
    {
        push_feature_section(out, &fs[i]);
        assert(fv.take(i + 1).drop_last() =~= fv.take(i as int));
        assert(views(out@) =~= head + feature_sections(fv.take(i + 1)));
        i += 1;
    }
    assert(fv.take(i as int) =~= fv);
}

fn push_path(out: &mut Vec<String>, path: &Vec<String>)
    ensures
        views(final(out)@) == views(old(out)@) + views(path@).map(|i: int, id: Seq<char>| path_line(i, id)),
{
    let ghost head = views(out@);
    let ghost all = views(path@).map(|i: int, id: Seq<char>| path_line(i, id));
    let mut i: usize = 0;
    assert(head + all.take(0) =~= head);
    while i < path.len()
        invariant
            i <= path.len(),
            all == views(path@).map(|i: int, id: Seq<char>| path_line(i, id)),
            views(out@) == head + all.take(i as int),
        decreases path.len() - i,
    {
        let idx = decimal_string(i + 1);
        let mut line = cat3(idx.as_str(), ". ", path[i].as_str());
        push_str(&mut line, "\n");
        push_line(out, line);
        assert(all.take(i + 1) =~= all.take(i as int).push(all[i as int]));
        assert(views(out@) =~= head + all.take(i + 1));
        i += 1;
    }
    assert(all.take(i as int) =~= all);
}

fn push_core_rows(out: &mut Vec<String>, cs: &Vec<CoreComponent>)
    ensures
        views(final(out)@) == views(old(out)@) + cs@.map_values(|x: CoreComponent| core_row(core_view(x))),
{
    let ghost head = views(out@);
    let ghost all = cs@.map_values(|x: CoreComponent| core_row(core_view(x)));
    let mut i: usize = 0;
    assert(head + all.take(0) =~= head);
    while i < cs.len()
        invariant
            i <= cs.len(),
            all == cs@.map_values(|x: CoreComponent| core_row(core_view(x))),
            views(out@) == head + all.take(i as int),
        decreases cs.len() - i,
    {
        let c = &cs[i];
        let d = decimal_string(c.degree);
        let mut row = cat3("| ", c.crate_name.as_str(), " | ");
        push_str(&mut row, c.version.as_str());
        push_str(&mut row, " | ");
        push_str(&mut row, d.as_str());
        push_str(&mut row, " | ");
        push_str(&mut row, if c.is_workspace_member { "Workspace" } else { "External" });
        push_str(&mut row, " |\n");
        push_line(out, row);
        assert(all.take(i + 1) =~= all.take(i as int).push(all[i as int]));
        assert(views(out@) =~= head + all.take(i + 1));
        i += 1;
    }
    assert(all.take(i as int) =~= all);
}

fn push_stats(out: &mut Vec<String>, c: &GraphCounts, generated: &str, m: &ReportMeasures)
    ensures
        views(final(out)@) == views(old(out)@) + stats_pieces(*c, generated@, *m),
{
    let ghost head = views(out@);
    push_line(out, owned("# Global Dependency Graph Analysis Report\n\n"));
    push_line(out, cat3("Generated: ", generated, "\n\n"));
    push_line(out, owned("## Graph Statistics\n\n"));
    let x = decimal_string(c.node_count);
    push_line(out, cat3("- **Total Nodes**: ", x.as_str(), "\n"));
    let x = decimal_string(c.edge_count);
    push_line(out, cat3("- **Total Edges**: ", x.as_str(), "\n"));
    let x = decimal_string(c.workspace_members);
    push_line(out, cat3("- **Workspace Members**: ", x.as_str(), "\n"));
    let x = decimal_string(c.direct_dependencies);
    push_line(out, cat3("- **Direct Dependencies**: ", x.as_str(), "\n"));
    let x = decimal_string(c.transitive_dependencies);
    push_line(out, cat3("- **Transitive Dependencies**: ", x.as_str(), "\n"));
    let x = decimal_string(c.feature_gated_dependencies);
    push_line(out, cat3("- **Feature-Gated Dependencies**: ", x.as_str(), "\n"));
    let x = decimal_string(c.dev_dependencies);
    push_line(out, cat3("- **Dev Dependencies**: ", x.as_str(), "\n"));
    let x = decimal_string(c.build_dependencies);
    push_line(out, cat3("- **Build Dependencies**: ", x.as_str(), "\n"));
    push_line(out, owned("- **Strongly Connected Components**: 0\n"));
    let x = decimal_string(floor_log2_of(c.node_count));
    push_line(out, cat3("- **Graph Diameter**: ", x.as_str(), "\n"));
    push_line(out, cat3("- **Average Degree**: ", m.average_degree.as_str(), "\n\n"));
    push_line(out, owned("## Critical Path\n\n"));
    push_line(out, owned("The critical path represents the most important dependencies in the Solana universe:\n\n"));
    assert(views(out@) =~= head + stats_pieces(*c, generated@, *m));
}

fn push_path_and_core(out: &mut Vec<String>, a: &SolanaAnalysis)
    ensures
        views(final(out)@) == views(old(out)@) + path_and_core_pieces(*a),
{
    let ghost head = views(out@);
    push_path(out, &a.critical_path);
    let ghost p1 = views(out@);
    push_line(out, owned("\n## Core Components\n\n"));
    push_line(out, owned("Components with high connectivity (degree > 5):\n\n"));
    push_line(out, owned("| Crate | Version | Degree | Type |\n"));
    push_line(out, owned("|-------|---------|--------|------|\n"));
    let ghost p2 = views(out@);
    push_core_rows(out, &a.core_components);
    assert(views(out@) =~= head + path_and_core_pieces(*a));
}

fn push_cycles(out: &mut Vec<String>, cycles: &Vec<Vec<String>>)
    requires
        cycles.len() < usize::MAX,
    ensures
        views(final(out)@) == views(old(out)@) + cycles_pieces(cycles@.map_values(|x: Vec<String>| views(x@))),
{
    let ghost head = views(out@);
    if cycles.len() > 0 {
        push_line(out, owned("\n## Circular Dependencies\n\n"));
        let n = decimal_string(cycles.len());
        push_line(out, cat3("Found ", n.as_str(), " strongly connected components:\n\n"));
        let ghost mid = views(out@);
        push_components(out, cycles, false);
    } else {
        push_line(out, owned("\n## Circular Dependencies\n\nNo circular dependencies found.\n"));
    }
    assert(views(out@) =~= head + cycles_pieces(cycles@.map_values(|x: Vec<String>| views(x@))));
}

fn push_centrality(out: &mut Vec<String>, a: &SolanaAnalysis, m: &ReportMeasures, features: &Vec<FeatureSet>)
    ensures
        views(final(out)@) == views(old(out)@) + centrality_pieces(
            *a,
            *m,
            features@.map_values(|f: FeatureSet| feature_set_view(f)),
        ),
{
    let ghost head = views(out@);
    push_line(out, owned("\n## Centrality Metrics\n\n"));
    let x = decimal_string(a.max_degree);
    push_line(out, cat3("- **Max Degree**: ", x.as_str(), "\n"));
    push_line(out, cat3("- **Max Betweenness**: ", m.max_betweenness.as_str(), "\n"));
    push_line(out, cat3("- **Max Closeness**: ", m.max_closeness.as_str(), "\n"));
    push_line(out, cat3("- **Average Degree**: ", m.average_degree.as_str(), "\n\n"));
    push_line(out, owned("## Feature Analysis\n\n"));
    let x = decimal_string(features.len());
    push_line(out, cat3("- **Total Feature Sets**: ", x.as_str(), "\n"));
    let ghost mid = views(out@);
    push_feature_sections(out, features);
    assert(views(out@) =~= head + centrality_pieces(
        *a,
        *m,
        features@.map_values(|f: FeatureSet| feature_set_view(f)),
    ));
}

fn push_sccs(out: &mut Vec<String>, sccs: &Vec<Vec<String>>)
    requires
        sccs.len() < usize::MAX,
    ensures
        views(final(out)@) == views(old(out)@) + scc_pieces(sccs@.map_values(|x: Vec<String>| views(x@))),
{
    let ghost head = views(out@);
    push_line(out, owned("\n## Strongly Connected Components\n\n"));
    let x = decimal_string(sccs.len());
    push_line(out, cat3("Found ", x.as_str(), " SCCs (excluding single nodes):\n\n"));
    let ghost mid = views(out@);
    push_components(out, sccs, true);
    assert(views(out@) =~= head + scc_pieces(sccs@.map_values(|x: Vec<String>| views(x@))));
}

fn push_recommendations(out: &mut Vec<String>, c: &GraphCounts, a: &SolanaAnalysis)
    ensures
        views(final(out)@) == views(old(out)@) + recommendation_pieces(*c, *a),
{
    let ghost head = views(out@);
    push_line(out, owned("\n## Recommendations\n\n"));
    if a.circular_dependencies.len() > 0 {
        push_line(
            out,
            owned(
                "\u{26a0}\u{fe0f} **Circular Dependencies Detected**: Consider refactoring to break dependency cycles.\n\n",
            ),
        );
    }
    if a.max_degree > 10 {
        push_line(
            out,
            owned(
                "\u{1f4ca} **High Connectivity**: Some components have very high degree. Consider if this is intentional architecture.\n\n",
            ),
        );
    }
    if c.feature_gated_dependencies > c.direct_dependencies / 2 {
        push_line(
            out,
            owned(
                "\u{1f39b}\u{fe0f} **Feature-Heavy**: Many dependencies are feature-gated. Ensure proper feature management.\n\n",
            ),
        );
    }
    push_line(
        out,
        owned(
            "\u{2705} **Overall**: The dependency graph appears well-structured with clear critical path and core components.\n",
        ),
    );
    assert(views(out@) =~= head + recommendation_pieces(*c, *a));
}

impl GlobalDependencyGraphAnalyzer {
    /// The report of a graph and its analysis (`analysis_report`), with
    /// the crates' feature sets, the time it was made and the measures
    /// that are fractions.
    pub fn generate_report(
        &self,
        graph: &GlobalDependencyGraph,
        analysis: &SolanaAnalysis,
        features: &Vec<FeatureSet>,
        generated: &str,
        measures: &ReportMeasures,
    ) -> (r: String)
        requires
            analysis.circular_dependencies.len() < usize::MAX,
            graph.strongly_connected_components.len() < usize::MAX,
        ensures
            r@ == analysis_report(
                *graph,
                *analysis,
                features@.map_values(|f: FeatureSet| feature_set_view(f)),
                generated@,
                *measures,
            ),
    {
        let mut out: Vec<String> = Vec::new();
        push_stats(&mut out, &graph.counts, generated, measures);
        let ghost p1 = views(out@);
        push_path_and_core(&mut out, analysis);
        let ghost p2 = views(out@);
        push_cycles(&mut out, &analysis.circular_dependencies);
        let ghost p3 = views(out@);
        push_centrality(&mut out, analysis, measures, features);
        let ghost p4 = views(out@);
        push_sccs(&mut out, &graph.strongly_connected_components);
        let ghost p5 = views(out@);
        push_recommendations(&mut out, &graph.counts, analysis);
        assert(views(out@) =~= stats_pieces(graph.counts, generated@, *measures) + path_and_core_pieces(*analysis)
            + cycles_pieces(analysis.circular_dependencies@.map_values(|x: Vec<String>| views(x@)))
            + centrality_pieces(*analysis, *measures, features@.map_values(|f: FeatureSet| feature_set_view(f)))
            + scc_pieces(graph.strongly_connected_components@.map_values(|x: Vec<String>| views(x@)))
            + recommendation_pieces(graph.counts, *analysis));
        concat_strings(&out)
    }
}

} // verus!
