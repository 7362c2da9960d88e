//! The global dependency graph of a workspace.
//!
//! Nodes are crates (workspace members and their dependencies), edges are
//! "depends on" relations. The graph is filled from the workspace's
//! members, from its `Cargo.lock` packages or from cargo's resolve graph,
//! and answers: its members and external crates, orders in which to
//! process them (each crate before the crates it depends on), and its
//! strongly connected components.
use vstd::prelude::*;
use crate::lockfile_parser::{before, lock_table_views, lock_tables_of, toml_lock_tables, LockDepEntry, LockTable};
use crate::path::{path_parent, parent_of};
use crate::str_map::StrMap;
use crate::text::{cat, has_prefix, owned, split_at_first, split_once, starts_with, str_eq, trim, trimmed, views};

verus! {

// ───────────────────────────── graph types ─────────────────────────────

/// Kind of a dependency.
#[derive(PartialEq, Eq, Structural, Clone, Copy, Debug)]
pub enum DependencyEdgeType {
    Direct,
    Transitive,
    FeatureGated,
    Dev,
    Build,
    Workspace,
    Virtual,
}

/// A crate of the graph.
#[derive(Debug)]
pub struct DependencyNode {
    /// Unique id: `workspace:<name>`, `lock:<name>` or `pkg:<package id>`.
    pub id: String,
    pub crate_name: String,
    pub version: String,
    pub source: String,
    pub is_workspace_member: bool,
    pub is_direct_dependency: bool,
    /// Enabled features, each once.
    pub features: Vec<String>,
    pub categories: Vec<String>,
    pub properties: StrMap<String>,
}

/// A dependency of one crate on another.
pub struct DependencyEdge {
    pub from: String,
    pub to: String,
    pub edge_type: DependencyEdgeType,
    pub required_features: Vec<String>,
    pub optional_features: Vec<String>,
    pub is_dev_dependency: bool,
    pub is_build_dependency: bool,
    pub properties: StrMap<String>,
}

/// What a node is.
pub struct NodeView {
    pub id: Seq<char>,
    pub crate_name: Seq<char>,
    pub version: Seq<char>,
    pub source: Seq<char>,
    pub is_workspace_member: bool,
    pub is_direct_dependency: bool,
    pub features: Seq<Seq<char>>,
    pub categories: Seq<Seq<char>>,
    pub properties: Seq<(Seq<char>, Seq<char>)>,
}

/// What an edge is.
pub struct EdgeView {
    pub from: Seq<char>,
    pub to: Seq<char>,
    pub edge_type: DependencyEdgeType,
    pub required_features: Seq<Seq<char>>,
    pub optional_features: Seq<Seq<char>>,
    pub is_dev_dependency: bool,
    pub is_build_dependency: bool,
    pub properties: Seq<(Seq<char>, Seq<char>)>,
}

impl DeepView for DependencyNode {
    type V = NodeView;

    open spec fn deep_view(&self) -> NodeView {
        NodeView {
            id: self.id@,
            crate_name: self.crate_name@,
            version: self.version@,
            source: self.source@,
            is_workspace_member: self.is_workspace_member,
            is_direct_dependency: self.is_direct_dependency,
            features: views(self.features@),
            categories: views(self.categories@),
            properties: self.properties.deep_view(),
        }
    }
}

impl DeepView for DependencyEdge {
    type V = EdgeView;

    open spec fn deep_view(&self) -> EdgeView {
        EdgeView {
            from: self.from@,
            to: self.to@,
            edge_type: self.edge_type,
            required_features: views(self.required_features@),
            optional_features: views(self.optional_features@),
            is_dev_dependency: self.is_dev_dependency,
            is_build_dependency: self.is_build_dependency,
            properties: self.properties.deep_view(),
        }
    }
}

/// A graph: its nodes, and its edges as `(from index, to index, edge)`.
pub struct GraphView {
    pub nodes: Seq<NodeView>,
    pub edges: Seq<(int, int, EdgeView)>,
}

/// Builds the global dependency graph of a workspace.
pub struct GlobalDependencyGraphBuilder {
    /// The nodes, by index.
    pub nodes: Vec<DependencyNode>,
    /// The edges, as `(from index, to index, edge)`, in insertion order.
    pub edges: Vec<(usize, usize, DependencyEdge)>,
    pub workspace_path: String,
    pub include_dev_dependencies: bool,
    pub include_build_dependencies: bool,
    pub expand_features: bool,
    /// Names of the workspace members found, each once.
    pub workspace_members: Vec<String>,
}

/// The graph a builder holds.
pub open spec fn graph_of(b: GlobalDependencyGraphBuilder) -> GraphView {
    GraphView {
        nodes: b.nodes@.map_values(|n: DependencyNode| n.deep_view()),
        edges: b.edges@.map_values(|e: (usize, usize, DependencyEdge)| (e.0 as int, e.1 as int, e.2.deep_view())),
    }
}

/// Node ids are distinct and edges join existing nodes.
pub open spec fn graph_wf(g: GraphView) -> bool {
    &&& forall|i: int, j: int|
        0 <= i < g.nodes.len() && 0 <= j < g.nodes.len() && i != j ==> (#[trigger] g.nodes[i]).id
            != (#[trigger] g.nodes[j]).id
    &&& forall|k: int|
        0 <= k < g.edges.len() ==> 0 <= (#[trigger] g.edges[k]).0 < g.nodes.len() && 0 <= g.edges[k].1
            < g.nodes.len()
}

/// The builder's graph is well formed and its member names are distinct.
pub open spec fn builder_wf(b: GlobalDependencyGraphBuilder) -> bool {
    &&& graph_wf(graph_of(b))
    &&& forall|i: int, j: int|
        0 <= i < b.workspace_members.len() && 0 <= j < b.workspace_members.len() && i != j
            ==> (#[trigger] b.workspace_members@[i])@ != (#[trigger] b.workspace_members@[j])@
}

/// The index of the node with id `id`, if any.
pub open spec fn node_index(g: GraphView, id: Seq<char>) -> Option<int> {
    if exists|i: int| 0 <= i < g.nodes.len() && (#[trigger] g.nodes[i]).id == id {
        Some(choose|i: int| 0 <= i < g.nodes.len() && (#[trigger] g.nodes[i]).id == id)
    } else {
        None
    }
}

/// `g` with `n` added unless a node has its id.
pub open spec fn add_node(g: GraphView, n: NodeView) -> GraphView {
    if node_index(g, n.id) is Some {
        g
    } else {
        GraphView { nodes: g.nodes.push(n), ..g }
    }
}

/// Some edge already joins node `a` to node `b`.
pub open spec fn has_edge(g: GraphView, a: int, b: int) -> bool {
    exists|k: int| 0 <= k < g.edges.len() && (#[trigger] g.edges[k]).0 == a && g.edges[k].1 == b
}

/// `g` with an edge `e` from node `from` to node `to`, unless they are
/// already joined; nothing when either is missing.
pub open spec fn link(g: GraphView, from: Seq<char>, to: Seq<char>, e: EdgeView) -> GraphView {
    match (node_index(g, from), node_index(g, to)) {
        (Some(a), Some(b)) => if has_edge(g, a, b) {
            g
        } else {
            GraphView { edges: g.edges.push((a, b, e)), ..g }
        },
        _ => g,
    }
}

fn strings(items: &Vec<&str>) -> (r: Vec<String>)
    ensures
        views(r@) == items@.map_values(|s: &str| s@),
{
    let mut r: Vec<String> = Vec::new();
    for i in 0..items.len()
        invariant
            views(r@) == items@.take(i as int).map_values(|s: &str| s@),
    {
        let ghost before = views(r@);
        r.push(owned(items[i]));
        assert(views(r@) =~= before.push(items@[i as int]@));
        assert(items@.take(i + 1).map_values(|s: &str| s@) =~= items@.take(i as int).map_values(|s: &str| s@).push(
            items@[i as int]@,
        ));
    }
    assert(items@.take(items.len() as int) =~= items@);
    r
}

impl GlobalDependencyGraphBuilder {
    /// An empty graph for the workspace at `workspace_path`; development
    /// and build dependencies excluded, features not expanded.
    pub fn new(workspace_path: String) -> (b: Self)
        ensures
            builder_wf(b),
            graph_of(b).nodes.len() == 0,
            graph_of(b).edges.len() == 0,
            b.workspace_members.len() == 0,
            b.workspace_path@ == workspace_path@,
            !b.include_dev_dependencies,
            !b.include_build_dependencies,
            !b.expand_features,
    {
        GlobalDependencyGraphBuilder {
            nodes: Vec::new(),
            edges: Vec::new(),
            workspace_path,
            include_dev_dependencies: false,
            include_build_dependencies: false,
            expand_features: false,
            workspace_members: Vec::new(),
        }
    }

    /// Chooses which dependencies are included and whether features are
    /// expanded.
    pub fn set_options(&mut self, include_dev: bool, include_build: bool, expand_features: bool)
        ensures
            final(self).include_dev_dependencies == include_dev,
            final(self).include_build_dependencies == include_build,
            final(self).expand_features == expand_features,
            final(self).nodes == old(self).nodes,
            final(self).edges == old(self).edges,
            final(self).workspace_members == old(self).workspace_members,
            final(self).workspace_path == old(self).workspace_path,
    {
        self.include_dev_dependencies = include_dev;
        self.include_build_dependencies = include_build;
        self.expand_features = expand_features;
    }

    /// The index of the node with id `id`.
    pub fn find_node(&self, id: &str) -> (r: Option<usize>)
        requires
            builder_wf(*self),
        ensures
            match r {
                Some(i) => node_index(graph_of(*self), id@) == Some(i as int),
                None => node_index(graph_of(*self), id@) is None,
            },
    {
        let ghost g = graph_of(*self);
        for i in 0..self.nodes.len()
            invariant
                g == graph_of(*self),
                builder_wf(*self),
                forall|k: int| 0 <= k < i ==> g.nodes[k].id != id@,
        {
            if str_eq(self.nodes[i].id.as_str(), id) {
                assert(g.nodes[i as int].id == id@);
                let ghost c = choose|k: int| 0 <= k < g.nodes.len() && (#[trigger] g.nodes[k]).id == id@;
                assert(c == i);
                return Some(i);
            }
        }
        None
    }

    /// Adds `node` unless a node has its id; returns the index of the node
    /// with that id.
    pub fn add_node(&mut self, node: DependencyNode) -> (idx: usize)
        requires
            builder_wf(*old(self)),
        ensures
            builder_wf(*final(self)),
            graph_of(*final(self)) == add_node(graph_of(*old(self)), node.deep_view()),
            node_index(graph_of(*final(self)), node.id@) == Some(idx as int),
            final(self).workspace_members == old(self).workspace_members,
            final(self).workspace_path == old(self).workspace_path,
            final(self).include_dev_dependencies == old(self).include_dev_dependencies,
            final(self).include_build_dependencies == old(self).include_build_dependencies,
            final(self).expand_features == old(self).expand_features,
    {
        match self.find_node(node.id.as_str()) {
            Some(i) => i,
            None => {
                let ghost g = graph_of(*self);
                let ghost nv = node.deep_view();
                let n = self.nodes.len();
                self.nodes.push(node);
                proof {
                    let g2 = graph_of(*self);
                    assert(g2.nodes =~= g.nodes.push(nv));
                    assert(g2.edges =~= g.edges);
                    assert(g2 == add_node(g, nv));
                    assert(g2.nodes[n as int].id == nv.id);
                    let c = choose|k: int| 0 <= k < g2.nodes.len() && (#[trigger] g2.nodes[k]).id == nv.id;
                    assert(c == n);
                }
                n
            },
        }
    }

    /// Joins node `from` to node `to` by `edge` unless they are already
    /// joined.
    pub fn link(&mut self, from: usize, to: usize, edge: DependencyEdge)
        requires
            builder_wf(*old(self)),
            from < old(self).nodes.len(),
            to < old(self).nodes.len(),
        ensures
            builder_wf(*final(self)),
            graph_of(*final(self)) == (if has_edge(graph_of(*old(self)), from as int, to as int) {
                graph_of(*old(self))
            } else {
                GraphView {
                    edges: graph_of(*old(self)).edges.push((from as int, to as int, edge.deep_view())),
                    ..graph_of(*old(self))
                }
            }),
            final(self).nodes == old(self).nodes,
            final(self).workspace_members == old(self).workspace_members,
            final(self).workspace_path == old(self).workspace_path,
            final(self).include_dev_dependencies == old(self).include_dev_dependencies,
            final(self).include_build_dependencies == old(self).include_build_dependencies,
            final(self).expand_features == old(self).expand_features,
    {
        let ghost g = graph_of(*self);
        for k in 0..self.edges.len()
            invariant
                g == graph_of(*self),
                builder_wf(*self),
                forall|j: int| 0 <= j < k ==> !((#[trigger] g.edges[j]).0 == from && g.edges[j].1 == to),
        {
            if self.edges[k].0 == from && self.edges[k].1 == to {
                assert(g.edges[k as int].0 == from && g.edges[k as int].1 == to);
                return;
            }
        }
        let ghost ev = edge.deep_view();
        self.edges.push((from, to, edge));
        proof {
            let g2 = graph_of(*self);
            assert(g2.edges =~= g.edges.push((from as int, to as int, ev)));
            assert(g2.nodes =~= g.nodes);
        }
    }

    /// Adds a workspace member (node `workspace:<name>`, source
    /// `workspace`, category `workspace`, properties `path` (the directory
    /// of its `Cargo.toml`) and `is_root`) unless it is there.
    pub fn add_workspace_member(&mut self, name: &str, version: &str, is_root: bool, cargo_toml: &str)
        requires
            builder_wf(*old(self)),
            path_parent(cargo_toml@) is Some,
        ensures
            builder_wf(*final(self)),
            graph_of(*final(self)) == add_node(
                graph_of(*old(self)),
                member_node(name@, version@, is_root, path_parent(cargo_toml@)->0),
            ),
            views(final(self).workspace_members@) == (if node_index(
                graph_of(*old(self)),
                "workspace:"@ + name@,
            ) is Some {
                views(old(self).workspace_members@)
            } else {
                member_names_with(views(old(self).workspace_members@), name@)
            }),
    {
        let id = cat("workspace:", name);
        if self.find_node(id.as_str()).is_some() {
            return;
        }
        proof {
            reveal_strlit("path");
            reveal_strlit("is_root");
        }
        let mut properties: StrMap<String> = StrMap::new();
        let dir = match parent_of(cargo_toml) {
            Some(d) => d,
            None => String::new(),
        };
        let ghost dv = dir@;
        properties.insert(owned("path"), dir);
        assert(properties.deep_view() =~= seq![("path"@, dv)]);
        let root_text = if is_root {
            owned("true")
        } else {
            owned("false")
        };
        let ghost rv = root_text@;
        assert("path"@.len() != "is_root"@.len());
        assert(!crate::str_map::has_key(seq![("path"@, dv)], "is_root"@));
        properties.insert(owned("is_root"), root_text);
        assert(properties.deep_view() =~= seq![("path"@, dv), ("is_root"@, rv)]);
        let categories = strings(&vec!["workspace"]);
        let node = DependencyNode {
            id,
            crate_name: owned(name),
            version: owned(version),
            source: owned("workspace"),
            is_workspace_member: true,
            is_direct_dependency: is_root,
            features: Vec::new(),
            categories,
            properties,
        };
        proof {
            let nv = node.deep_view();
            assert(nv.features =~= Seq::<Seq<char>>::empty());
            assert(nv.properties =~= seq![
                ("path"@, path_parent(cargo_toml@)->0),
                ("is_root"@, if is_root { "true"@ } else { "false"@ }),
            ]);
            assert(nv.categories =~= seq!["workspace"@]);
            assert(nv == member_node(name@, version@, is_root, path_parent(cargo_toml@)->0));
        }
        self.add_node(node);
        self.add_member_name(name);
    }

    /// Adds a workspace member as `add_workspace_member` does when its
    /// `Cargo.toml` path has a parent directory; otherwise changes nothing
    /// and returns `false`.
    pub fn try_add_workspace_member(&mut self, name: &str, version: &str, is_root: bool, cargo_toml: &str) -> (r: bool)
        requires
            builder_wf(*old(self)),
        ensures
            builder_wf(*final(self)),
            r == path_parent(cargo_toml@) is Some,
            r ==> graph_of(*final(self)) == add_node(
                graph_of(*old(self)),
                member_node(name@, version@, is_root, path_parent(cargo_toml@)->0),
            ),
            !r ==> *final(self) == *old(self),
    {
        match parent_of(cargo_toml) {
            Some(_) => {
                self.add_workspace_member(name, version, is_root, cargo_toml);
                true
            },
            None => false,
        }
    }

    fn add_member_name(&mut self, name: &str)
        requires
            builder_wf(*old(self)),
        ensures
            builder_wf(*final(self)),
            graph_of(*final(self)) == graph_of(*old(self)),
            views(final(self).workspace_members@) == member_names_with(
                views(old(self).workspace_members@),
                name@,
            ),
    {
        let ghost before = views(self.workspace_members@);
        for i in 0..self.workspace_members.len()
            invariant
                before == views(self.workspace_members@),
                builder_wf(*self),
                forall|k: int| 0 <= k < i ==> before[k] != name@,
        {
            if str_eq(self.workspace_members[i].as_str(), name) {
                assert(before[i as int] == name@);
                return;
            }
        }
        let ghost old_m = self.workspace_members@;
        self.workspace_members.push(owned(name));
        proof {
            assert(views(self.workspace_members@) =~= before.push(name@));
            assert(!before.contains(name@));
            assert forall|i: int, j: int|
                0 <= i < self.workspace_members.len() && 0 <= j < self.workspace_members.len() && i != j
                    implies (#[trigger] self.workspace_members@[i])@ != (#[trigger] self.workspace_members@[j])@ by {
                if i < old_m.len() && j < old_m.len() {
                    assert(old_m[i]@ != old_m[j]@);
                } else if i < old_m.len() {
                    assert(before[i] == old_m[i]@);
                } else {
                    assert(before[j] == old_m[j]@);
                }
            }
        }
    }

    /// The ids of the workspace members, in node order.
    pub fn get_workspace_members(&self) -> (r: Vec<String>)
        ensures
            views(r@) == member_ids(graph_of(*self).nodes, true),
    {
        self.ids_where(true)
    }

    /// The ids of the external crates, in node order.
    pub fn get_external_dependencies(&self) -> (r: Vec<String>)
        ensures
            views(r@) == member_ids(graph_of(*self).nodes, false),
    {
        self.ids_where(false)
    }

    fn ids_where(&self, member: bool) -> (r: Vec<String>)
        ensures
            views(r@) == member_ids(graph_of(*self).nodes, member),
    {
        let ghost ns = graph_of(*self).nodes;
        let mut r: Vec<String> = Vec::new();
        for i in 0..self.nodes.len()
            invariant
                ns == graph_of(*self).nodes,
                views(r@) == member_ids(ns.take(i as int), member),
        {
            assert(ns.take(i + 1).drop_last() =~= ns.take(i as int));
            assert(ns[i as int] == self.nodes@[i as int].deep_view());
            if self.nodes[i].is_workspace_member == member {
                let ghost before = views(r@);
                r.push(self.nodes[i].id.clone());
                assert(views(r@) =~= before.push(ns[i as int].id));
            }
        }
        assert(ns.take(self.nodes.len() as int) =~= ns);
        r
    }

    /// Counts of the graph's nodes and edges by kind.
    pub fn calculate_metrics(&self) -> (m: GraphCounts)
        ensures
            m.node_count == graph_of(*self).nodes.len(),
            m.edge_count == graph_of(*self).edges.len(),
            m.workspace_members == count_nodes(graph_of(*self).nodes),
            m.direct_dependencies == count_edges(graph_of(*self).edges, 0),
            m.transitive_dependencies == count_edges(graph_of(*self).edges, 1),
            m.feature_gated_dependencies == count_edges(graph_of(*self).edges, 2),
            m.dev_dependencies == count_edges(graph_of(*self).edges, 3),
            m.build_dependencies == count_edges(graph_of(*self).edges, 4),
    {
        let ghost g = graph_of(*self);
        let mut members: usize = 0;
        for i in 0..self.nodes.len()
            invariant
                g == graph_of(*self),
                members == count_nodes(g.nodes.take(i as int)),
                members <= i,
        {
            assert(g.nodes.take(i + 1).drop_last() =~= g.nodes.take(i as int));
            assert(g.nodes[i as int] == self.nodes@[i as int].deep_view());
            if self.nodes[i].is_workspace_member {
                members += 1;
            }
        }
        assert(g.nodes.take(self.nodes.len() as int) =~= g.nodes);
        let mut direct: usize = 0;
        let mut transitive: usize = 0;
        let mut gated: usize = 0;
        let mut dev: usize = 0;
        let mut build: usize = 0;
        for k in 0..self.edges.len()
            invariant
                g == graph_of(*self),
                direct == count_edges(g.edges.take(k as int), 0),
                transitive == count_edges(g.edges.take(k as int), 1),
                gated == count_edges(g.edges.take(k as int), 2),
                dev == count_edges(g.edges.take(k as int), 3),
                build == count_edges(g.edges.take(k as int), 4),
                direct <= k,
                transitive <= k,
                gated <= k,
                dev <= k,
                build <= k,
        {
            assert(g.edges.take(k + 1).drop_last() =~= g.edges.take(k as int));
            assert(g.edges[k as int].2 == self.edges@[k as int].2.deep_view());
            let e = &self.edges[k].2;
            match e.edge_type {
                DependencyEdgeType::Direct => {
                    direct += 1;
                },
                DependencyEdgeType::Transitive => {
                    transitive += 1;
                },
                DependencyEdgeType::FeatureGated => {
                    gated += 1;
                },
                _ => {},
            }
            if e.is_dev_dependency {
                dev += 1;
            }
            if e.is_build_dependency {
                build += 1;
            }
        }
        assert(g.edges.take(self.edges.len() as int) =~= g.edges);
        GraphCounts {
            node_count: self.nodes.len(),
            edge_count: self.edges.len(),
            workspace_members: members,
            direct_dependencies: direct,
            transitive_dependencies: transitive,
            feature_gated_dependencies: gated,
            dev_dependencies: dev,
            build_dependencies: build,
        }
    }
}

/// The node of a workspace member.
pub open spec fn member_node(name: Seq<char>, version: Seq<char>, is_root: bool, dir: Seq<char>) -> NodeView {
    NodeView {
        id: "workspace:"@ + name,
        crate_name: name,
        version,
        source: "workspace"@,
        is_workspace_member: true,
        is_direct_dependency: is_root,
        features: Seq::empty(),
        categories: seq!["workspace"@],
        properties: seq![("path"@, dir), ("is_root"@, if is_root { "true"@ } else { "false"@ })],
    }
}

/// `names` with `name` added unless present.
pub open spec fn member_names_with(names: Seq<Seq<char>>, name: Seq<char>) -> Seq<Seq<char>> {
    if names.contains(name) {
        names
    } else {
        names.push(name)
    }
}

/// The ids of the nodes that are (or are not) workspace members.
pub open spec fn member_ids(ns: Seq<NodeView>, member: bool) -> Seq<Seq<char>>
    decreases ns.len(),
{
    if ns.len() == 0 {
        Seq::empty()
    } else if ns.last().is_workspace_member == member {
        member_ids(ns.drop_last(), member).push(ns.last().id)
    } else {
        member_ids(ns.drop_last(), member)
    }
}

/// Counts of a graph's nodes and edges by kind.
pub struct GraphCounts {
    pub node_count: usize,
    pub edge_count: usize,
    pub workspace_members: usize,
    pub direct_dependencies: usize,
    pub transitive_dependencies: usize,
    pub feature_gated_dependencies: usize,
    pub dev_dependencies: usize,
    pub build_dependencies: usize,
}

/// The number of workspace-member nodes.
pub open spec fn count_nodes(ns: Seq<NodeView>) -> nat
    decreases ns.len(),
{
    if ns.len() == 0 {
        0
    } else {
        count_nodes(ns.drop_last()) + (if ns.last().is_workspace_member { 1nat } else { 0nat })
    }
}

/// Whether an edge counts under `kind`: 0 direct, 1 transitive, 2
/// feature-gated, 3 development, 4 build.
pub open spec fn edge_counts_as(e: EdgeView, kind: int) -> bool {
    if kind == 0 {
        e.edge_type == DependencyEdgeType::Direct
    } else if kind == 1 {
        e.edge_type == DependencyEdgeType::Transitive
    } else if kind == 2 {
        e.edge_type == DependencyEdgeType::FeatureGated
    } else if kind == 3 {
        e.is_dev_dependency
    } else {
        e.is_build_dependency
    }
}

/// The number of edges counting under `kind`.
pub open spec fn count_edges(es: Seq<(int, int, EdgeView)>, kind: int) -> nat
    decreases es.len(),
{
    if es.len() == 0 {
        0
    } else {
        count_edges(es.drop_last(), kind) + (if edge_counts_as(es.last().2, kind) { 1nat } else { 0nat })
    }
}

// ───────────────────────────── from Cargo.lock ─────────────────────────

/// In a well-formed graph a node's index is the one holding its id.
pub proof fn lemma_node_index(g: GraphView, i: int)
    requires
        graph_wf(g),
        0 <= i < g.nodes.len(),
    ensures
        node_index(g, g.nodes[i].id) == Some(i),
{
    let c = choose|k: int| 0 <= k < g.nodes.len() && (#[trigger] g.nodes[k]).id == g.nodes[i].id;
    assert(g.nodes[i].id == g.nodes[i].id);
    if c != i {
        assert(g.nodes[c].id != g.nodes[i].id);
    }
}

/// The dependency a lockfile entry names: a string up to any `(`,
/// trimmed; an inline table's `package`, else its `name`, else empty.
pub open spec fn dep_entry_name(e: LockDepEntry) -> Option<Seq<char>> {
    match e {
        LockDepEntry::Text(s) => Some(trim(before(s@, "("@))),
        LockDepEntry::Inline { package, name } => Some(
            match package {
                Some(p) => p@,
                None => match name {
                    Some(n) => n@,
                    None => Seq::empty(),
                },
            },
        ),
        LockDepEntry::Other => None,
    }
}

/// The non-empty dependency names of a package, in order.
pub open spec fn dep_names(es: Seq<LockDepEntry>) -> Seq<Seq<char>>
    decreases es.len(),
{
    if es.len() == 0 {
        Seq::empty()
    } else {
        match dep_entry_name(es.last()) {
            Some(d) => if d.len() > 0 {
                dep_names(es.drop_last()).push(d)
            } else {
                dep_names(es.drop_last())
            },
            None => dep_names(es.drop_last()),
        }
    }
}

/// A lockfile package: name, version, source and dependency names.
pub struct LockPkgView {
    pub name: Seq<char>,
    pub version: Seq<char>,
    pub source: Seq<char>,
    pub deps: Seq<Seq<char>>,
}

/// The package of a table (none without a name); version `0.0.0` and
/// source `workspace` by default.
pub open spec fn lock_pkg(t: LockTable) -> Option<LockPkgView> {
    match t.name {
        Some(n) => Some(
            LockPkgView {
                name: n@,
                version: match t.version {
                    Some(v) => v@,
                    None => "0.0.0"@,
                },
                source: match t.source {
                    Some(s) => s@,
                    None => "workspace"@,
                },
                deps: dep_names(t.dependencies@),
            },
        ),
        None => None,
    }
}

/// The packages of the tables, keeping the first of each name.
pub open spec fn unique_pkgs(ts: Seq<LockTable>) -> Seq<LockPkgView>
    decreases ts.len(),
{
    if ts.len() == 0 {
        Seq::empty()
    } else {
        let rest = unique_pkgs(ts.drop_last());
        match lock_pkg(ts.last()) {
            Some(p) => if exists|i: int| 0 <= i < rest.len() && (#[trigger] rest[i]).name == p.name {
                rest
            } else {
                rest.push(p)
            },
            None => rest,
        }
    }
}

/// A package is a workspace member when its source is `workspace` or
/// empty.
pub open spec fn lock_is_workspace(source: Seq<char>) -> bool {
    source == "workspace"@ || source.len() == 0
}

/// The source shown for a lockfile package: `workspace`, a git URL
/// without `git+`, `crates.io` for registries, or the source itself.
pub open spec fn lock_source_label(source: Seq<char>) -> Seq<char> {
    if lock_is_workspace(source) {
        "workspace"@
    } else if starts_with(source, "git+"@) {
        source.skip(4)
    } else if starts_with(source, "registry+"@) {
        "crates.io"@
    } else {
        source
    }
}

/// The node of a lockfile package.
pub open spec fn lock_node(p: LockPkgView) -> NodeView {
    NodeView {
        id: "lock:"@ + p.name,
        crate_name: p.name,
        version: p.version,
        source: lock_source_label(p.source),
        is_workspace_member: lock_is_workspace(p.source),
        is_direct_dependency: false,
        features: Seq::empty(),
        categories: seq!["dependency"@],
        properties: Seq::empty(),
    }
}

/// The node of a dependency that has no package of its own.
pub open spec fn lock_dep_node(d: Seq<char>) -> NodeView {
    NodeView {
        id: "lock:"@ + d,
        crate_name: d,
        version: "0.0.0"@,
        source: "unknown"@,
        is_workspace_member: false,
        is_direct_dependency: false,
        features: Seq::empty(),
        categories: seq!["dependency"@],
        properties: Seq::empty(),
    }
}

/// A plain direct dependency edge.
pub open spec fn direct_edge(from: Seq<char>, to: Seq<char>) -> EdgeView {
    EdgeView {
        from,
        to,
        edge_type: DependencyEdgeType::Direct,
        required_features: Seq::empty(),
        optional_features: Seq::empty(),
        is_dev_dependency: false,
        is_build_dependency: false,
        properties: Seq::empty(),
    }
}

/// `g` after adding the nodes of the packages `ps` in order.
pub open spec fn add_lock_nodes(g: GraphView, ps: Seq<LockPkgView>) -> GraphView
    decreases ps.len(),
{
    if ps.len() == 0 {
        g
    } else {
        add_node(add_lock_nodes(g, ps.drop_last()), lock_node(ps.last()))
    }
}

/// `g` after linking `parent` to each dependency of `deps` in order,
/// adding missing dependency nodes.
pub open spec fn link_lock_deps(g: GraphView, parent: Seq<char>, deps: Seq<Seq<char>>) -> GraphView
    decreases deps.len(),
{
    if deps.len() == 0 {
        g
    } else {
        let g1 = add_node(link_lock_deps(g, parent, deps.drop_last()), lock_dep_node(deps.last()));
        link(g1, parent, "lock:"@ + deps.last(), direct_edge(parent, "lock:"@ + deps.last()))
    }
}

/// `g` after linking every package of `ps` to its dependencies.
pub open spec fn link_lock_pkgs(g: GraphView, ps: Seq<LockPkgView>) -> GraphView
    decreases ps.len(),
{
    if ps.len() == 0 {
        g
    } else {
        let g1 = link_lock_pkgs(g, ps.drop_last());
        let parent = "lock:"@ + ps.last().name;
        if node_index(g1, parent) is None {
            g1
        } else {
            link_lock_deps(g1, parent, ps.last().deps)
        }
    }
}

/// The graph after reading the packages of a `Cargo.lock`.
pub open spec fn with_lock_packages(g: GraphView, ts: Seq<LockTable>) -> GraphView {
    link_lock_pkgs(add_lock_nodes(g, unique_pkgs(ts)), unique_pkgs(ts))
}

/// A lockfile package.
struct LockPkg {
    name: String,
    version: String,
    source: String,
    deps: Vec<String>,
}

spec fn lock_pkg_view(p: LockPkg) -> LockPkgView {
    LockPkgView { name: p.name@, version: p.version@, source: p.source@, deps: views(p.deps@) }
}

fn dep_name_of(e: &LockDepEntry) -> (r: Option<String>)
    ensures
        r.deep_view() == dep_entry_name(*e),
{
    match e {
        LockDepEntry::Text(s) => {
            let head = match split_at_first(s.as_str(), "(") {
                Some((a, _)) => a,
                None => s.clone(),
            };
            Some(trimmed(head.as_str()))
        },
        LockDepEntry::Inline { package, name } => Some(
            match package {
                Some(p) => p.clone(),
                None => match name {
                    Some(n) => n.clone(),
                    None => String::new(),
                },
            },
        ),
        LockDepEntry::Other => None,
    }
}

fn lock_pkg_of(t: &LockTable) -> (r: Option<LockPkg>)
    ensures
        match r {
            Some(p) => lock_pkg(*t) == Some(lock_pkg_view(p)),
            None => lock_pkg(*t) is None,
        },
{
    let name = match &t.name {
        Some(n) => n.clone(),
        None => {
            return None;
        },
    };
    let version = match &t.version {
        Some(v) => v.clone(),
        None => owned("0.0.0"),
    };
    let source = match &t.source {
        Some(v) => v.clone(),
        None => owned("workspace"),
    };
    let mut deps: Vec<String> = Vec::new();
    let ghost es = t.dependencies@;
    for i in 0..t.dependencies.len()
        invariant
            es == t.dependencies@,
            views(deps@) == dep_names(es.take(i as int)),
    {
        assert(es.take(i + 1).drop_last() =~= es.take(i as int));
        match dep_name_of(&t.dependencies[i]) {
            Some(d) => {
                if !d.as_str().is_empty() {
                    let ghost before = views(deps@);
                    deps.push(d);
                    assert(views(deps@) =~= before.push(deps@.last()@));
                }
            },
            None => {},
        }
    }
    assert(es.take(es.len() as int) =~= es);
    Some(LockPkg { name, version, source, deps })
}

fn source_label(source: &str) -> (r: String)
    ensures
        r@ == lock_source_label(source@),
{
    proof {
        reveal_strlit("git+");
    }
    if str_eq(source, "workspace") || source.is_empty() {
        owned("workspace")
    } else if has_prefix(source, "git+") {
        let v = crate::text::chars_of(source);
        let r = crate::text::string_of_range(&v, 4, v.len());
        assert(v@.subrange(4, v.len() as int) =~= source@.skip(4));
        r
    } else if has_prefix(source, "registry+") {
        owned("crates.io")
    } else {
        owned(source)
    }
}

fn dependency_categories() -> (r: Vec<String>)
    ensures
        views(r@) == seq!["dependency"@],
{
    let mut r: Vec<String> = Vec::new();
    r.push(owned("dependency"));
    assert(views(r@) =~= seq!["dependency"@]);
    r
}

fn plain_node(id: String, crate_name: String, version: String, source: String, member: bool) -> (n: DependencyNode)
    ensures
        n.deep_view() == (NodeView {
            id: id@,
            crate_name: crate_name@,
            version: version@,
            source: source@,
            is_workspace_member: member,
            is_direct_dependency: false,
            features: Seq::empty(),
            categories: seq!["dependency"@],
            properties: Seq::empty(),
        }),
{
    let n = DependencyNode {
        id,
        crate_name,
        version,
        source,
        is_workspace_member: member,
        is_direct_dependency: false,
        features: Vec::new(),
        categories: dependency_categories(),
        properties: StrMap::new(),
    };
    assert(n.deep_view().features =~= Seq::<Seq<char>>::empty());
    n
}

fn plain_edge(from: String, to: String) -> (e: DependencyEdge)
    ensures
        e.deep_view() == direct_edge(from@, to@),
{
    let e = DependencyEdge {
        from,
        to,
        edge_type: DependencyEdgeType::Direct,
        required_features: Vec::new(),
        optional_features: Vec::new(),
        is_dev_dependency: false,
        is_build_dependency: false,
        properties: StrMap::new(),
    };
    assert(e.deep_view().required_features =~= Seq::<Seq<char>>::empty());
    assert(e.deep_view().optional_features =~= Seq::<Seq<char>>::empty());
    e
}

/// The packages of the tables, first of each name.
fn unique_lock_pkgs(tables: &Vec<LockTable>) -> (r: Vec<LockPkg>)
    ensures
        r@.map_values(|p: LockPkg| lock_pkg_view(p)) == unique_pkgs(tables@),
{
    let mut r: Vec<LockPkg> = Vec::new();
    for i in 0..tables.len()
        invariant
            r@.map_values(|p: LockPkg| lock_pkg_view(p)) == unique_pkgs(tables@.take(i as int)),
    {
        let ghost rv = r@.map_values(|p: LockPkg| lock_pkg_view(p));
        assert(tables@.take(i + 1).drop_last() =~= tables@.take(i as int));
        match lock_pkg_of(&tables[i]) {
            Some(p) => {
                let mut seen = false;
                for k in 0..r.len()
                    invariant
                        rv == r@.map_values(|p: LockPkg| lock_pkg_view(p)),
                        !seen ==> forall|j: int| 0 <= j < k ==> rv[j].name != p.name@,
                        seen ==> exists|j: int| 0 <= j < rv.len() && (#[trigger] rv[j]).name == p.name@,
                {
                    if str_eq(r[k].name.as_str(), p.name.as_str()) {
                        assert(rv[k as int].name == p.name@);
                        seen = true;
                    }
                }
                if !seen {
                    let ghost pv = lock_pkg_view(p);
                    r.push(p);
                    assert(r@.map_values(|p: LockPkg| lock_pkg_view(p)) =~= rv.push(pv));
                }
            },
            None => {},
        }
    }
    assert(tables@.take(tables.len() as int) =~= tables@);
    r
}

impl GlobalDependencyGraphBuilder {
    /// Reads the `[[package]]` tables of the workspace's `Cargo.lock`: one
    /// node `lock:<name>` per package name (the first table of each name),
    /// then an edge from each package to each of its dependencies, adding
    /// a node for a dependency that has no package. Existing nodes and
    /// edges are kept.
    /// Adds the packages of a `Cargo.lock` text (`with_lock_packages` over
    /// its `toml_lock_tables`); when the text is not TOML nothing changes
    /// and an error comes back.
    pub fn analyze_from_lockfile_text(&mut self, text: &str) -> (r: Result<(), String>)
        requires
            builder_wf(*old(self)),
        ensures
            builder_wf(*final(self)),
            r is Ok <==> toml_lock_tables(text@) is Some,
            r is Ok ==> exists|t: Seq<LockTable>| lock_table_views(t) == toml_lock_tables(text@)->0
                && graph_of(*final(self)) == with_lock_packages(graph_of(*old(self)), t),
            r is Err ==> *final(self) == *old(self),
            final(self).workspace_members == old(self).workspace_members,
            final(self).workspace_path == old(self).workspace_path,
    {
        match lock_tables_of(text) {
            Some(tables) => {
                self.analyze_from_lockfile(&tables);
                assert(lock_table_views(tables@) == toml_lock_tables(text@)->0);
                Ok(())
            },
            None => Err(owned("Failed to parse Cargo.lock")),
        }
    }

    pub fn analyze_from_lockfile(&mut self, tables: &Vec<LockTable>)
        requires
            builder_wf(*old(self)),
        ensures
            builder_wf(*final(self)),
            graph_of(*final(self)) == with_lock_packages(graph_of(*old(self)), tables@),
            final(self).workspace_members == old(self).workspace_members,
            final(self).workspace_path == old(self).workspace_path,
    {
        let pkgs = unique_lock_pkgs(tables);
        let ghost ps = unique_pkgs(tables@);
        let ghost g0 = graph_of(*self);
        for i in 0..pkgs.len()
            invariant
                builder_wf(*self),
                ps == pkgs@.map_values(|p: LockPkg| lock_pkg_view(p)),
                graph_of(*self) == add_lock_nodes(g0, ps.take(i as int)),
                self.workspace_members == old(self).workspace_members,
                self.workspace_path == old(self).workspace_path,
        {
            assert(ps.take(i + 1).drop_last() =~= ps.take(i as int));
            let p = &pkgs[i];
            let node = plain_node(
                cat("lock:", p.name.as_str()),
                p.name.clone(),
                p.version.clone(),
                source_label(p.source.as_str()),
                str_eq(p.source.as_str(), "workspace") || p.source.as_str().is_empty(),
            );
            assert(node.deep_view() == lock_node(ps[i as int]));
            self.add_node(node);
        }
        assert(ps.take(pkgs.len() as int) =~= ps);
        let ghost g1 = graph_of(*self);
        for i in 0..pkgs.len()
            invariant
                builder_wf(*self),
                ps == pkgs@.map_values(|p: LockPkg| lock_pkg_view(p)),
                graph_of(*self) == link_lock_pkgs(g1, ps.take(i as int)),
                self.workspace_members == old(self).workspace_members,
                self.workspace_path == old(self).workspace_path,
        {
            assert(ps.take(i + 1).drop_last() =~= ps.take(i as int));
            let p = &pkgs[i];
            let parent = cat("lock:", p.name.as_str());
            match self.find_node(parent.as_str()) {
                Some(pi) => {
                    let ghost start = graph_of(*self);
                    for k in 0..p.deps.len()
                        invariant
                            builder_wf(*self),
                            pi < self.nodes.len(),
                            node_index(graph_of(*self), parent@) == Some(pi as int),
                            graph_of(*self) == link_lock_deps(start, parent@, views(p.deps@).take(k as int)),
                            self.workspace_members == old(self).workspace_members,
                            self.workspace_path == old(self).workspace_path,
                    {
                        let ghost dv = views(p.deps@);
                        assert(dv.take(k + 1).drop_last() =~= dv.take(k as int));
                        let d = p.deps[k].as_str();
                        let dep_id = cat("lock:", d);
                        let ghost before_add = graph_of(*self);
                        let di = self.add_node(
                            plain_node(dep_id.clone(), owned(d), owned("0.0.0"), owned("unknown"), false),
                        );
                        proof {
                            let ga = graph_of(*self);
                            lemma_node_index(before_add, pi as int);
                            assert(ga.nodes.len() >= before_add.nodes.len());
                            assert(ga.nodes[pi as int] == before_add.nodes[pi as int]);
                            lemma_node_index(ga, pi as int);
                            assert(di < ga.nodes.len());
                        }
                        let ghost before_link = graph_of(*self);
                        self.link(pi, di, plain_edge(parent.clone(), dep_id));
                        proof {
                            assert(graph_of(*self).nodes == before_link.nodes);
                            lemma_node_index(graph_of(*self), pi as int);
                        }
                    }
                    assert(views(p.deps@).take(p.deps.len() as int) =~= views(p.deps@));
                },
                None => {},
            }
        }
        assert(ps.take(pkgs.len() as int) =~= ps);
    }
}

// ───────────────────────────── from cargo metadata ─────────────────────

/// A package of cargo's metadata.
pub struct MetadataPackage {
    pub id: String,
    pub name: String,
    pub version: String,
    /// `None` for a local (workspace) package.
    pub source: Option<String>,
    /// The names of the features it declares.
    pub feature_names: Vec<String>,
}

/// A node of cargo's resolve graph.
pub struct ResolveNode {
    pub id: String,
    /// Its enabled features.
    pub features: Vec<String>,
    /// The package ids it depends on.
    pub dependencies: Vec<String>,
}

/// The package with id `id` (the last one when several share it).
pub open spec fn package_by_id(ps: Seq<MetadataPackage>, id: Seq<char>) -> Option<MetadataPackage>
    decreases ps.len(),
{
    if ps.len() == 0 {
        None
    } else if ps.last().id@ == id {
        Some(ps.last())
    } else {
        package_by_id(ps.drop_last(), id)
    }
}

/// `s` without repeated entries, keeping first occurrences.
pub open spec fn distinct_in_order(s: Seq<Seq<char>>) -> Seq<Seq<char>>
    decreases s.len(),
{
    if s.len() == 0 {
        Seq::empty()
    } else {
        let rest = distinct_in_order(s.drop_last());
        if rest.contains(s.last()) {
            rest
        } else {
            rest.push(s.last())
        }
    }
}

/// The source shown for a metadata package: `workspace` for a local one,
/// a git URL without `git+`, `crates.io` for registries, or the source.
pub open spec fn metadata_source_label(source: Option<Seq<char>>) -> Seq<char> {
    match source {
        Some(s) => if starts_with(s, "git+"@) {
            s.skip(4)
        } else if starts_with(s, "registry+"@) {
            "crates.io"@
        } else {
            s
        },
        None => "workspace"@,
    }
}

/// The node of a resolved package with the given features.
pub open spec fn package_node(p: MetadataPackage, node_id: Seq<char>, features: Seq<Seq<char>>) -> NodeView {
    NodeView {
        id: node_id,
        crate_name: p.name@,
        version: p.version@,
        source: metadata_source_label(p.source.deep_view()),
        is_workspace_member: p.source is None,
        is_direct_dependency: false,
        features: distinct_in_order(features),
        categories: seq!["dependency"@],
        properties: Seq::empty(),
    }
}

/// `g` after adding a node per resolve node whose package is known.
pub open spec fn add_resolved_nodes(g: GraphView, ps: Seq<MetadataPackage>, rs: Seq<ResolveNode>) -> GraphView
    decreases rs.len(),
{
    if rs.len() == 0 {
        g
    } else {
        let g1 = add_resolved_nodes(g, ps, rs.drop_last());
        let r = rs.last();
        match package_by_id(ps, r.id@) {
            Some(p) => add_node(g1, package_node(p, "pkg:"@ + r.id@, views(r.features@))),
            None => g1,
        }
    }
}

/// `g` after linking `parent` to the dependencies `deps` whose node
/// exists or whose package is known (its node is then added).
pub open spec fn link_resolved_deps(g: GraphView, ps: Seq<MetadataPackage>, parent: Seq<char>, deps: Seq<Seq<char>>) -> GraphView
    decreases deps.len(),
{
    if deps.len() == 0 {
        g
    } else {
        let g1 = link_resolved_deps(g, ps, parent, deps.drop_last());
        let dep_id = "pkg:"@ + deps.last();
        let g2 = if node_index(g1, dep_id) is Some {
            Some(g1)
        } else {
            match package_by_id(ps, deps.last()) {
                Some(p) => Some(add_node(g1, package_node(p, dep_id, views(p.feature_names@)))),
                None => None,
            }
        };
        match g2 {
            Some(g3) => link(g3, parent, dep_id, direct_edge(parent, dep_id)),
            None => g1,
        }
    }
}

/// `g` after linking every resolve node to its dependencies.
pub open spec fn link_resolved(g: GraphView, ps: Seq<MetadataPackage>, rs: Seq<ResolveNode>) -> GraphView
    decreases rs.len(),
{
    if rs.len() == 0 {
        g
    } else {
        let g1 = link_resolved(g, ps, rs.drop_last());
        let parent = "pkg:"@ + rs.last().id@;
        if node_index(g1, parent) is None {
            g1
        } else {
            link_resolved_deps(g1, ps, parent, views(rs.last().dependencies@))
        }
    }
}

/// The graph after reading cargo's resolve graph.
pub open spec fn with_resolve(g: GraphView, ps: Seq<MetadataPackage>, rs: Seq<ResolveNode>) -> GraphView {
    link_resolved(add_resolved_nodes(g, ps, rs), ps, rs)
}

fn find_package<'a>(packages: &'a Vec<MetadataPackage>, id: &str) -> (r: Option<&'a MetadataPackage>)
    ensures
        match r {
            Some(p) => package_by_id(packages@, id@) == Some(*p),
            None => package_by_id(packages@, id@) is None,
        },
{
    let mut i = packages.len();
    assert(packages@.take(i as int) =~= packages@);
    while i > 0
        invariant
            i <= packages.len(),
            package_by_id(packages@, id@) == package_by_id(packages@.take(i as int), id@),
        decreases i,
    {
        let ghost t = packages@.take(i as int);
        assert(t.drop_last() =~= packages@.take(i - 1));
        if str_eq(packages[i - 1].id.as_str(), id) {
            return Some(&packages[i - 1]);
        }
        i -= 1;
    }
    None
}

pub(crate) fn distinct_strings(s: &Vec<String>) -> (r: Vec<String>)
    ensures
        views(r@) == distinct_in_order(views(s@)),
{
    let mut r: Vec<String> = Vec::new();
    let ghost sv = views(s@);
    for i in 0..s.len()
        invariant
            sv == views(s@),
            views(r@) == distinct_in_order(sv.take(i as int)),
    {
        assert(sv.take(i + 1).drop_last() =~= sv.take(i as int));
        let ghost rv = views(r@);
        let mut seen = false;
        for k in 0..r.len()
            invariant
                rv == views(r@),
                i < s.len(),
                sv == views(s@),
                !seen ==> forall|j: int| 0 <= j < k ==> rv[j] != sv[i as int],
                seen ==> rv.contains(sv[i as int]),
        {
            if str_eq(r[k].as_str(), s[i].as_str()) {
                assert(rv[k as int] == sv[i as int]);
                seen = true;
            }
        }
        if !seen {
            r.push(s[i].clone());
            assert(views(r@) =~= rv.push(sv[i as int]));
        }
    }
    assert(sv.take(s.len() as int) =~= sv);
    r
}

fn metadata_label(source: &Option<String>) -> (r: String)
    ensures
        r@ == metadata_source_label(source.deep_view()),
{
    proof {
        reveal_strlit("git+");
    }
    match source {
        Some(s) => {
            if has_prefix(s.as_str(), "git+") {
                let v = crate::text::chars_of(s.as_str());
                let r = crate::text::string_of_range(&v, 4, v.len());
                assert(v@.subrange(4, v.len() as int) =~= s@.skip(4));
                r
            } else if has_prefix(s.as_str(), "registry+") {
                owned("crates.io")
            } else {
                s.clone()
            }
        },
        None => owned("workspace"),
    }
}

fn resolved_node(p: &MetadataPackage, node_id: String, features: &Vec<String>) -> (n: DependencyNode)
    ensures
        n.deep_view() == package_node(*p, node_id@, views(features@)),
{
    let n = DependencyNode {
        id: node_id,
        crate_name: p.name.clone(),
        version: p.version.clone(),
        source: metadata_label(&p.source),
        is_workspace_member: p.source.is_none(),
        is_direct_dependency: false,
        features: distinct_strings(features),
        categories: dependency_categories(),
        properties: StrMap::new(),
    };
    n
}

impl GlobalDependencyGraphBuilder {
    /// Reads cargo's resolve graph: a node `pkg:<id>` per resolved package
    /// (with its enabled features), then an edge from each to each of its
    /// dependencies, adding a node (with the features the package
    /// declares) for a dependency not yet present whose package is known,
    /// and skipping unknown ones. Without a resolve graph nothing changes.
    pub fn analyze_direct_dependencies(
        &mut self,
        packages: &Vec<MetadataPackage>,
        resolve: &Option<Vec<ResolveNode>>,
    )
        requires
            builder_wf(*old(self)),
        ensures
            builder_wf(*final(self)),
            graph_of(*final(self)) == match resolve {
                Some(rs) => with_resolve(graph_of(*old(self)), packages@, rs@),
                None => graph_of(*old(self)),
            },
            final(self).workspace_members == old(self).workspace_members,
            final(self).workspace_path == old(self).workspace_path,
    {
        let rs = match resolve {
            Some(rs) => rs,
            None => {
                return;
            },
        };
        let ghost g0 = graph_of(*self);
        for i in 0..rs.len()
            invariant
                builder_wf(*self),
                graph_of(*self) == add_resolved_nodes(g0, packages@, rs@.take(i as int)),
                self.workspace_members == old(self).workspace_members,
                self.workspace_path == old(self).workspace_path,
        {
            assert(rs@.take(i + 1).drop_last() =~= rs@.take(i as int));
            let r = &rs[i];
            match find_package(packages, r.id.as_str()) {
                Some(p) => {
                    let node = resolved_node(p, cat("pkg:", r.id.as_str()), &r.features);
                    self.add_node(node);
                },
                None => {},
            }
        }
        assert(rs@.take(rs.len() as int) =~= rs@);
        let ghost g1 = graph_of(*self);
        for i in 0..rs.len()
            invariant
                builder_wf(*self),
                graph_of(*self) == link_resolved(g1, packages@, rs@.take(i as int)),
                self.workspace_members == old(self).workspace_members,
                self.workspace_path == old(self).workspace_path,
        {
            assert(rs@.take(i + 1).drop_last() =~= rs@.take(i as int));
            let r = &rs[i];
            let parent = cat("pkg:", r.id.as_str());
            match self.find_node(parent.as_str()) {
                Some(pi) => {
                    let ghost start = graph_of(*self);
                    let ghost dv = views(r.dependencies@);
                    for k in 0..r.dependencies.len()
                        invariant
                            builder_wf(*self),
                            pi < self.nodes.len(),
                            dv == views(r.dependencies@),
                            node_index(graph_of(*self), parent@) == Some(pi as int),
                            graph_of(*self) == link_resolved_deps(start, packages@, parent@, dv.take(k as int)),
                            self.workspace_members == old(self).workspace_members,
                            self.workspace_path == old(self).workspace_path,
                    {
                        assert(dv.take(k + 1).drop_last() =~= dv.take(k as int));
                        let dep = r.dependencies[k].as_str();
                        let dep_id = cat("pkg:", dep);
                        let ghost before_add = graph_of(*self);
                        let found = self.find_node(dep_id.as_str());
                        let di = match found {
                            Some(di) => Some(di),
                            None => match find_package(packages, dep) {
                                Some(p) => {
                                    let n = resolved_node(p, dep_id.clone(), &p.feature_names);
                                    let di = self.add_node(n);
                                    proof {
                                        let ga = graph_of(*self);
                                        lemma_node_index(before_add, pi as int);
                                        assert(ga.nodes[pi as int] == before_add.nodes[pi as int]);
                                        lemma_node_index(ga, pi as int);
                                    }
                                    Some(di)
                                },
                                None => None,
                            },
                        };
                        match di {
                            Some(di) => {
                                proof {
                                    let ga = graph_of(*self);
                                    assert(di < ga.nodes.len());
                                }
                                let ghost before_link = graph_of(*self);
                                self.link(pi, di, plain_edge(parent.clone(), dep_id));
                                proof {
                                    assert(graph_of(*self).nodes == before_link.nodes);
                                    lemma_node_index(graph_of(*self), pi as int);
                                }
                            },
                            None => {},
                        }
                    }
                    assert(dv.take(r.dependencies.len() as int) =~= dv);
                },
                None => {},
            }
        }
        assert(rs@.take(rs.len() as int) =~= rs@);
    }
}

// ───────────────────────────── orders ──────────────────────────────────

/// `order` lists each node `0..n` once, and every edge's source before
/// its target.
pub open spec fn is_topological_order(n: nat, edges: Seq<(usize, usize)>, order: Seq<usize>) -> bool {
    &&& order.len() == n
    &&& forall|i: int| 0 <= i < n ==> (#[trigger] order[i]) < n
    &&& forall|i: int, j: int| 0 <= i < j < n ==> (#[trigger] order[i]) != (#[trigger] order[j])
    &&& forall|k: int, i: int, j: int|
        #![trigger edges[k], order[i], order[j]]
        0 <= k < edges.len() && 0 <= i < n && 0 <= j < n && order[i] == edges[k].0 && order[j] == edges[k].1
            ==> i < j
}

/// The graph on nodes `0..n` has a topological order (it has no cycle).
pub open spec fn has_topological_order(n: nat, edges: Seq<(usize, usize)>) -> bool {
    exists|order: Seq<usize>| is_topological_order(n, edges, order)
}

/// What petgraph's `toposort` gives for the graph on nodes `0..n` with
/// these edges (added in order): the order, or a node on a cycle.
pub uninterp spec fn petgraph_toposort(n: nat, edges: Seq<(usize, usize)>) -> Result<Seq<usize>, usize>;

/// `petgraph::algo::toposort` on the directed graph with nodes `0..n`
/// and the given edges, added in order. Its documentation says it gives
/// the nodes in topological order (each before its successors) when the
/// graph is acyclic and an error naming a node of a cycle otherwise. The
/// contract claims that the result is the named `petgraph_toposort` of
/// the arguments, that an order is topological, and that an error comes
/// with a node of the graph exactly when no topological order exists.
#[verifier::external_body]
pub(crate) fn toposort_graph(n: usize, edges: &Vec<(usize, usize)>) -> (r: Result<Vec<usize>, usize>)
    requires
        forall|k: int| 0 <= k < edges.len() ==> (#[trigger] edges@[k]).0 < n && edges@[k].1 < n,
    ensures
        match r {
            Ok(v) => petgraph_toposort(n as nat, edges@) == Ok::<Seq<usize>, usize>(v@)
                && is_topological_order(n as nat, edges@, v@),
            Err(c) => petgraph_toposort(n as nat, edges@) == Err::<Seq<usize>, usize>(c) && c < n
                && !has_topological_order(n as nat, edges@),
        },
{
    let mut g = petgraph::Graph::<(), (), petgraph::Directed, usize>::with_capacity(n, edges.len());
    for _ in 0..n {
        g.add_node(());
    }
    for &(a, b) in edges.iter() {
        g.add_edge(petgraph::graph::NodeIndex::new(a), petgraph::graph::NodeIndex::new(b), ());
    }
    petgraph::algo::toposort(&g, None).map(|v| v.iter().map(|x| x.index()).collect()).map_err(
        |c| c.node_id().index(),
    )
}

/// Which nodes an order covers: 0 the workspace members, 1 all nodes, 2
/// the external crates.
pub open spec fn selects(kind: int, n: NodeView) -> bool {
    if kind == 0 {
        n.is_workspace_member
    } else if kind == 1 {
        true
    } else {
        !n.is_workspace_member
    }
}

/// Which edges an order respects: all but development dependencies for
/// the members' order, all edges otherwise.
pub open spec fn keeps_edge(kind: int, e: EdgeView) -> bool {
    kind != 0 || !e.is_dev_dependency
}

/// The indices of the first `m` nodes that an order covers, ascending.
pub open spec fn selection_upto(g: GraphView, kind: int, m: int) -> Seq<int>
    decreases m,
{
    if m <= 0 {
        Seq::empty()
    } else {
        let r = selection_upto(g, kind, m - 1);
        if selects(kind, g.nodes[m - 1]) {
            r.push(m - 1)
        } else {
            r
        }
    }
}

/// The indices of the nodes an order covers, ascending.
pub open spec fn selection(g: GraphView, kind: int) -> Seq<int> {
    selection_upto(g, kind, g.nodes.len() as int)
}

/// The position of node `i` in the selection.
pub open spec fn position(sel: Seq<int>, i: int) -> int {
    choose|p: int| 0 <= p < sel.len() && sel[p] == i
}

/// The first `m` edges that an order respects, between positions in the
/// selection.
pub open spec fn sub_edges_upto(g: GraphView, kind: int, m: int) -> Seq<(usize, usize)>
    decreases m,
{
    if m <= 0 {
        Seq::empty()
    } else {
        let r = sub_edges_upto(g, kind, m - 1);
        let e = g.edges[m - 1];
        if selects(kind, g.nodes[e.0]) && selects(kind, g.nodes[e.1]) && keeps_edge(kind, e.2) {
            let sel = selection(g, kind);
            r.push((position(sel, e.0) as usize, position(sel, e.1) as usize))
        } else {
            r
        }
    }
}

/// The edges an order respects, between positions in the selection.
pub open spec fn sub_edges(g: GraphView, kind: int) -> Seq<(usize, usize)> {
    sub_edges_upto(g, kind, g.edges.len() as int)
}

/// The ids of the nodes at the positions of `order`.
pub open spec fn order_ids(g: GraphView, sel: Seq<int>, order: Seq<usize>) -> Seq<Seq<char>> {
    order.map_values(|x: usize| g.nodes[sel[x as int]].id)
}

/// What an order of kind `kind` is: `Ok(ids)` with the ids in petgraph's
/// topological order of the covered subgraph, or `Err(i)` with the index
/// of a node on a cycle.
pub open spec fn order_outcome(g: GraphView, kind: int, r: Result<Seq<Seq<char>>, Seq<Seq<char>>>) -> bool {
    let sel = selection(g, kind);
    let es = sub_edges(g, kind);
    match r {
        Ok(ids) => exists|order: Seq<usize>|
            petgraph_toposort(sel.len(), es) == Ok::<Seq<usize>, usize>(order) && is_topological_order(
                sel.len(),
                es,
                order,
            ) && ids == order_ids(g, sel, order),
        Err(ids) => (exists|c: usize|
            petgraph_toposort(sel.len(), es) == Err::<Seq<usize>, usize>(c) && c < sel.len() && ids
                == order_ids(g, sel, cycle_listing(es, c))) && !has_topological_order(sel.len(), es),
    }
}

/// The sources of the edges into `c`, most recently added first.
pub open spec fn incoming_rev(es: Seq<(usize, usize)>, c: usize) -> Seq<usize>
    decreases es.len(),
{
    if es.len() == 0 {
        Seq::empty()
    } else if es.last().1 == c {
        seq![es.last().0] + incoming_rev(es.drop_last(), c)
    } else {
        incoming_rev(es.drop_last(), c)
    }
}

/// The targets of the edges out of `c`, most recently added first.
pub open spec fn outgoing_rev(es: Seq<(usize, usize)>, c: usize) -> Seq<usize>
    decreases es.len(),
{
    if es.len() == 0 {
        Seq::empty()
    } else if es.last().0 == c {
        seq![es.last().1] + outgoing_rev(es.drop_last(), c)
    } else {
        outgoing_rev(es.drop_last(), c)
    }
}

/// The nodes reported for a cycle found at `c`: `c`, the sources of its
/// incoming edges, then the targets of its outgoing edges, each list in
/// the order petgraph walks a node's edges (most recently added first).
pub open spec fn cycle_listing(es: Seq<(usize, usize)>, c: usize) -> Seq<usize> {
    seq![c] + incoming_rev(es, c) + outgoing_rev(es, c)
}

proof fn lemma_selection_upto(g: GraphView, kind: int, m: int)
    requires
        0 <= m <= g.nodes.len(),
    ensures
        forall|p: int| 0 <= p < selection_upto(g, kind, m).len() ==> 0 <= #[trigger] selection_upto(g, kind, m)[p] < m,
        forall|p: int, q: int|
            0 <= p < q < selection_upto(g, kind, m).len() ==> #[trigger] selection_upto(g, kind, m)[p]
                < #[trigger] selection_upto(g, kind, m)[q],
        forall|i: int| 0 <= i < m && selects(kind, g.nodes[i]) ==> #[trigger] selection_upto(g, kind, m).contains(i),
        forall|p: int| 0 <= p < selection_upto(g, kind, m).len() ==> selects(kind, g.nodes[#[trigger] selection_upto(g, kind, m)[p]]),
    decreases m,
{
    if m > 0 {
        lemma_selection_upto(g, kind, m - 1);
        let r = selection_upto(g, kind, m - 1);
        assert forall|i: int| 0 <= i < m && selects(kind, g.nodes[i]) implies #[trigger] selection_upto(g, kind, m).contains(i) by {
            if i < m - 1 {
                assert(r.contains(i));
                let p = choose|p: int| 0 <= p < r.len() && r[p] == i;
                assert(selection_upto(g, kind, m)[p] == i);
            } else {
                assert(selection_upto(g, kind, m)[r.len() as int] == i);
            }
        }
    }
}

impl GlobalDependencyGraphBuilder {
    /// The selection of an order and, for each node, its position in it.
    fn select(&self, kind: u8) -> (r: (Vec<usize>, Vec<Option<usize>>))
        requires
            kind <= 2,
        ensures
            r.0@.map_values(|x: usize| x as int) == selection(graph_of(*self), kind as int),
            r.1.len() == self.nodes.len(),
            forall|i: int|
                0 <= i < self.nodes.len() ==> match #[trigger] r.1@[i] {
                    Some(p) => p < r.0.len() && r.0@[p as int] == i && position(
                        selection(graph_of(*self), kind as int),
                        i,
                    ) == p,
                    None => !selects(kind as int, graph_of(*self).nodes[i]),
                },
    {
        let ghost g = graph_of(*self);
        let mut sel: Vec<usize> = Vec::new();
        let mut local: Vec<Option<usize>> = Vec::new();
        for i in 0..self.nodes.len()
            invariant
                g == graph_of(*self),
                kind <= 2,
                sel@.map_values(|x: usize| x as int) == selection_upto(g, kind as int, i as int),
                local.len() == i,
                forall|k: int|
                    0 <= k < i ==> match #[trigger] local@[k] {
                        Some(p) => p < sel.len() && sel@[p as int] == k,
                        None => !selects(kind as int, g.nodes[k]),
                    },
        {
            assert(g.nodes[i as int] == self.nodes@[i as int].deep_view());
            let m = self.nodes[i].is_workspace_member;
            let pick = if kind == 0 {
                m
            } else if kind == 1 {
                true
            } else {
                !m
            };
            if pick {
                let ghost before = sel@.map_values(|x: usize| x as int);
                local.push(Some(sel.len()));
                sel.push(i);
                assert(sel@.map_values(|x: usize| x as int) =~= before.push(i as int));
            } else {
                local.push(None);
            }
        }
        proof {
            lemma_selection_upto(g, kind as int, self.nodes.len() as int);
            let sv = selection(g, kind as int);
            assert forall|i: int| 0 <= i < self.nodes.len() implies match #[trigger] local@[i] {
                Some(p) => p < sel.len() && sel@[p as int] == i && position(sv, i) == p,
                None => !selects(kind as int, g.nodes[i]),
            } by {
                match local@[i] {
                    Some(p) => {
                        assert(sv[p as int] == i);
                        let q = position(sv, i);
                        assert(0 <= q < sv.len() && sv[q] == i);
                        if q < p {
                            assert(sv[q] < sv[p as int]);
                        } else if q > p {
                            assert(sv[p as int] < sv[q]);
                        }
                    },
                    None => {},
                }
            }
        }
        (sel, local)
    }

    /// The edges an order respects, as positions in its selection.
    fn selected_edges(&self, kind: u8, sel: &Vec<usize>, local: &Vec<Option<usize>>) -> (r: Vec<(usize, usize)>)
        requires
            kind <= 2,
            builder_wf(*self),
            sel@.map_values(|x: usize| x as int) == selection(graph_of(*self), kind as int),
            local.len() == self.nodes.len(),
            forall|i: int|
                0 <= i < self.nodes.len() ==> match #[trigger] local@[i] {
                    Some(p) => p < sel.len() && sel@[p as int] == i && position(
                        selection(graph_of(*self), kind as int),
                        i,
                    ) == p,
                    None => !selects(kind as int, graph_of(*self).nodes[i]),
                },
        ensures
            r@ == sub_edges(graph_of(*self), kind as int),
            forall|k: int| 0 <= k < r.len() ==> (#[trigger] r@[k]).0 < sel.len() && r@[k].1 < sel.len(),
    {
        let ghost g = graph_of(*self);
        let mut r: Vec<(usize, usize)> = Vec::new();
        for k in 0..self.edges.len()
            invariant
                g == graph_of(*self),
                kind <= 2,
                builder_wf(*self),
                local.len() == self.nodes.len(),
                sel@.map_values(|x: usize| x as int) == selection(g, kind as int),
                forall|i: int|
                    0 <= i < self.nodes.len() ==> match #[trigger] local@[i] {
                        Some(p) => p < sel.len() && sel@[p as int] == i && position(selection(g, kind as int), i)
                            == p,
                        None => !selects(kind as int, g.nodes[i]),
                    },
                r@ == sub_edges_upto(g, kind as int, k as int),
                forall|j: int| 0 <= j < r.len() ==> (#[trigger] r@[j]).0 < sel.len() && r@[j].1 < sel.len(),
        {
            let (a, b) = (self.edges[k].0, self.edges[k].1);
            assert(g.edges[k as int] == (a as int, b as int, self.edges@[k as int].2.deep_view()));
            assert(a < self.nodes.len() && b < self.nodes.len());
            let keep = kind != 0 || !self.edges[k].2.is_dev_dependency;
            proof {
                lemma_selection_upto(g, kind as int, self.nodes.len() as int);
                let sv = selection(g, kind as int);
                match local@[a as int] {
                    Some(pa) => {
                        assert(sv[pa as int] == sel@[pa as int] as int);
                        assert(selects(kind as int, g.nodes[sv[pa as int]]));
                    },
                    None => {},
                }
                match local@[b as int] {
                    Some(pb) => {
                        assert(sv[pb as int] == sel@[pb as int] as int);
                        assert(selects(kind as int, g.nodes[sv[pb as int]]));
                    },
                    None => {},
                }
            }
            match (local[a], local[b]) {
                (Some(pa), Some(pb)) => {
                    if keep {
                        r.push((pa, pb));
                    }
                },
                _ => {},
            }
        }
        r
    }

    /// The order of kind `kind`: ids in topological order, or the index
    /// of a node on a cycle.
    fn order(&self, kind: u8) -> (r: Result<Vec<String>, Vec<String>>)
        requires
            kind <= 2,
            builder_wf(*self),
        ensures
            order_outcome(
                graph_of(*self),
                kind as int,
                match r {
                    Ok(v) => Ok(views(v@)),
                    Err(v) => Err(views(v@)),
                },
            ),
    {
        let ghost g = graph_of(*self);
        let (sel, local) = self.select(kind);
        let es = self.selected_edges(kind, &sel, &local);
        let ghost sv = selection(g, kind as int);
        proof {
            lemma_selection_upto(g, kind as int, self.nodes.len() as int);
            assert(sv.len() == sel.len());
            assert forall|p: int| 0 <= p < sel.len() implies 0 <= #[trigger] sel@[p] < self.nodes.len() by {
                assert(sv[p] == sel@[p] as int);
            }
        }
        match toposort_graph(sel.len(), &es) {
            Ok(order) => {
                let mut ids: Vec<String> = Vec::new();
                for t in 0..order.len()
                    invariant
                        g == graph_of(*self),
                        order@.len() == sel.len(),
                        forall|i: int| 0 <= i < sel.len() ==> (#[trigger] order@[i]) < sel.len(),
                        forall|p: int| 0 <= p < sel.len() ==> 0 <= #[trigger] sel@[p] < self.nodes.len(),
                        sel@.map_values(|x: usize| x as int) == selection(g, kind as int),
                        views(ids@) == order_ids(g, selection(g, kind as int), order@.take(t as int)),
                {
                    let x = order[t];
                    let ni = sel[x];
                    let ghost before = views(ids@);
                    ids.push(self.nodes[ni].id.clone());
                    assert(g.nodes[ni as int] == self.nodes@[ni as int].deep_view());
                    assert(selection(g, kind as int)[x as int] == ni as int);
                    assert(views(ids@) =~= before.push(g.nodes[ni as int].id));
                    assert(order_ids(g, selection(g, kind as int), order@.take(t + 1)) =~= order_ids(
                        g,
                        selection(g, kind as int),
                        order@.take(t as int),
                    ).push(g.nodes[ni as int].id));
                }
                assert(order@.take(order.len() as int) =~= order@);
                assert(sv.len() == sel.len());
                assert(is_topological_order(sv.len(), sub_edges(g, kind as int), order@));
                assert(views(ids@) == order_ids(g, sv, order@));
                Ok(ids)
            },
            Err(c) => {
                let listing = cycle_nodes(&es, c);
                proof {
                    lemma_listing_bounds(es@, c, sel.len() as nat);
                }
                let ids = self.ids_at(&sel, &listing);
                Err(ids)
            },
        }
    }
}

proof fn lemma_listing_bounds(es: Seq<(usize, usize)>, c: usize, n: nat)
    requires
        c < n,
        forall|k: int| 0 <= k < es.len() ==> (#[trigger] es[k]).0 < n && es[k].1 < n,
    ensures
        forall|t: int| 0 <= t < cycle_listing(es, c).len() ==> (#[trigger] cycle_listing(es, c)[t]) < n,
    decreases es.len(),
{
    if es.len() > 0 {
        lemma_listing_bounds(es.drop_last(), c, n);
        let l0 = cycle_listing(es.drop_last(), c);
        let l = cycle_listing(es, c);
        let i0 = incoming_rev(es.drop_last(), c);
        let o0 = outgoing_rev(es.drop_last(), c);
        assert forall|t: int| 0 <= t < i0.len() implies (#[trigger] i0[t]) < n by {
            assert(l0[1 + t] == i0[t]);
        }
        assert forall|t: int| 0 <= t < o0.len() implies (#[trigger] o0[t]) < n by {
            assert(l0[1 + i0.len() + t] == o0[t]);
        }
        let i1 = incoming_rev(es, c);
        let o1 = outgoing_rev(es, c);
        assert forall|t: int| 0 <= t < l.len() implies (#[trigger] l[t]) < n by {
            if t == 0 {
            } else if t < 1 + i1.len() {
                assert(l[t] == i1[t - 1]);
                if es.last().1 == c && t == 1 {
                } else if es.last().1 == c {
                    assert(i1[t - 1] == i0[t - 2]);
                } else {
                    assert(i1[t - 1] == i0[t - 1]);
                }
            } else {
                let u = t - 1 - i1.len();
                assert(l[t] == o1[u]);
                if es.last().0 == c && u == 0 {
                } else if es.last().0 == c {
                    assert(o1[u] == o0[u - 1]);
                } else {
                    assert(o1[u] == o0[u]);
                }
            }
        }
    }
}

fn cycle_nodes(es: &Vec<(usize, usize)>, c: usize) -> (r: Vec<usize>)
    requires
        forall|k: int| 0 <= k < es.len() ==> (#[trigger] es@[k]).0 < usize::MAX,
    ensures
        r@ == cycle_listing(es@, c),
{
    let mut incoming: Vec<usize> = Vec::new();
    let mut outgoing: Vec<usize> = Vec::new();
    let mut k = es.len();
    assert(es@.take(k as int) =~= es@);
    let ghost all = es@;
    while k > 0
        invariant
            k <= es.len(),
            all == es@,
            incoming@ + incoming_rev(all.take(k as int), c) == incoming_rev(all, c),
            outgoing@ + outgoing_rev(all.take(k as int), c) == outgoing_rev(all, c),
        decreases k,
    {
        let ghost t = all.take(k as int);
        assert(t.drop_last() =~= all.take(k - 1));
        let (a, b) = es[k - 1];
        let ghost bi = incoming@;
        let ghost bo = outgoing@;
        if b == c {
            incoming.push(a);
            assert(incoming@ + incoming_rev(all.take(k - 1), c) =~= bi + incoming_rev(t, c));
        }
        if a == c {
            outgoing.push(b);
            assert(outgoing@ + outgoing_rev(all.take(k - 1), c) =~= bo + outgoing_rev(t, c));
        }
        k -= 1;
    }
    assert(all.take(0) =~= Seq::<(usize, usize)>::empty());
    let mut r: Vec<usize> = Vec::new();
    r.push(c);
    let ghost r1 = r@;
    r.append(&mut incoming);
    r.append(&mut outgoing);
    assert(r@ =~= cycle_listing(es@, c));
    r
}

/// How `{:?}` shows a list of strings.
pub uninterp spec fn debug_list(items: Seq<Seq<char>>) -> Seq<char>;

/// `format!("{:?}", items)`: the list written with brackets, each string
/// quoted and escaped. The contract claims only that the result is the
/// named `debug_list` of the strings.
#[verifier::external_body]
fn debug_strings(items: &Vec<String>) -> (r: String)
    ensures
        r@ == debug_list(views(items@)),
{
    format!("{:?}", items)
}

impl GlobalDependencyGraphBuilder {
    fn ids_at(&self, sel: &Vec<usize>, positions: &Vec<usize>) -> (r: Vec<String>)
        requires
            forall|p: int| 0 <= p < sel.len() ==> 0 <= #[trigger] sel@[p] < self.nodes.len(),
            forall|t: int| 0 <= t < positions.len() ==> (#[trigger] positions@[t]) < sel.len(),
        ensures
            views(r@) == order_ids(graph_of(*self), sel@.map_values(|x: usize| x as int), positions@),
    {
        let ghost g = graph_of(*self);
        let ghost sv = sel@.map_values(|x: usize| x as int);
        let mut ids: Vec<String> = Vec::new();
        for t in 0..positions.len()
            invariant
                g == graph_of(*self),
                sv == sel@.map_values(|x: usize| x as int),
                forall|p: int| 0 <= p < sel.len() ==> 0 <= #[trigger] sel@[p] < self.nodes.len(),
                forall|t: int| 0 <= t < positions.len() ==> (#[trigger] positions@[t]) < sel.len(),
                views(ids@) == order_ids(g, sv, positions@.take(t as int)),
        {
            let x = positions[t];
            let ni = sel[x];
            let ghost before = views(ids@);
            ids.push(self.nodes[ni].id.clone());
            assert(g.nodes[ni as int] == self.nodes@[ni as int].deep_view());
            assert(sv[x as int] == ni as int);
            assert(views(ids@) =~= before.push(g.nodes[ni as int].id));
            assert(order_ids(g, sv, positions@.take(t + 1)) =~= order_ids(g, sv, positions@.take(t as int)).push(
                g.nodes[ni as int].id,
            ));
        }
        assert(positions@.take(positions.len() as int) =~= positions@);
        ids
    }

    /// The workspace members in processing order (each before the members
    /// it depends on, development dependencies ignored), or an error when
    /// they depend on each other in a cycle.
    pub fn get_publish_order(&self) -> (r: Result<Vec<String>, String>)
        requires
            builder_wf(*self),
        ensures
            match r {
                Ok(ids) => order_outcome(graph_of(*self), 0, Ok(views(ids@))),
                Err(m) => (exists|ids: Seq<Seq<char>>| order_outcome(graph_of(*self), 0, Err(ids))) && m@
                    == "Circular dependency detected involving workspace crate. This should not happen in a valid Cargo workspace."@,
            },
    {
        match self.order(0) {
            Ok(ids) => Ok(ids),
            Err(_) => Err(
                owned(
                    "Circular dependency detected involving workspace crate. This should not happen in a valid Cargo workspace.",
                ),
            ),
        }
    }

    /// All crates in dependency order (each before the crates it depends
    /// on), or an error listing a node on a cycle with its neighbours.
    pub fn get_topological_order(&self) -> (r: Result<Vec<String>, String>)
        requires
            builder_wf(*self),
        ensures
            match r {
                Ok(ids) => order_outcome(graph_of(*self), 1, Ok(views(ids@))),
                Err(m) => exists|ids: Seq<Seq<char>>|
                    order_outcome(graph_of(*self), 1, Err(ids)) && m@
                        == "Circular dependency detected in dependency graph involving: "@ + debug_list(ids),
            },
    {
        match self.order(1) {
            Ok(ids) => Ok(ids),
            Err(nodes) => Err(cat("Circular dependency detected in dependency graph involving: ", debug_strings(&nodes).as_str())),
        }
    }

    /// The external crates in dependency order, or an error listing a
    /// node on a cycle among them with its neighbours.
    pub fn get_external_dependency_order(&self) -> (r: Result<Vec<String>, String>)
        requires
            builder_wf(*self),
        ensures
            match r {
                Ok(ids) => order_outcome(graph_of(*self), 2, Ok(views(ids@))),
                Err(m) => exists|ids: Seq<Seq<char>>|
                    order_outcome(graph_of(*self), 2, Err(ids)) && m@
                        == "Circular dependency detected among external dependencies involving: "@ + debug_list(ids),
            },
    {
        match self.order(2) {
            Ok(ids) => Ok(ids),
            Err(nodes) => Err(
                cat(
                    "Circular dependency detected among external dependencies involving: ",
                    debug_strings(&nodes).as_str(),
                ),
            ),
        }
    }
}

// ───────────────────────────── components ──────────────────────────────

/// `path` follows edges of `edges` from its first node to its last.
pub open spec fn is_edge_path(edges: Seq<(usize, usize)>, path: Seq<usize>) -> bool {
    &&& path.len() >= 1
    &&& forall|i: int|
        0 <= i < path.len() - 1 ==> exists|k: int|
            0 <= k < edges.len() && #[trigger] edges[k] == (path[i], #[trigger] path[i + 1])
}

/// Node `a` reaches node `b`.
pub open spec fn reaches(edges: Seq<(usize, usize)>, a: usize, b: usize) -> bool {
    exists|path: Seq<usize>| is_edge_path(edges, path) && path[0] == a && path.last() == b
}

/// `x` is in one of the components.
pub open spec fn in_component(comps: Seq<Seq<usize>>, x: usize) -> bool {
    exists|c: int, i: int| 0 <= c < comps.len() && 0 <= i < comps[c].len() && #[trigger] comps[c][i] == x
}

/// `comps` are the strongly connected components of the graph on nodes
/// `0..n`: each node is in exactly one, none is empty, nodes of one
/// component reach each other, and nodes of different components do not.
pub open spec fn is_scc_decomposition(n: nat, edges: Seq<(usize, usize)>, comps: Seq<Seq<usize>>) -> bool {
    &&& forall|c: int| 0 <= c < comps.len() ==> (#[trigger] comps[c]).len() > 0
    &&& forall|c: int, i: int| 0 <= c < comps.len() && 0 <= i < comps[c].len() ==> #[trigger] comps[c][i] < n
    &&& forall|x: usize| x < n ==> #[trigger] in_component(comps, x)
    &&& forall|c1: int, i1: int, c2: int, i2: int|
        0 <= c1 < comps.len() && 0 <= i1 < comps[c1].len() && 0 <= c2 < comps.len() && 0 <= i2 < comps[c2].len()
            && #[trigger] comps[c1][i1] == #[trigger] comps[c2][i2] ==> c1 == c2 && i1 == i2
    &&& forall|c: int, i: int, j: int|
        0 <= c < comps.len() && 0 <= i < comps[c].len() && 0 <= j < comps[c].len() ==> reaches(
            edges,
            #[trigger] comps[c][i],
            #[trigger] comps[c][j],
        )
    &&& forall|c1: int, i1: int, c2: int, i2: int|
        0 <= c1 < comps.len() && 0 <= i1 < comps[c1].len() && 0 <= c2 < comps.len() && 0 <= i2 < comps[c2].len()
            && c1 != c2 ==> !(reaches(edges, #[trigger] comps[c1][i1], #[trigger] comps[c2][i2]) && reaches(
            edges,
            comps[c2][i2],
            comps[c1][i1],
        ))
}

/// What petgraph's `tarjan_scc` gives for the graph on nodes `0..n` with
/// these edges (added in order).
pub uninterp spec fn petgraph_tarjan_scc(n: nat, edges: Seq<(usize, usize)>) -> Seq<Seq<usize>>;

/// `petgraph::algo::tarjan_scc` on the directed graph with nodes `0..n`
/// and the given edges, added in order. Its documentation says it returns
/// the strongly connected components (in reverse topological order, nodes
/// within one in no fixed order). The contract claims that the result is
/// the named `petgraph_tarjan_scc` of the arguments and a decomposition
/// into strongly connected components; the order is left unsaid.
#[verifier::external_body]
fn scc_graph(n: usize, edges: &Vec<(usize, usize)>) -> (r: Vec<Vec<usize>>)
    requires
        forall|k: int| 0 <= k < edges.len() ==> (#[trigger] edges@[k]).0 < n && edges@[k].1 < n,
    ensures
        r@.map_values(|c: Vec<usize>| c@) == petgraph_tarjan_scc(n as nat, edges@),
        is_scc_decomposition(n as nat, edges@, r@.map_values(|c: Vec<usize>| c@)),
{
    let mut g = petgraph::Graph::<(), (), petgraph::Directed, usize>::with_capacity(n, edges.len());
    for _ in 0..n {
        g.add_node(());
    }
    for &(a, b) in edges.iter() {
        g.add_edge(petgraph::graph::NodeIndex::new(a), petgraph::graph::NodeIndex::new(b), ());
    }
    petgraph::algo::tarjan_scc(&g).into_iter().map(|c| c.into_iter().map(|x| x.index()).collect()).collect()
}

/// The components with more than one node, as node ids.
pub open spec fn cyclic_components(g: GraphView, comps: Seq<Seq<usize>>) -> Seq<Seq<Seq<char>>>
    decreases comps.len(),
{
    if comps.len() == 0 {
        Seq::empty()
    } else {
        let rest = cyclic_components(g, comps.drop_last());
        if comps.last().len() > 1 {
            rest.push(comps.last().map_values(|x: usize| g.nodes[x as int].id))
        } else {
            rest
        }
    }
}

/// All edges of the graph as index pairs.
pub open spec fn index_edges(g: GraphView) -> Seq<(usize, usize)> {
    g.edges.map_values(|e: (int, int, EdgeView)| (e.0 as usize, e.1 as usize))
}

/// The DOT text of the graph with these nodes and edges as
/// `petgraph::dot::Dot` writes it with `Config::EdgeNoLabel`, each node
/// labelled by its `Debug` text.
pub uninterp spec fn petgraph_dot(nodes: Seq<NodeView>, edges: Seq<(usize, usize)>) -> Seq<char>;

/// Builds a `petgraph::Graph` whose node weights are the nodes and whose
/// edges join the given node positions, and formats
/// `Dot::with_config(&graph, &[Config::EdgeNoLabel])` with `{:?}`. The
/// contract claims only that the text is the named `petgraph_dot` of the
/// nodes and edges; `add_edge` panics on a position out of range, which
/// `requires` rules out.
#[verifier::external_body]
fn dot_of(nodes: &Vec<DependencyNode>, edges: &Vec<(usize, usize)>) -> (r: String)
    requires
        forall|k: int| 0 <= k < edges.len() ==> (#[trigger] edges@[k]).0 < nodes.len() && edges@[k].1 < nodes.len(),
    ensures
        r@ == petgraph_dot(nodes@.map_values(|n: DependencyNode| n.deep_view()), edges@),
{
    let mut g = petgraph::Graph::<&DependencyNode, ()>::new();
    let ix: Vec<petgraph::graph::NodeIndex> = nodes.iter().map(|n| g.add_node(n)).collect();
    edges.iter().for_each(|&(a, b)| {
        g.add_edge(ix[a], ix[b], ());
    });
    format!("{:?}", petgraph::dot::Dot::with_config(&g, &[petgraph::dot::Config::EdgeNoLabel]))
}

impl GlobalDependencyGraphBuilder {
    /// The DOT picture of the graph (`petgraph_dot` of its nodes and
    /// edges).
    pub fn visualization_dot(&self) -> (r: String)
        requires
            builder_wf(*self),
        ensures
            r@ == petgraph_dot(graph_of(*self).nodes, index_edges(graph_of(*self))),
    {
        let pairs = self.index_pairs();
        dot_of(&self.nodes, &pairs)
    }
}

impl GlobalDependencyGraphBuilder {
    fn index_pairs(&self) -> (r: Vec<(usize, usize)>)
        requires
            builder_wf(*self),
        ensures
            r@ == index_edges(graph_of(*self)),
            forall|k: int| 0 <= k < r.len() ==> (#[trigger] r@[k]).0 < self.nodes.len() && r@[k].1 < self.nodes.len(),
    {
        let ghost g = graph_of(*self);
        let mut r: Vec<(usize, usize)> = Vec::new();
        for k in 0..self.edges.len()
            invariant
                g == graph_of(*self),
                builder_wf(*self),
                r@ == index_edges(g).take(k as int),
                forall|j: int| 0 <= j < r.len() ==> (#[trigger] r@[j]).0 < self.nodes.len() && r@[j].1 < self.nodes.len(),
        {
            assert(g.edges[k as int].0 == self.edges@[k as int].0 as int);
            assert(g.edges[k as int].1 == self.edges@[k as int].1 as int);
            r.push((self.edges[k].0, self.edges[k].1));
            assert(r@ =~= index_edges(g).take(k + 1));
        }
        assert(index_edges(g).take(self.edges.len() as int) =~= index_edges(g));
        r
    }

    /// The strongly connected components with more than one crate (the
    /// dependency cycles), as crate ids.
    pub fn find_strongly_connected_components(&self) -> (r: Vec<Vec<String>>)
        requires
            builder_wf(*self),
        ensures
            r@.map_values(|c: Vec<String>| views(c@)) == cyclic_components(
                graph_of(*self),
                petgraph_tarjan_scc(self.nodes.len() as nat, index_edges(graph_of(*self))),
            ),
    {
        let ghost g = graph_of(*self);
        let es = self.index_pairs();
        let comps = scc_graph(self.nodes.len(), &es);
        let ghost cv = comps@.map_values(|c: Vec<usize>| c@);
        let mut r: Vec<Vec<String>> = Vec::new();
        for c in 0..comps.len()
            invariant
                g == graph_of(*self),
                cv == comps@.map_values(|c: Vec<usize>| c@),
                is_scc_decomposition(self.nodes.len() as nat, es@, cv),
                r@.map_values(|c: Vec<String>| views(c@)) == cyclic_components(g, cv.take(c as int)),
        {
            assert(cv.take(c + 1).drop_last() =~= cv.take(c as int));
            let comp = &comps[c];
            assert(cv[c as int] == comp@);
            if comp.len() > 1 {
                let mut ids: Vec<String> = Vec::new();
                for i in 0..comp.len()
                    invariant
                        g == graph_of(*self),
                        cv == comps@.map_values(|c: Vec<usize>| c@),
                        c < comps.len(),
                        comp == comps@[c as int],
                        is_scc_decomposition(self.nodes.len() as nat, es@, cv),
                        views(ids@) == comp@.take(i as int).map_values(|x: usize| g.nodes[x as int].id),
                {
                    let x = comp[i];
                    assert(cv[c as int][i as int] == x);
                    assert(x < self.nodes.len());
                    let ghost before = views(ids@);
                    ids.push(self.nodes[x].id.clone());
                    assert(g.nodes[x as int] == self.nodes@[x as int].deep_view());
                    assert(views(ids@) =~= before.push(g.nodes[x as int].id));
                    assert(comp@.take(i + 1).map_values(|x: usize| g.nodes[x as int].id) =~= comp@.take(
                        i as int,
                    ).map_values(|x: usize| g.nodes[x as int].id).push(g.nodes[x as int].id));
                }
                assert(comp@.take(comp.len() as int) =~= comp@);
                let ghost before_r = r@.map_values(|c: Vec<String>| views(c@));
                r.push(ids);
                assert(r@.map_values(|c: Vec<String>| views(c@)) =~= before_r.push(
                    comp@.map_values(|x: usize| g.nodes[x as int].id),
                ));
            }
        }
        assert(cv.take(comps.len() as int) =~= cv);
        r
    }
}

// ───────────────────────────── the graph ───────────────────────────────

/// The finished dependency graph with its analyses.
pub struct GlobalDependencyGraph {
    pub nodes: Vec<DependencyNode>,
    pub edges: Vec<DependencyEdge>,
    /// The dependency cycles: components with more than one crate.
    pub strongly_connected_components: Vec<Vec<String>>,
    pub counts: GraphCounts,
    pub workspace_path: String,
    /// Workspace members in processing order (empty when they form a
    /// cycle).
    pub publish_order: Vec<String>,
    /// All crates in dependency order (empty on a cycle).
    pub topological_order: Vec<String>,
    /// External crates in dependency order (empty on a cycle).
    pub external_dependency_order: Vec<String>,
}

/// An order as kept in the finished graph: the order when there is one,
/// empty on a cycle.
pub open spec fn kept_order(g: GraphView, kind: int, ids: Seq<Seq<char>>) -> bool {
    order_outcome(g, kind, Ok(ids)) || (ids.len() == 0 && exists|c: Seq<Seq<char>>| order_outcome(g, kind, Err(c)))
}

impl GlobalDependencyGraphBuilder {
    /// Finishes the graph: its nodes and edges, the counts, the dependency
    /// cycles and the three orders (an order that fails is left empty).
    pub fn build_global_graph(self) -> (r: GlobalDependencyGraph)
        requires
            builder_wf(self),
        ensures
            r.nodes@.map_values(|n: DependencyNode| n.deep_view()) == graph_of(self).nodes,
            r.edges@.map_values(|e: DependencyEdge| e.deep_view()) == graph_of(self).edges.map_values(
                |e: (int, int, EdgeView)| e.2,
            ),
            r.strongly_connected_components@.map_values(|c: Vec<String>| views(c@)) == cyclic_components(
                graph_of(self),
                petgraph_tarjan_scc(self.nodes.len() as nat, index_edges(graph_of(self))),
            ),
            r.counts.node_count == graph_of(self).nodes.len(),
            r.counts.edge_count == graph_of(self).edges.len(),
            r.counts.workspace_members == count_nodes(graph_of(self).nodes),
            r.counts.direct_dependencies == count_edges(graph_of(self).edges, 0),
            r.counts.transitive_dependencies == count_edges(graph_of(self).edges, 1),
            r.counts.feature_gated_dependencies == count_edges(graph_of(self).edges, 2),
            r.counts.dev_dependencies == count_edges(graph_of(self).edges, 3),
            r.counts.build_dependencies == count_edges(graph_of(self).edges, 4),
            r.workspace_path == self.workspace_path,
            kept_order(graph_of(self), 0, views(r.publish_order@)),
            kept_order(graph_of(self), 1, views(r.topological_order@)),
            kept_order(graph_of(self), 2, views(r.external_dependency_order@)),
    {
        let ghost g = graph_of(self);
        let counts = self.calculate_metrics();
        let scc = self.find_strongly_connected_components();
        let publish_order = match self.order(0) {
            Ok(v) => v,
            Err(_) => {
                let v: Vec<String> = Vec::new();
                assert(views(v@) =~= Seq::<Seq<char>>::empty());
                v
            },
        };
        let topological_order = match self.order(1) {
            Ok(v) => v,
            Err(_) => {
                let v: Vec<String> = Vec::new();
                assert(views(v@) =~= Seq::<Seq<char>>::empty());
                v
            },
        };
        let external_dependency_order = match self.order(2) {
            Ok(v) => v,
            Err(_) => {
                let v: Vec<String> = Vec::new();
                assert(views(v@) =~= Seq::<Seq<char>>::empty());
                v
            },
        };
        let GlobalDependencyGraphBuilder { nodes, edges, workspace_path, .. } = self;
        let mut plain_edges: Vec<DependencyEdge> = Vec::new();
        let ghost ev = g.edges.map_values(|e: (int, int, EdgeView)| e.2);
        let mut edges = edges;
        let ghost all = edges@;
        assert(all.map_values(|e: (usize, usize, DependencyEdge)| (e.0 as int, e.1 as int, e.2.deep_view())) == g.edges);
        let mut k: usize = edges.len();
        let mut rev: Vec<DependencyEdge> = Vec::new();
        while k > 0
            invariant
                k <= all.len(),
                edges@ == all.take(k as int),
                rev.len() == all.len() - k,
                forall|j: int| 0 <= j < rev.len() ==> (#[trigger] rev@[j]).deep_view() == all[all.len() - 1 - j].2.deep_view(),
            decreases k,
        {
            let e = edges.pop();
            match e {
                Some((_, _, e)) => {
                    assert(edges@ =~= all.take(k - 1));
                    rev.push(e);
                },
                None => {},
            }
            k -= 1;
        }
        let n = rev.len();
        let mut j = n;
        while j > 0
            invariant
                j <= n,
                n == all.len(),
                rev.len() == j,
                forall|t: int| 0 <= t < j ==> (#[trigger] rev@[t]).deep_view() == all[all.len() - 1 - t].2.deep_view(),
                plain_edges@.map_values(|e: DependencyEdge| e.deep_view()) == ev.take(n - j),
                ev == g.edges.map_values(|e: (int, int, EdgeView)| e.2),
                all.map_values(|e: (usize, usize, DependencyEdge)| (e.0 as int, e.1 as int, e.2.deep_view())) == g.edges,
            decreases j,
        {
            let e = rev.pop();
            match e {
                Some(e) => {
                    let ghost before = plain_edges@.map_values(|e: DependencyEdge| e.deep_view());
                    assert(e.deep_view() == all[n - j].2.deep_view());
                    assert(ev[n - j] == g.edges[n - j].2);
                    assert(g.edges[n - j] == (all[n - j].0 as int, all[n - j].1 as int, all[n - j].2.deep_view()));
                    let ghost edv = e.deep_view();
                    plain_edges.push(e);
                    assert(plain_edges@.map_values(|e: DependencyEdge| e.deep_view()) =~= before.push(edv));
                    assert(ev.take(n - j + 1) =~= ev.take(n - j).push(ev[n - j]));
                },
                None => {},
            }
            j -= 1;
        }
        assert(ev.take(n as int) =~= ev);
        GlobalDependencyGraph {
            nodes,
            edges: plain_edges,
            strongly_connected_components: scc,
            counts,
            workspace_path,
            publish_order,
            topological_order,
            external_dependency_order,
        }
    }
}

} // verus!
