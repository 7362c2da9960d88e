//! Data flow through a workload: input, output and register nodes, the
//! flows between them, the phases the workload passes through and the
//! invariants that must hold across them; and the Markdown report of it
//! all.
//!
//! The graph is held as its nodes and edges in the order they were added;
//! an edge's ends are the positions of the nodes it joins. A node is found
//! by its id, the latest node added with that id winning.
use vstd::prelude::*;
use crate::text::{
    cat, cat3, concat, concat_strings, contains, decimal, decimal_string, has_substr, list_contains, owned, push_line, push_str,
    str_eq, views,
};

verus! {

broadcast use vstd::string::group_string_axioms;

/// The kind of a node.
#[derive(PartialEq, Eq, Structural, Clone, Copy, Debug)]
pub enum DataFlowNodeType {
    Input,
    Output,
    Register,
    Memory,
    Operation,
    Constant,
    PhaseBoundary,
}

/// The kind of an edge.
#[derive(PartialEq, Eq, Structural, Clone, Copy, Debug)]
pub enum DataFlowEdgeType {
    DirectFlow,
    Transformation,
    Copy,
    Move,
    Load,
    Store,
    PhaseTransition,
}

/// A node of the graph.
#[derive(Debug)]
pub struct DataFlowNode {
    pub id: String,
    pub node_type: DataFlowNodeType,
    pub register: Option<String>,
    pub value_type: Option<String>,
    pub phase: String,
    pub location: String,
    pub properties: Vec<(String, String)>,
}

/// An edge of the graph.
pub struct DataFlowEdge {
    pub from: String,
    pub to: String,
    pub edge_type: DataFlowEdgeType,
    pub transformation: Option<String>,
    pub preserves_invariant: bool,
    pub properties: Vec<(String, String)>,
}

/// A passage from one phase to the next.
pub struct PhaseTransition {
    pub phase_name: String,
    pub input_registers: Vec<String>,
    pub output_registers: Vec<String>,
    pub pre_conditions: Vec<String>,
    pub post_conditions: Vec<String>,
    pub invariants_preserved: Vec<String>,
    pub location: String,
}

/// An invariant to preserve.
pub struct Invariant {
    pub id: String,
    pub description: String,
    /// The registers, memory locations and the like it speaks of.
    pub applies_to: Vec<String>,
    pub expression: String,
    pub verified: bool,
    pub verification_method: String,
    /// The phases where it applies.
    pub phases: Vec<String>,
}

/// The whole graph, as it is exported.
pub struct DataFlowGraph {
    pub nodes: Vec<DataFlowNode>,
    pub edges: Vec<DataFlowEdge>,
    pub phases: Vec<PhaseTransition>,
    pub invariants: Vec<Invariant>,
}

/// The analyzer: the graph, the current phase, the invariants and the
/// phase transitions so far.
pub struct DataFlowAnalyzer {
    pub nodes: Vec<DataFlowNode>,
    pub edges: Vec<DataFlowEdge>,
    /// For each edge, the positions of the nodes it joins.
    pub links: Vec<(usize, usize)>,
    pub current_phase: String,
    pub invariants: Vec<Invariant>,
    pub phase_transitions: Vec<PhaseTransition>,
}

// ───────────────────────────── views ───────────────────────────────────

pub type Pairs = Seq<(Seq<char>, Seq<char>)>;

pub type NodeView = (Seq<char>, DataFlowNodeType, Option<Seq<char>>, Option<Seq<char>>, Seq<char>, Seq<char>, Pairs);

pub type EdgeView = (Seq<char>, Seq<char>, DataFlowEdgeType, Option<Seq<char>>, bool, Pairs);

pub type TransitionView = (
    Seq<char>,
    Seq<Seq<char>>,
    Seq<Seq<char>>,
    Seq<Seq<char>>,
    Seq<Seq<char>>,
    Seq<Seq<char>>,
    Seq<char>,
);

pub type InvariantView = (Seq<char>, Seq<char>, Seq<Seq<char>>, Seq<char>, bool, Seq<char>, Seq<Seq<char>>);

pub type AnalyzerView = (
    Seq<NodeView>,
    Seq<EdgeView>,
    Seq<(usize, usize)>,
    Seq<char>,
    Seq<InvariantView>,
    Seq<TransitionView>,
);

pub open spec fn pairs_view(p: Seq<(String, String)>) -> Pairs {
    p.map_values(|x: (String, String)| (x.0@, x.1@))
}

pub open spec fn opt_view(o: Option<String>) -> Option<Seq<char>> {
    match o {
        Some(s) => Some(s@),
        None => None,
    }
}

pub open spec fn node_view(n: DataFlowNode) -> NodeView {
    (n.id@, n.node_type, opt_view(n.register), opt_view(n.value_type), n.phase@, n.location@, pairs_view(n.properties@))
}

pub open spec fn edge_view(e: DataFlowEdge) -> EdgeView {
    (e.from@, e.to@, e.edge_type, opt_view(e.transformation), e.preserves_invariant, pairs_view(e.properties@))
}

pub open spec fn transition_view(t: PhaseTransition) -> TransitionView {
    (
        t.phase_name@,
        views(t.input_registers@),
        views(t.output_registers@),
        views(t.pre_conditions@),
        views(t.post_conditions@),
        views(t.invariants_preserved@),
        t.location@,
    )
}

pub open spec fn invariant_view(i: Invariant) -> InvariantView {
    (i.id@, i.description@, views(i.applies_to@), i.expression@, i.verified, i.verification_method@, views(i.phases@))
}

pub open spec fn node_views(s: Seq<DataFlowNode>) -> Seq<NodeView> {
    s.map_values(|n: DataFlowNode| node_view(n))
}

pub open spec fn edge_views(s: Seq<DataFlowEdge>) -> Seq<EdgeView> {
    s.map_values(|e: DataFlowEdge| edge_view(e))
}

pub open spec fn transition_views(s: Seq<PhaseTransition>) -> Seq<TransitionView> {
    s.map_values(|t: PhaseTransition| transition_view(t))
}

pub open spec fn invariant_views(s: Seq<Invariant>) -> Seq<InvariantView> {
    s.map_values(|i: Invariant| invariant_view(i))
}

impl View for DataFlowAnalyzer {
    type V = AnalyzerView;

    open spec fn view(&self) -> AnalyzerView {
        (
            node_views(self.nodes@),
            edge_views(self.edges@),
            self.links@,
            self.current_phase@,
            invariant_views(self.invariants@),
            transition_views(self.phase_transitions@),
        )
    }
}

// ───────────────────────────── the operations, as specs ────────────────

/// A node with no properties.
pub open spec fn node_of(
    id: Seq<char>,
    node_type: DataFlowNodeType,
    register: Option<Seq<char>>,
    value_type: Option<Seq<char>>,
    phase: Seq<char>,
    location: Seq<char>,
) -> NodeView {
    (id, node_type, register, value_type, phase, location, Seq::empty())
}

/// `v` with the node `n` added.
pub open spec fn node_added(v: AnalyzerView, n: NodeView) -> AnalyzerView {
    (v.0.push(n), v.1, v.2, v.3, v.4, v.5)
}

/// `v` with the input `input_<name>` added in the current phase.
pub open spec fn input_added(
    v: AnalyzerView,
    name: Seq<char>,
    register: Seq<char>,
    value_type: Seq<char>,
    location: Seq<char>,
) -> AnalyzerView {
    node_added(v, node_of("input_"@ + name, DataFlowNodeType::Input, Some(register), Some(value_type), v.3, location))
}

/// `v` with the output `output_<name>` added in the current phase.
pub open spec fn output_added(
    v: AnalyzerView,
    name: Seq<char>,
    register: Seq<char>,
    value_type: Seq<char>,
    location: Seq<char>,
) -> AnalyzerView {
    node_added(v, node_of("output_"@ + name, DataFlowNodeType::Output, Some(register), Some(value_type), v.3, location))
}

/// `v` with the register `reg_<name>` added in the current phase.
pub open spec fn register_added(v: AnalyzerView, name: Seq<char>, value_type: Seq<char>, location: Seq<char>) -> AnalyzerView {
    node_added(v, node_of("reg_"@ + name, DataFlowNodeType::Register, Some(name), Some(value_type), v.3, location))
}

/// The position of the latest node with the id `id`.
pub open spec fn last_with_id(nodes: Seq<NodeView>, id: Seq<char>) -> Option<int>
    decreases nodes.len(),
{
    if nodes.len() == 0 {
        None
    } else if nodes.last().0 == id {
        Some(nodes.len() - 1)
    } else {
        last_with_id(nodes.drop_last(), id)
    }
}

/// What adding a flow from `from` to `to` gives: the new state, or the
/// message naming the end that no node has (the source first).
pub open spec fn flow_result(
    v: AnalyzerView,
    from: Seq<char>,
    to: Seq<char>,
    edge_type: DataFlowEdgeType,
    transformation: Option<Seq<char>>,
    preserves_invariant: bool,
) -> Result<AnalyzerView, Seq<char>> {
    match last_with_id(v.0, from) {
        None => Err("Source node "@ + from + " not found"@),
        Some(a) => match last_with_id(v.0, to) {
            None => Err("Destination node "@ + to + " not found"@),
            Some(b) => Ok(
                (
                    v.0,
                    v.1.push((from, to, edge_type, transformation, preserves_invariant, Seq::empty())),
                    v.2.push((a as usize, b as usize)),
                    v.3,
                    v.4,
                    v.5,
                ),
            ),
        },
    }
}

/// `v` after a new phase `phase` starts: the passage from the current
/// phase is recorded (unless there is none), and a boundary node
/// `phase_<phase>` is added.
pub open spec fn phase_started(v: AnalyzerView, phase: Seq<char>) -> AnalyzerView {
    let transitions = if v.3.len() > 0 {
        v.5.push(
            (
                v.3 + "=>"@ + phase,
                Seq::empty(),
                Seq::empty(),
                Seq::empty(),
                Seq::empty(),
                Seq::empty(),
                "phase_boundary"@,
            ),
        )
    } else {
        v.5
    };
    (
        v.0.push(node_of("phase_"@ + phase, DataFlowNodeType::PhaseBoundary, None, None, phase, "phase_start"@)),
        v.1,
        v.2,
        phase,
        v.4,
        transitions,
    )
}

/// `v` with a new, unverified invariant.
pub open spec fn invariant_added(
    v: AnalyzerView,
    id: Seq<char>,
    description: Seq<char>,
    applies_to: Seq<Seq<char>>,
    expression: Seq<char>,
    method: Seq<char>,
    phases: Seq<Seq<char>>,
) -> AnalyzerView {
    (v.0, v.1, v.2, v.3, v.4.push((id, description, applies_to, expression, false, method, phases)), v.5)
}

/// An invariant holds unless its expression mentions `unsafe` or
/// `unchecked`.
pub open spec fn holds(expression: Seq<char>) -> bool {
    !contains(expression, "unsafe"@) && !contains(expression, "unchecked"@)
}

/// An invariant after verification in the phase `phase`: checked again
/// where it applies to `phase`, unchanged elsewhere.
pub open spec fn verified_in(i: InvariantView, phase: Seq<char>) -> InvariantView {
    if i.6.contains(phase) {
        (i.0, i.1, i.2, i.3, holds(i.3), i.5, i.6)
    } else {
        i
    }
}

/// `v` after its invariants are verified in the current phase.
pub open spec fn invariants_verified(v: AnalyzerView) -> AnalyzerView {
    (v.0, v.1, v.2, v.3, v.4.map_values(|i: InvariantView| verified_in(i, v.3)), v.5)
}

/// The edges whose source or destination id contains `register`.
pub open spec fn register_flow(edges: Seq<EdgeView>, register: Seq<char>) -> Seq<EdgeView>
    decreases edges.len(),
{
    if edges.len() == 0 {
        Seq::empty()
    } else {
        let r = register_flow(edges.drop_last(), register);
        let e = edges.last();
        if contains(e.0, register) || contains(e.1, register) {
            r.push(e)
        } else {
            r
        }
    }
}

// ───────────────────────────── the report, as a spec ───────────────────

/// How a node kind is written.
pub open spec fn node_type_name(t: DataFlowNodeType) -> Seq<char> {
    match t {
        DataFlowNodeType::Input => "Input"@,
        DataFlowNodeType::Output => "Output"@,
        DataFlowNodeType::Register => "Register"@,
        DataFlowNodeType::Memory => "Memory"@,
        DataFlowNodeType::Operation => "Operation"@,
        DataFlowNodeType::Constant => "Constant"@,
        DataFlowNodeType::PhaseBoundary => "Phase Boundary"@,
    }
}

/// How an edge kind is written.
pub open spec fn edge_type_name(t: DataFlowEdgeType) -> Seq<char> {
    match t {
        DataFlowEdgeType::DirectFlow => "Direct Flow"@,
        DataFlowEdgeType::Transformation => "Transformation"@,
        DataFlowEdgeType::Copy => "Copy"@,
        DataFlowEdgeType::Move => "Move"@,
        DataFlowEdgeType::Load => "Load"@,
        DataFlowEdgeType::Store => "Store"@,
        DataFlowEdgeType::PhaseTransition => "Phase Transition"@,
    }
}

/// The node kinds that occur, in the order they first occur.
pub open spec fn seen_types(ns: Seq<NodeView>) -> Seq<DataFlowNodeType>
    decreases ns.len(),
{
    if ns.len() == 0 {
        Seq::empty()
    } else {
        let r = seen_types(ns.drop_last());
        if r.contains(ns.last().1) {
            r
        } else {
            r.push(ns.last().1)
        }
    }
}

/// The number of nodes of the kind `t`.
pub open spec fn type_count(ns: Seq<NodeView>, t: DataFlowNodeType) -> nat
    decreases ns.len(),
{
    if ns.len() == 0 {
        0
    } else {
        type_count(ns.drop_last(), t) + if ns.last().1 == t {
            1nat
        } else {
            0nat
        }
    }
}

/// The registers that nodes hold, in the order they first occur.
pub open spec fn seen_registers(ns: Seq<NodeView>) -> Seq<Seq<char>>
    decreases ns.len(),
{
    if ns.len() == 0 {
        Seq::empty()
    } else {
        let r = seen_registers(ns.drop_last());
        match ns.last().2 {
            Some(reg) => if r.contains(reg) {
                r
            } else {
                r.push(reg)
            },
            None => r,
        }
    }
}

/// The row of a node kind in the report.
pub open spec fn type_row(ns: Seq<NodeView>, t: DataFlowNodeType) -> Seq<char> {
    "| "@ + node_type_name(t) + " | "@ + decimal(type_count(ns, t)) + " |\n"@
}

/// The entry of the `i`-th phase transition.
pub open spec fn transition_piece(i: int, t: TransitionView) -> Seq<char> {
    decimal((i + 1) as nat) + ". **"@ + t.0 + "**\n"@ + "   - Input registers: "@ + decimal(t.1.len()) + "\n"@
        + "   - Output registers: "@ + decimal(t.2.len()) + "\n"@ + "   - Invariants preserved: "@ + decimal(t.5.len())
        + "\n\n"@
}

/// The row of an invariant.
pub open spec fn invariant_row(i: InvariantView) -> Seq<char> {
    "| "@ + i.0 + " | "@ + i.1 + " | "@ + (if i.4 {
        "\u{2713} Yes"@
    } else {
        "\u{2717} No"@
    }) + " | "@ + i.5 + " |\n"@
}

/// The row of a flow.
pub open spec fn flow_row(e: EdgeView) -> Seq<char> {
    "| "@ + e.0 + " | "@ + e.1 + " | "@ + edge_type_name(e.2) + " | "@ + (if e.4 {
        "\u{2713}"@
    } else {
        "\u{2717}"@
    }) + " |\n"@
}

/// The section of the report on a register: its flows, or a note that
/// there are none.
pub open spec fn register_section(edges: Seq<EdgeView>, reg: Seq<char>) -> Seq<Seq<char>> {
    let flow = register_flow(edges, reg);
    seq!["### Register: "@ + reg + "\n\n"@] + if flow.len() == 0 {
        seq!["- No flow data available\n\n"@]
    } else {
        seq!["| From | To | Type | Preserves Invariant |\n"@, "|------|----|------|---------------------|\n"@]
            + flow.map_values(|e: EdgeView| flow_row(e)) + seq!["\n"@]
    }
}

/// The sections on the registers `regs`.
pub open spec fn register_sections(edges: Seq<EdgeView>, regs: Seq<Seq<char>>) -> Seq<Seq<char>>
    decreases regs.len(),
{
    if regs.len() == 0 {
        Seq::empty()
    } else {
        register_sections(edges, regs.drop_last()) + register_section(edges, regs.last())
    }
}

/// The Markdown report on the analyzer, with the time it was made: the
/// graph's counts, its node kinds and registers in the order they first
/// occur, the phase transitions and the invariants.
pub open spec fn report(v: AnalyzerView, generated: Seq<char>) -> Seq<char> {
    concat(
        seq![
            "# Data Flow Analysis Report\n\n"@,
            "Generated: "@ + generated + "\n\n"@,
            "## Graph Statistics\n\n"@,
            "- **Nodes**: "@ + decimal(v.0.len()) + "\n"@,
            "- **Edges**: "@ + decimal(v.1.len()) + "\n"@,
            "- **Phases**: "@ + decimal(v.5.len() + 1) + "\n"@,
            "- **Invariants**: "@ + decimal(v.4.len()) + "\n\n"@,
            "## Node Types\n\n"@,
            "| Type | Count |\n"@,
            "|------|-------|\n"@,
        ] + seen_types(v.0).map_values(|t: DataFlowNodeType| type_row(v.0, t)) + seq!["\n## Phase Transitions\n\n"@]
            + v.5.map(|i: int, t: TransitionView| transition_piece(i, t)) + seq![
            "## Invariant Verification\n\n"@,
            "| ID | Description | Verified | Method |\n"@,
            "|----|-------------|----------|--------|\n"@,
        ] + v.4.map_values(|i: InvariantView| invariant_row(i)) + seq!["\n## Register Flow Analysis\n\n"@]
            + register_sections(v.1, seen_registers(v.0)),
    )
}

// ───────────────────────────── copies ──────────────────────────────────

fn copy_strings(v: &Vec<String>) -> (r: Vec<String>)
    ensures
        views(r@) == views(v@),
{
    let mut r: Vec<String> = Vec::new();
    let mut i: usize = 0;
    while i < v.len()
        invariant
            i <= v.len(),
            views(r@) == views(v@).take(i as int),
        decreases v.len() - i,
    {
        push_line(&mut r, v[i].clone());
        assert(views(v@).take(i + 1) =~= views(v@).take(i as int).push(v@[i as int]@));
        i += 1;
    }
    assert(views(v@).take(i as int) =~= views(v@));
    r
}

fn copy_pairs(v: &Vec<(String, String)>) -> (r: Vec<(String, String)>)
    ensures
        pairs_view(r@) == pairs_view(v@),
{
    let mut r: Vec<(String, String)> = Vec::new();
    let mut i: usize = 0;
    while i < v.len()
        invariant
            i <= v.len(),
            pairs_view(r@) == pairs_view(v@).take(i as int),
        decreases v.len() - i,
    {
        let ghost before = r@;
        r.push((v[i].0.clone(), v[i].1.clone()));
        assert(pairs_view(r@) =~= pairs_view(before).push((v@[i as int].0@, v@[i as int].1@)));
        assert(pairs_view(v@).take(i + 1) =~= pairs_view(v@).take(i as int).push((v@[i as int].0@, v@[i as int].1@)));
        i += 1;
    }
    assert(pairs_view(v@).take(i as int) =~= pairs_view(v@));
    r
}

fn copy_opt(o: &Option<String>) -> (r: Option<String>)
    ensures
        opt_view(r) == opt_view(*o),
{
    match o {
        Some(s) => Some(s.clone()),
        None => None,
    }
}

/// A copy of an edge.
pub fn copy_edge(e: &DataFlowEdge) -> (r: DataFlowEdge)
    ensures
        edge_view(r) == edge_view(*e),
{
    DataFlowEdge {
        from: e.from.clone(),
        to: e.to.clone(),
        edge_type: e.edge_type,
        transformation: copy_opt(&e.transformation),
        preserves_invariant: e.preserves_invariant,
        properties: copy_pairs(&e.properties),
    }
}

fn copy_invariant(i: &Invariant) -> (r: Invariant)
    ensures
        invariant_view(r) == invariant_view(*i),
{
    Invariant {
        id: i.id.clone(),
        description: i.description.clone(),
        applies_to: copy_strings(&i.applies_to),
        expression: i.expression.clone(),
        verified: i.verified,
        verification_method: i.verification_method.clone(),
        phases: copy_strings(&i.phases),
    }
}

fn strs(a: &[&str]) -> (r: Vec<String>)
    ensures
        views(r@) == a@.map_values(|x: &str| x@),
{
    let mut r: Vec<String> = Vec::new();
    let mut i: usize = 0;
    while i < a.len()
        invariant
            i <= a.len(),
            views(r@) == a@.map_values(|x: &str| x@).take(i as int),
        decreases a.len() - i,
    {
        push_line(&mut r, owned(a[i]));
        assert(a@.map_values(|x: &str| x@).take(i + 1) =~= a@.map_values(|x: &str| x@).take(i as int).push(a@[i as int]@));
        i += 1;
    }
    assert(a@.map_values(|x: &str| x@).take(i as int) =~= a@.map_values(|x: &str| x@));
    r
}

fn opt_str(o: Option<&str>) -> (r: Option<String>)
    ensures
        opt_view(r) == match o {
            Some(s) => Some(s@),
            None => None::<Seq<char>>,
        },
{
    match o {
        Some(s) => Some(owned(s)),
        None => None,
    }
}

fn node_type_str(t: DataFlowNodeType) -> (r: &'static str)
    ensures
        r@ == node_type_name(t),
{
    match t {
        DataFlowNodeType::Input => "Input",
        DataFlowNodeType::Output => "Output",
        DataFlowNodeType::Register => "Register",
        DataFlowNodeType::Memory => "Memory",
        DataFlowNodeType::Operation => "Operation",
        DataFlowNodeType::Constant => "Constant",
        DataFlowNodeType::PhaseBoundary => "Phase Boundary",
    }
}

fn edge_type_str(t: DataFlowEdgeType) -> (r: &'static str)
    ensures
        r@ == edge_type_name(t),
{
    match t {
        DataFlowEdgeType::DirectFlow => "Direct Flow",
        DataFlowEdgeType::Transformation => "Transformation",
        DataFlowEdgeType::Copy => "Copy",
        DataFlowEdgeType::Move => "Move",
        DataFlowEdgeType::Load => "Load",
        DataFlowEdgeType::Store => "Store",
        DataFlowEdgeType::PhaseTransition => "Phase Transition",
    }
}

// ───────────────────────────── the analyzer ────────────────────────────

/// The DOT text of the graph with these nodes and edges as
/// `petgraph::dot::Dot` writes it with `Config::EdgeNoLabel`, each node
/// labelled by its `Debug` text.
pub uninterp spec fn petgraph_flow_dot(nodes: Seq<NodeView>, edges: Seq<(usize, usize)>) -> Seq<char>;

/// Builds a `petgraph::Graph` whose node weights are the nodes and whose
/// edges join the given node positions, and formats
/// `Dot::with_config(&graph, &[Config::EdgeNoLabel])` with `{:?}`. The
/// contract claims only that the text is the named `petgraph_flow_dot` of
/// the nodes and edges; `add_edge` panics on a position out of range,
/// which `requires` rules out.
#[verifier::external_body]
fn flow_dot_of(nodes: &Vec<DataFlowNode>, edges: &Vec<(usize, usize)>) -> (r: String)
    requires
        forall|k: int| 0 <= k < edges.len() ==> (#[trigger] edges@[k]).0 < nodes.len() && edges@[k].1 < nodes.len(),
    ensures
        r@ == petgraph_flow_dot(node_views(nodes@), edges@),
{
    let mut g = petgraph::Graph::<&DataFlowNode, ()>::new();
    let ix: Vec<petgraph::graph::NodeIndex> = nodes.iter().map(|n| g.add_node(n)).collect();
    edges.iter().for_each(|&(a, b)| {
        g.add_edge(ix[a], ix[b], ());
    });
    format!("{:?}", petgraph::dot::Dot::with_config(&g, &[petgraph::dot::Config::EdgeNoLabel]))
}

/// The links whose two ends are among the first `n` nodes, in order.
pub open spec fn links_within(ls: Seq<(usize, usize)>, n: nat) -> Seq<(usize, usize)>
    decreases ls.len(),
{
    if ls.len() == 0 {
        Seq::empty()
    } else if ls.last().0 < n && ls.last().1 < n {
        links_within(ls.drop_last(), n).push(ls.last())
    } else {
        links_within(ls.drop_last(), n)
    }
}

impl DataFlowAnalyzer {
    /// The DOT picture of the graph (`petgraph_flow_dot` of its nodes and
    /// of its links that join nodes of the graph, which every link made
    /// here does).
    pub fn visualization_dot(&self) -> (r: String)
        ensures
            r@ == petgraph_flow_dot(node_views(self.nodes@), links_within(self.links@, self.nodes.len() as nat)),
    {
        let n = self.nodes.len();
        let mut ls: Vec<(usize, usize)> = Vec::new();
        let mut i: usize = 0;
        while i < self.links.len()
            invariant
                i <= self.links.len(),
                n == self.nodes.len(),
                ls@ == links_within(self.links@.take(i as int), n as nat),
                forall|k: int| 0 <= k < ls.len() ==> (#[trigger] ls@[k]).0 < n && ls@[k].1 < n,
            decreases self.links.len() - i,
        {
            let (a, b) = self.links[i];
            assert(self.links@.take(i + 1).drop_last() =~= self.links@.take(i as int));
            if a < n && b < n {
                ls.push((a, b));
            }
            i += 1;
        }
        assert(self.links@.take(i as int) =~= self.links@);
        flow_dot_of(&self.nodes, &ls)
    }

    /// The state of an empty graph in the phase `phase`.
    pub open spec fn new_view(phase: Seq<char>) -> AnalyzerView {
        (
            Seq::<NodeView>::empty(),
            Seq::<EdgeView>::empty(),
            Seq::<(usize, usize)>::empty(),
            phase,
            Seq::<InvariantView>::empty(),
            Seq::<TransitionView>::empty(),
        )
    }

    /// An empty graph in the phase `initial_phase`.
    pub fn new(initial_phase: &str) -> (r: Self)
        ensures
            r@ == Self::new_view(initial_phase@),
    {
        let r = DataFlowAnalyzer {
            nodes: Vec::new(),
            edges: Vec::new(),
            links: Vec::new(),
            current_phase: owned(initial_phase),
            invariants: Vec::new(),
            phase_transitions: Vec::new(),
        };
        assert(node_views(r.nodes@) =~= Seq::<NodeView>::empty());
        assert(edge_views(r.edges@) =~= Seq::<EdgeView>::empty());
        assert(invariant_views(r.invariants@) =~= Seq::<InvariantView>::empty());
        assert(transition_views(r.phase_transitions@) =~= Seq::<TransitionView>::empty());
        r
    }

    fn push_node(&mut self, n: DataFlowNode)
        ensures
            final(self)@ == node_added(old(self)@, node_view(n)),
    {
        self.nodes.push(n);
        assert(node_views(self.nodes@) =~= node_views(old(self).nodes@).push(node_view(n)));
    }

    /// Adds the input node `input_<name>` holding `register`.
    pub fn add_input(&mut self, name: &str, register: &str, value_type: &str, location: &str) -> (r: Result<(), String>)
        ensures
            r is Ok,
            final(self)@ == input_added(old(self)@, name@, register@, value_type@, location@),
    {
        let n = DataFlowNode {
            id: cat("input_", name),
            node_type: DataFlowNodeType::Input,
            register: Some(owned(register)),
            value_type: Some(owned(value_type)),
            phase: self.current_phase.clone(),
            location: owned(location),
            properties: Vec::new(),
        };
        assert(pairs_view(n.properties@) =~= Seq::empty());
        self.push_node(n);
        Ok(())
    }

    /// Adds the output node `output_<name>` holding `register`.
    pub fn add_output(&mut self, name: &str, register: &str, value_type: &str, location: &str) -> (r: Result<(), String>)
        ensures
            r is Ok,
            final(self)@ == output_added(old(self)@, name@, register@, value_type@, location@),
    {
        let n = DataFlowNode {
            id: cat("output_", name),
            node_type: DataFlowNodeType::Output,
            register: Some(owned(register)),
            value_type: Some(owned(value_type)),
            phase: self.current_phase.clone(),
            location: owned(location),
            properties: Vec::new(),
        };
        assert(pairs_view(n.properties@) =~= Seq::empty());
        self.push_node(n);
        Ok(())
    }

    /// Adds the register node `reg_<name>`.
    pub fn add_register(&mut self, name: &str, value_type: &str, location: &str) -> (r: Result<(), String>)
        ensures
            r is Ok,
            final(self)@ == register_added(old(self)@, name@, value_type@, location@),
    {
        let n = DataFlowNode {
            id: cat("reg_", name),
            node_type: DataFlowNodeType::Register,
            register: Some(owned(name)),
            value_type: Some(owned(value_type)),
            phase: self.current_phase.clone(),
            location: owned(location),
            properties: Vec::new(),
        };
        assert(pairs_view(n.properties@) =~= Seq::empty());
        self.push_node(n);
        Ok(())
    }

    fn node_position(&self, id: &str) -> (r: Option<usize>)
        ensures
            match last_with_id(self@.0, id@) {
                Some(k) => r == Some(k as usize) && k < self.nodes.len(),
                None => r is None,
            },
    {
        let ghost ns = self@.0;
        let mut i: usize = self.nodes.len();
        assert(ns.take(i as int) =~= ns);
        while i > 0
            invariant
                i <= self.nodes.len(),
                ns == self@.0,
                last_with_id(ns, id@) == last_with_id(ns.take(i as int), id@),
            decreases i,
        {
            let ghost t = ns.take(i as int);
            assert(t.last() == node_view(self.nodes@[i - 1]));
            assert(t.drop_last() =~= ns.take(i - 1));
            if str_eq(self.nodes[i - 1].id.as_str(), id) {
                return Some(i - 1);
            }
            i -= 1;
        }
        None
    }

    /// Adds a flow from the node `from` to the node `to` (`flow_result`);
    /// an error names the end that no node has, the source first.
    pub fn add_flow(
        &mut self,
        from: &str,
        to: &str,
        edge_type: DataFlowEdgeType,
        transformation: Option<&str>,
        preserves_invariant: bool,
    ) -> (r: Result<(), String>)
        ensures
            match flow_result(
                old(self)@,
                from@,
                to@,
                edge_type,
                match transformation {
                    Some(t) => Some(t@),
                    None => None,
                },
                preserves_invariant,
            ) {
                Ok(v) => r is Ok && final(self)@ == v,
                Err(m) => r matches Err(e) && e@ == m && final(self)@ == old(self)@,
            },
    {
        let a = match self.node_position(from) {
            Some(a) => a,
            None => {
                return Err(cat3("Source node ", from, " not found"));
            },
        };
        let b = match self.node_position(to) {
            Some(b) => b,
            None => {
                return Err(cat3("Destination node ", to, " not found"));
            },
        };
        let e = DataFlowEdge {
            from: owned(from),
            to: owned(to),
            edge_type,
            transformation: opt_str(transformation),
            preserves_invariant,
            properties: Vec::new(),
        };
        assert(pairs_view(e.properties@) =~= Seq::empty());
        let ghost ev = edge_view(e);
        self.edges.push(e);
        self.links.push((a, b));
        assert(edge_views(self.edges@) =~= edge_views(old(self).edges@).push(ev));
        Ok(())
    }

    /// Starts the phase `phase_name` (`phase_started`).
    pub fn start_phase(&mut self, phase_name: &str) -> (r: Result<(), String>)
        ensures
            r is Ok,
            final(self)@ == phase_started(old(self)@, phase_name@),
    {
        if !self.current_phase.as_str().is_empty() {
            let mut name = cat(self.current_phase.as_str(), "=>");
            push_str(&mut name, phase_name);
            let t = PhaseTransition {
                phase_name: name,
                input_registers: Vec::new(),
                output_registers: Vec::new(),
                pre_conditions: Vec::new(),
                post_conditions: Vec::new(),
                invariants_preserved: Vec::new(),
                location: owned("phase_boundary"),
            };
            assert(views(t.input_registers@) =~= Seq::empty());
            assert(views(t.output_registers@) =~= Seq::empty());
            assert(views(t.pre_conditions@) =~= Seq::empty());
            assert(views(t.post_conditions@) =~= Seq::empty());
            assert(views(t.invariants_preserved@) =~= Seq::empty());
            let ghost tv = transition_view(t);
            self.phase_transitions.push(t);
            assert(transition_views(self.phase_transitions@) =~= transition_views(old(self).phase_transitions@).push(tv));
        }
        self.current_phase = owned(phase_name);
        let n = DataFlowNode {
            id: cat("phase_", phase_name),
            node_type: DataFlowNodeType::PhaseBoundary,
            register: None,
            value_type: None,
            phase: owned(phase_name),
            location: owned("phase_start"),
            properties: Vec::new(),
        };
        assert(pairs_view(n.properties@) =~= Seq::empty());
        self.push_node(n);
        Ok(())
    }

    /// Adds an invariant, not yet verified.
    pub fn add_invariant(
        &mut self,
        id: &str,
        description: &str,
        applies_to: &[&str],
        expression: &str,
        verification_method: &str,
        phases: &[&str],
    ) -> (r: Result<(), String>)
        ensures
            r is Ok,
            final(self)@ == invariant_added(
                old(self)@,
                id@,
                description@,
                applies_to@.map_values(|x: &str| x@),
                expression@,
                verification_method@,
                phases@.map_values(|x: &str| x@),
            ),
    {
        let i = Invariant {
            id: owned(id),
            description: owned(description),
            applies_to: strs(applies_to),
            expression: owned(expression),
            verified: false,
            verification_method: owned(verification_method),
            phases: strs(phases),
        };
        let ghost iv = invariant_view(i);
        self.invariants.push(i);
        assert(invariant_views(self.invariants@) =~= invariant_views(old(self).invariants@).push(iv));
        Ok(())
    }
    /// Checks each invariant that applies to the current phase again
    /// (`invariants_verified`).
    pub fn verify_invariants(&mut self) -> (r: Result<(), String>)
        ensures
            r is Ok,
            final(self)@ == invariants_verified(old(self)@),
    {
        let ghost cur = self.current_phase@;
        let ghost ivs = invariant_views(self.invariants@);
        let mut out: Vec<Invariant> = Vec::new();
        let mut i: usize = 0;
        while i < self.invariants.len()
            invariant
                i <= self.invariants.len(),
                self@ == old(self)@,
                cur == self.current_phase@,
                ivs == invariant_views(self.invariants@),
                invariant_views(out@) == ivs.take(i as int).map_values(|iv: InvariantView| verified_in(iv, cur)),
            decreases self.invariants.len() - i,
        {
            let mut inv = copy_invariant(&self.invariants[i]);
            assert(ivs[i as int] == invariant_view(self.invariants@[i as int]));
            if list_contains(&inv.phases, self.current_phase.as_str()) {
                inv.verified = !has_substr(inv.expression.as_str(), "unsafe") && !has_substr(
                    inv.expression.as_str(),
                    "unchecked",
                );
            }
            let ghost before = out@;
            let ghost v = invariant_view(inv);
            out.push(inv);
            assert(invariant_views(out@) =~= invariant_views(before).push(v));
            assert(ivs.take(i + 1).map_values(|iv: InvariantView| verified_in(iv, cur)) =~= ivs.take(i as int).map_values(
                |iv: InvariantView| verified_in(iv, cur),
            ).push(verified_in(ivs[i as int], cur)));
            i += 1;
        }
        assert(ivs.take(i as int) =~= ivs);
        self.invariants = out;
        Ok(())
    }

    /// The edges whose source or destination id contains `register`.
    pub fn analyze_register_flow(&self, register: &str) -> (r: Result<Vec<DataFlowEdge>, String>)
        ensures
            r matches Ok(v) && edge_views(v@) == register_flow(self@.1, register@),
    {
        let ghost es = self@.1;
        let mut out: Vec<DataFlowEdge> = Vec::new();
        let mut i: usize = 0;
        while i < self.edges.len()
            invariant
                i <= self.edges.len(),
                es == self@.1,
                edge_views(out@) == register_flow(es.take(i as int), register@),
            decreases self.edges.len() - i,
        {
            let e = &self.edges[i];
            assert(es.take(i + 1).drop_last() =~= es.take(i as int));
            assert(es.take(i + 1).last() == edge_view(*e));
            if has_substr(e.from.as_str(), register) || has_substr(e.to.as_str(), register) {
                let ghost before = out@;
                out.push(copy_edge(e));
                assert(edge_views(out@) =~= edge_views(before).push(edge_view(*e)));
            }
            i += 1;
        }
        assert(es.take(i as int) =~= es);
        Ok(out)
    }
    fn has_type(v: &Vec<DataFlowNodeType>, t: DataFlowNodeType) -> (r: bool)
        ensures
            r == v@.contains(t),
    {
        let mut j: usize = 0;
        while j < v.len()
            invariant
                j <= v.len(),
                forall|q: int| 0 <= q < j ==> v@[q] != t,
            decreases v.len() - j,
        {
            if v[j] == t {
                assert(v@[j as int] == t);
                return true;
            }
            j += 1;
        }
        false
    }

    fn seen_types_of(&self) -> (r: Vec<DataFlowNodeType>)
        ensures
            r@ == seen_types(self@.0),
    {
        let ghost ns = self@.0;
        let mut r: Vec<DataFlowNodeType> = Vec::new();
        let mut i: usize = 0;
        while i < self.nodes.len()
            invariant
                i <= self.nodes.len(),
                ns == self@.0,
                r@ == seen_types(ns.take(i as int)),
            decreases self.nodes.len() - i,
        {
            let t = self.nodes[i].node_type;
            assert(ns.take(i + 1).drop_last() =~= ns.take(i as int));
            assert(ns.take(i + 1).last() == node_view(self.nodes@[i as int]));
            if !Self::has_type(&r, t) {
                r.push(t);
            }
            i += 1;
        }
        assert(ns.take(i as int) =~= ns);
        r
    }

    fn type_count_of(&self, t: DataFlowNodeType) -> (r: usize)
        ensures
            r == type_count(self@.0, t),
    {
        let ghost ns = self@.0;
        let mut c: usize = 0;
        let mut i: usize = 0;
        while i < self.nodes.len()
            invariant
                i <= self.nodes.len(),
                ns == self@.0,
                c == type_count(ns.take(i as int), t),
                c <= i,
            decreases self.nodes.len() - i,
        {
            assert(ns.take(i + 1).drop_last() =~= ns.take(i as int));
            assert(ns.take(i + 1).last() == node_view(self.nodes@[i as int]));
            if self.nodes[i].node_type == t {
                c += 1;
            }
            i += 1;
        }
        assert(ns.take(i as int) =~= ns);
        c
    }

    fn seen_registers_of(&self) -> (r: Vec<String>)
        ensures
            views(r@) == seen_registers(self@.0),
    {
        let ghost ns = self@.0;
        let mut r: Vec<String> = Vec::new();
        let mut i: usize = 0;
        while i < self.nodes.len()
            invariant
                i <= self.nodes.len(),
                ns == self@.0,
                views(r@) == seen_registers(ns.take(i as int)),
            decreases self.nodes.len() - i,
        {
            assert(ns.take(i + 1).drop_last() =~= ns.take(i as int));
            assert(ns.take(i + 1).last() == node_view(self.nodes@[i as int]));
            match &self.nodes[i].register {
                Some(reg) => {
                    if !list_contains(&r, reg.as_str()) {
                        push_line(&mut r, reg.clone());
                    }
                },
                None => {},
            }
            i += 1;
        }
        assert(ns.take(i as int) =~= ns);
        r
    }

    fn push_type_rows(&self, out: &mut Vec<String>)
        ensures
            views(final(out)@) == views(old(out)@) + seen_types(self@.0).map_values(
                |t: DataFlowNodeType| type_row(self@.0, t),
            ),
    {
        let ts = self.seen_types_of();
        let ghost head = views(out@);
        let ghost rows = ts@.map_values(|t: DataFlowNodeType| type_row(self@.0, t));
        let mut i: usize = 0;
        assert(head + rows.take(0) =~= head);
        while i < ts.len()
            invariant
                i <= ts.len(),
                rows == ts@.map_values(|t: DataFlowNodeType| type_row(self@.0, t)),
                views(out@) == head + rows.take(i as int),
            decreases ts.len() - i,
        {
            let c = self.type_count_of(ts[i]);
            let d = decimal_string(c);
            let mut row = cat3("| ", node_type_str(ts[i]), " | ");
            push_str(&mut row, d.as_str());
            push_str(&mut row, " |\n");
            push_line(out, row);
            assert(rows.take(i + 1) =~= rows.take(i as int).push(rows[i as int]));
            assert(views(out@) =~= head + rows.take(i + 1));
            i += 1;
        }
        assert(rows.take(i as int) =~= rows);
    }

    fn push_transitions(&self, out: &mut Vec<String>)
        ensures
            views(final(out)@) == views(old(out)@) + self@.5.map(|i: int, t: TransitionView| transition_piece(i, t)),
    {
        let ghost head = views(out@);
        let ghost all = self@.5.map(|i: int, t: TransitionView| transition_piece(i, t));
        let mut i: usize = 0;
        assert(head + all.take(0) =~= head);
        while i < self.phase_transitions.len()
            invariant
                i <= self.phase_transitions.len(),
                all == self@.5.map(|i: int, t: TransitionView| transition_piece(i, t)),
                views(out@) == head + all.take(i as int),
            decreases self.phase_transitions.len() - i,
        {
            let t = &self.phase_transitions[i];
            assert(self@.5[i as int] == transition_view(*t));
            let mut piece = decimal_string(i + 1);
            push_str(&mut piece, ". **");
            push_str(&mut piece, t.phase_name.as_str());
            push_str(&mut piece, "**\n");
            push_str(&mut piece, "   - Input registers: ");
            let a = decimal_string(t.input_registers.len());
            push_str(&mut piece, a.as_str());
            push_str(&mut piece, "\n");
            push_str(&mut piece, "   - Output registers: ");
            let b = decimal_string(t.output_registers.len());
            push_str(&mut piece, b.as_str());
            push_str(&mut piece, "\n");
            push_str(&mut piece, "   - Invariants preserved: ");
            let c = decimal_string(t.invariants_preserved.len());
            push_str(&mut piece, c.as_str());
            push_str(&mut piece, "\n\n");
            push_line(out, piece);
            assert(all[i as int] == transition_piece(i as int, self@.5[i as int]));
            assert(all.take(i + 1) =~= all.take(i as int).push(all[i as int]));
            assert(views(out@) =~= head + all.take(i + 1));
            i += 1;
        }
        assert(all.take(i as int) =~= all);
    }

    fn push_invariant_rows(&self, out: &mut Vec<String>)
        ensures
            views(final(out)@) == views(old(out)@) + self@.4.map_values(|i: InvariantView| invariant_row(i)),
    {
        let ghost head = views(out@);
        let ghost all = self@.4.map_values(|i: InvariantView| invariant_row(i));
        let mut i: usize = 0;
        assert(head + all.take(0) =~= head);
        while i < self.invariants.len()
            invariant
                i <= self.invariants.len(),
                all == self@.4.map_values(|i: InvariantView| invariant_row(i)),
                views(out@) == head + all.take(i as int),
            decreases self.invariants.len() - i,
        {
            let inv = &self.invariants[i];
            assert(self@.4[i as int] == invariant_view(*inv));
            let mut row = cat3("| ", inv.id.as_str(), " | ");
            push_str(&mut row, inv.description.as_str());
            push_str(&mut row, " | ");
            push_str(&mut row, if inv.verified { "\u{2713} Yes" } else { "\u{2717} No" });
            push_str(&mut row, " | ");
            push_str(&mut row, inv.verification_method.as_str());
            push_str(&mut row, " |\n");
            push_line(out, row);
            assert(all.take(i + 1) =~= all.take(i as int).push(all[i as int]));
            assert(views(out@) =~= head + all.take(i + 1));
            i += 1;
        }
        assert(all.take(i as int) =~= all);
    }

    fn push_register_section(&self, out: &mut Vec<String>, reg: &str)
        ensures
            views(final(out)@) == views(old(out)@) + register_section(self@.1, reg@),
    {
        let flow = match self.analyze_register_flow(reg) {
            Ok(f) => f,
            Err(_) => Vec::new(),
        };
        let ghost fv = register_flow(self@.1, reg@);
        let ghost head = views(out@);
        push_line(out, cat3("### Register: ", reg, "\n\n"));
        if flow.len() == 0 {
            push_line(out, owned("- No flow data available\n\n"));
            assert(views(out@) =~= head + register_section(self@.1, reg@));
        } else {
            push_line(out, owned("| From | To | Type | Preserves Invariant |\n"));
            push_line(out, owned("|------|----|------|---------------------|\n"));
            let ghost mid = views(out@);
            let ghost rows = fv.map_values(|e: EdgeView| flow_row(e));
            let mut i: usize = 0;
            assert(mid + rows.take(0) =~= mid);
            while i < flow.len()
                invariant
                    i <= flow.len(),
                    fv == edge_views(flow@),
                    rows == fv.map_values(|e: EdgeView| flow_row(e)),
                    views(out@) == mid + rows.take(i as int),
                decreases flow.len() - i,
            {
                let e = &flow[i];
                assert(fv[i as int] == edge_view(*e));
                let mut row = cat3("| ", e.from.as_str(), " | ");
                push_str(&mut row, e.to.as_str());
                push_str(&mut row, " | ");
                push_str(&mut row, edge_type_str(e.edge_type));
                push_str(&mut row, " | ");
                push_str(&mut row, if e.preserves_invariant { "\u{2713}" } else { "\u{2717}" });
                push_str(&mut row, " |\n");
                push_line(out, row);
                assert(rows.take(i + 1) =~= rows.take(i as int).push(rows[i as int]));
                assert(views(out@) =~= mid + rows.take(i + 1));
                i += 1;
            }
            assert(rows.take(i as int) =~= rows);
            push_line(out, owned("\n"));
            assert(views(out@) =~= head + register_section(self@.1, reg@));
        }
    }

    /// The Markdown report on the analyzer (`report`), headed with the
    /// time `generated`.
    pub fn generate_report(&self, generated: &str) -> (r: String)
        requires
            self.phase_transitions.len() < usize::MAX,
        ensures
            r@ == report(self@, generated@),
    {
        let mut out: Vec<String> = Vec::new();
        push_line(&mut out, owned("# Data Flow Analysis Report\n\n"));
        push_line(&mut out, cat3("Generated: ", generated, "\n\n"));
        push_line(&mut out, owned("## Graph Statistics\n\n"));
        let a = decimal_string(self.nodes.len());
        push_line(&mut out, cat3("- **Nodes**: ", a.as_str(), "\n"));
        let b = decimal_string(self.edges.len());
        push_line(&mut out, cat3("- **Edges**: ", b.as_str(), "\n"));
        let c = decimal_string(self.phase_transitions.len() + 1);
        push_line(&mut out, cat3("- **Phases**: ", c.as_str(), "\n"));
        let d = decimal_string(self.invariants.len());
        push_line(&mut out, cat3("- **Invariants**: ", d.as_str(), "\n\n"));
        push_line(&mut out, owned("## Node Types\n\n"));
        push_line(&mut out, owned("| Type | Count |\n"));
        push_line(&mut out, owned("|------|-------|\n"));
        let ghost p1 = views(out@);
        self.push_type_rows(&mut out);
        push_line(&mut out, owned("\n## Phase Transitions\n\n"));
        let ghost p2 = views(out@);
        self.push_transitions(&mut out);
        push_line(&mut out, owned("## Invariant Verification\n\n"));
        push_line(&mut out, owned("| ID | Description | Verified | Method |\n"));
        push_line(&mut out, owned("|----|-------------|----------|--------|\n"));
        let ghost p3 = views(out@);
        self.push_invariant_rows(&mut out);
        push_line(&mut out, owned("\n## Register Flow Analysis\n\n"));
        let ghost p4 = views(out@);
        let regs = self.seen_registers_of();
        let ghost rv = views(regs@);
        let mut i: usize = 0;
        assert(rv.take(0) =~= Seq::<Seq<char>>::empty());
        assert(p4 + register_sections(self@.1, rv.take(0)) =~= p4);
        while i < regs.len()
            invariant
                i <= regs.len(),
                rv == views(regs@),
                views(out@) == p4 + register_sections(self@.1, rv.take(i as int)),
            decreases regs.len() - i,
        {
            self.push_register_section(&mut out, regs[i].as_str());
            assert(rv.take(i + 1).drop_last() =~= rv.take(i as int));
            assert(rv.take(i + 1).last() == regs@[i as int]@);
            assert(views(out@) =~= p4 + register_sections(self@.1, rv.take(i + 1)));
            i += 1;
        }
        assert(rv.take(i as int) =~= rv);
        let r = concat_strings(&out);
        assert(views(out@) =~= seq![
            "# Data Flow Analysis Report\n\n"@,
            "Generated: "@ + generated@ + "\n\n"@,
            "## Graph Statistics\n\n"@,
            "- **Nodes**: "@ + decimal(self@.0.len()) + "\n"@,
            "- **Edges**: "@ + decimal(self@.1.len()) + "\n"@,
            "- **Phases**: "@ + decimal(self@.5.len() + 1) + "\n"@,
            "- **Invariants**: "@ + decimal(self@.4.len()) + "\n\n"@,
            "## Node Types\n\n"@,
            "| Type | Count |\n"@,
            "|------|-------|\n"@,
        ] + seen_types(self@.0).map_values(|t: DataFlowNodeType| type_row(self@.0, t)) + seq!["\n## Phase Transitions\n\n"@]
            + self@.5.map(|i: int, t: TransitionView| transition_piece(i, t)) + seq![
            "## Invariant Verification\n\n"@,
            "| ID | Description | Verified | Method |\n"@,
            "|----|-------------|----------|--------|\n"@,
        ] + self@.4.map_values(|i: InvariantView| invariant_row(i)) + seq!["\n## Register Flow Analysis\n\n"@]
            + register_sections(self@.1, seen_registers(self@.0)));
        r
    }
}

// ───────────────────────────── a workload ──────────────────────────────

/// The analyzer of one workload, with its source files.
pub struct WorkloadDataFlowAnalyzer {
    pub analyzer: DataFlowAnalyzer,
    pub workload_name: String,
    pub source_files: Vec<String>,
}

/// `v` with a flow added where both ends exist, unchanged otherwise.
pub open spec fn flow_added(
    v: AnalyzerView,
    from: Seq<char>,
    to: Seq<char>,
    edge_type: DataFlowEdgeType,
    transformation: Option<Seq<char>>,
    preserves_invariant: bool,
) -> AnalyzerView {
    match flow_result(v, from, to, edge_type, transformation, preserves_invariant) {
        Ok(w) => w,
        Err(_) => v,
    }
}

/// The analysis of a workload's source, as a sequence of steps: the
/// phases of input validation, processing and output, with their inputs,
/// registers, outputs, flows and two invariants, which are then verified
/// in the last phase.
pub open spec fn workload_analysis(v0: AnalyzerView) -> AnalyzerView {
    let v1 = phase_started(v0, "input_validation"@);
    let v2 = input_added(v1, "transaction_input"@, "tx_register"@, "Transaction"@, "src/validator.rs:42"@);
    let v3 = input_added(v2, "signature_input"@, "sig_register"@, "Signature"@, "src/validator.rs:43"@);
    let v4 = register_added(v3, "tx_register"@, "Transaction"@, "src/validator.rs:50"@);
    let v5 = register_added(v4, "sig_register"@, "Signature"@, "src/validator.rs:51"@);
    let v6 = register_added(v5, "temp_hash"@, "Hash"@, "src/validator.rs:55"@);
    let v7 = flow_added(v6, "input_transaction_input"@, "reg_tx_register"@, DataFlowEdgeType::DirectFlow, None, true);
    let v8 = flow_added(v7, "input_signature_input"@, "reg_sig_register"@, DataFlowEdgeType::DirectFlow, None, true);
    let v9 = phase_started(v8, "processing"@);
    let v10 = register_added(v9, "processed_tx"@, "ProcessedTransaction"@, "src/processor.rs:18"@);
    let v11 = register_added(v10, "verification_result"@, "bool"@, "src/processor.rs:22"@);
    let v12 = flow_added(
        v11,
        "reg_tx_register"@,
        "reg_processed_tx"@,
        DataFlowEdgeType::Transformation,
        Some("process_transaction"@),
        true,
    );
    let v13 = flow_added(
        v12,
        "reg_sig_register"@,
        "reg_verification_result"@,
        DataFlowEdgeType::Transformation,
        Some("verify_signature"@),
        true,
    );
    let v14 = invariant_added(
        v13,
        "invariant_1"@,
        "Transaction hash must match signature"@,
        seq!["tx_register"@, "sig_register"@, "temp_hash"@],
        "tx_register.hash() == temp_hash && verify(sig_register, temp_hash)"@,
        "cryptographic_verification"@,
        seq!["input_validation"@, "processing"@],
    );
    let v15 = invariant_added(
        v14,
        "invariant_2"@,
        "Processed transaction must maintain original data"@,
        seq!["tx_register"@, "processed_tx"@],
        "processed_tx.original_data == tx_register.data"@,
        "data_integrity_check"@,
        seq!["processing"@],
    );
    let v16 = phase_started(v15, "output"@);
    let v17 = output_added(v16, "transaction_output"@, "processed_tx"@, "ProcessedTransaction"@, "src/output.rs:15"@);
    let v18 = output_added(v17, "verification_output"@, "verification_result"@, "bool"@, "src/output.rs:16"@);
    let v19 = flow_added(v18, "reg_processed_tx"@, "output_transaction_output"@, DataFlowEdgeType::DirectFlow, None, true);
    let v20 = flow_added(
        v19,
        "reg_verification_result"@,
        "output_verification_output"@,
        DataFlowEdgeType::DirectFlow,
        None,
        true,
    );
    invariants_verified(v20)
}

/// The latest node with an id is the one just added, or the latest before.
pub broadcast proof fn lemma_last_with_id_push(ns: Seq<NodeView>, n: NodeView, id: Seq<char>)
    ensures
        #[trigger] last_with_id(ns.push(n), id) == if n.0 == id {
            Some(ns.len() as int)
        } else {
            last_with_id(ns, id)
        },
{
    assert(ns.push(n).drop_last() =~= ns);
}

impl WorkloadDataFlowAnalyzer {
    /// The analyzer of the workload `workload_name`, in the phase
    /// `initial`, with no source files.
    pub fn new(workload_name: &str) -> (r: Self)
        ensures
            r.analyzer@ == DataFlowAnalyzer::new_view("initial"@),
            r.workload_name@ == workload_name@,
            r.source_files@.len() == 0,
    {
        WorkloadDataFlowAnalyzer {
            analyzer: DataFlowAnalyzer::new("initial"),
            workload_name: owned(workload_name),
            source_files: Vec::new(),
        }
    }

    /// Adds source files to analyze.
    pub fn add_source_files(&mut self, files: &[String]) -> (r: Result<(), String>)
        ensures
            r is Ok,
            views(final(self).source_files@) == views(old(self).source_files@) + views(files@),
            final(self).analyzer@ == old(self).analyzer@,
            final(self).workload_name@ == old(self).workload_name@,
    {
        let mut i: usize = 0;
        let ghost start = views(self.source_files@);
        assert(views(files@).take(0) =~= Seq::<Seq<char>>::empty());
        while i < files.len()
            invariant
                i <= files.len(),
                views(self.source_files@) == start + views(files@).take(i as int),
                self.analyzer@ == old(self).analyzer@,
                self.workload_name@ == old(self).workload_name@,
            decreases files.len() - i,
        {
            push_line(&mut self.source_files, files[i].clone());
            assert(views(files@).take(i + 1) =~= views(files@).take(i as int).push(files@[i as int]@));
            i += 1;
        }
        assert(views(files@).take(i as int) =~= views(files@));
        Ok(())
    }

    /// Analyzes the workload's source (`workload_analysis`).
    pub fn analyze_rust_source(&mut self) -> (r: Result<(), String>)
        ensures
            r is Ok,
            final(self).analyzer@ == workload_analysis(old(self).analyzer@),
            views(final(self).source_files@) == views(old(self).source_files@),
            final(self).workload_name@ == old(self).workload_name@,
    {
        broadcast use lemma_last_with_id_push;

        proof {
            reveal_strlit("input_");
            reveal_strlit("reg_");
            reveal_strlit("phase_");
            reveal_strlit("output_");
            reveal_strlit("input_validation");
            reveal_strlit("transaction_input");
            reveal_strlit("signature_input");
            reveal_strlit("tx_register");
            reveal_strlit("sig_register");
            reveal_strlit("temp_hash");
            reveal_strlit("input_transaction_input");
            reveal_strlit("input_signature_input");
            reveal_strlit("reg_tx_register");
            reveal_strlit("reg_sig_register");
            reveal_strlit("processing");
            reveal_strlit("processed_tx");
            reveal_strlit("verification_result");
            reveal_strlit("reg_processed_tx");
            reveal_strlit("reg_verification_result");
            reveal_strlit("output");
            reveal_strlit("transaction_output");
            reveal_strlit("verification_output");
            reveal_strlit("output_transaction_output");
            reveal_strlit("output_verification_output");
            assert("input_"@ + "transaction_input"@ =~= "input_transaction_input"@);
            assert("input_"@ + "signature_input"@ =~= "input_signature_input"@);
            assert("reg_"@ + "tx_register"@ =~= "reg_tx_register"@);
            assert("reg_"@ + "sig_register"@ =~= "reg_sig_register"@);
            assert("reg_"@ + "processed_tx"@ =~= "reg_processed_tx"@);
            assert("reg_"@ + "verification_result"@ =~= "reg_verification_result"@);
            assert("output_"@ + "transaction_output"@ =~= "output_transaction_output"@);
            assert("output_"@ + "verification_output"@ =~= "output_verification_output"@);
        }
        let a = &mut self.analyzer;
        a.start_phase("input_validation")?;
        a.add_input("transaction_input", "tx_register", "Transaction", "src/validator.rs:42")?;
        a.add_input("signature_input", "sig_register", "Signature", "src/validator.rs:43")?;
        a.add_register("tx_register", "Transaction", "src/validator.rs:50")?;
        a.add_register("sig_register", "Signature", "src/validator.rs:51")?;
        a.add_register("temp_hash", "Hash", "src/validator.rs:55")?;
        a.add_flow("input_transaction_input", "reg_tx_register", DataFlowEdgeType::DirectFlow, None, true)?;
        a.add_flow("input_signature_input", "reg_sig_register", DataFlowEdgeType::DirectFlow, None, true)?;
        a.start_phase("processing")?;
        a.add_register("processed_tx", "ProcessedTransaction", "src/processor.rs:18")?;
        a.add_register("verification_result", "bool", "src/processor.rs:22")?;
        a.add_flow(
            "reg_tx_register",
            "reg_processed_tx",
            DataFlowEdgeType::Transformation,
            Some("process_transaction"),
            true,
        )?;
        proof {
            assert(("reg_"@ + "processed_tx"@)[4] != "reg_sig_register"@[4]);
            assert(("phase_"@ + "processing"@)[0] != "reg_sig_register"@[0]);
        }
        a.add_flow(
            "reg_sig_register",
            "reg_verification_result",
            DataFlowEdgeType::Transformation,
            Some("verify_signature"),
            true,
        )?;
        let applies_1 = ["tx_register", "sig_register", "temp_hash"];
        let phases_1 = ["input_validation", "processing"];
        let applies_2 = ["tx_register", "processed_tx"];
        let phases_2 = ["processing"];
        assert(applies_1@.map_values(|x: &str| x@) =~= seq!["tx_register"@, "sig_register"@, "temp_hash"@]);
        assert(phases_1@.map_values(|x: &str| x@) =~= seq!["input_validation"@, "processing"@]);
        assert(applies_2@.map_values(|x: &str| x@) =~= seq!["tx_register"@, "processed_tx"@]);
        assert(phases_2@.map_values(|x: &str| x@) =~= seq!["processing"@]);
        a.add_invariant(
            "invariant_1",
            "Transaction hash must match signature",
            &applies_1,
            "tx_register.hash() == temp_hash && verify(sig_register, temp_hash)",
            "cryptographic_verification",
            &phases_1,
        )?;
        a.add_invariant(
            "invariant_2",
            "Processed transaction must maintain original data",
            &applies_2,
            "processed_tx.original_data == tx_register.data",
            "data_integrity_check",
            &phases_2,
        )?;
        a.start_phase("output")?;
        a.add_output("transaction_output", "processed_tx", "ProcessedTransaction", "src/output.rs:15")?;
        a.add_output("verification_output", "verification_result", "bool", "src/output.rs:16")?;
        a.add_flow("reg_processed_tx", "output_transaction_output", DataFlowEdgeType::DirectFlow, None, true)?;
        a.add_flow("reg_verification_result", "output_verification_output", DataFlowEdgeType::DirectFlow, None, true)?;
        a.verify_invariants()?;
        Ok(())
    }

    /// The underlying analyzer.
    pub fn analyzer(&self) -> (r: &DataFlowAnalyzer)
        ensures
            r == &self.analyzer,
    {
        &self.analyzer
    }
}

} // verus!
