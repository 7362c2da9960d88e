//! Partitioning a dependency graph: the graph written for a partitioning
//! tool (a header `nodes edges`, then one `from to 1` line per edge, nodes
//! by index), the round-robin assignment used when no tool is at hand, the
//! partitions read back from an assignment (one number per line, the
//! partition of the node with that line's index), and the edges that stay
//! inside a partition or leave it.
use vstd::prelude::*;
use crate::global_dep_graph::{DependencyEdge, DependencyEdgeType, DependencyNode, GlobalDependencyGraph};
use crate::text::{
    decimal, decimal_string, is_whitespace, is_ws, lines, parse_usize, parse_usize_spec, push_str,
    split_lines, str_eq, trim, trimmed, views,
};

verus! {

broadcast use vstd::string::group_string_axioms;

// ───────────────────────────── choices ─────────────────────────────────

/// The partitioning algorithm asked for.
#[derive(Clone, Copy, Debug, PartialEq, Eq, Structural)]
pub enum PartitioningAlgorithm {
    KaMinPar,
    Metis,
    Louvain,
    KernighanLin,
    Spectral,
    Greedy,
}

/// The forms the partitions are written in.
#[derive(Clone, Copy, Debug, PartialEq, Eq, Structural)]
pub enum PartitionOutputFormat {
    Json,
    Dot,
    Svg,
    DotAndSvg,
    All,
}

/// `str::to_lowercase` of a text (Unicode lower case).
pub uninterp spec fn str_lowercase(s: Seq<char>) -> Seq<char>;

/// `str::to_lowercase`. The contract claims only that the result is the
/// named `str_lowercase` of the text.
#[verifier::external_body]
fn lowercase(s: &str) -> (r: String)
    ensures
        r@ == str_lowercase(s@),
{
    s.to_lowercase()
}

/// The algorithm a lower-case name names.
pub open spec fn algorithm_named(l: Seq<char>) -> Option<PartitioningAlgorithm> {
    if l == "kaminpar"@ {
        Some(PartitioningAlgorithm::KaMinPar)
    } else if l == "metis"@ {
        Some(PartitioningAlgorithm::Metis)
    } else if l == "louvain"@ {
        Some(PartitioningAlgorithm::Louvain)
    } else if l == "kernighanlin"@ {
        Some(PartitioningAlgorithm::KernighanLin)
    } else if l == "spectral"@ {
        Some(PartitioningAlgorithm::Spectral)
    } else if l == "greedy"@ {
        Some(PartitioningAlgorithm::Greedy)
    } else {
        None
    }
}

/// The algorithm named by `s` in any case (`algorithm_named` of its lower
/// case), or the error "Unknown partitioning algorithm: <s>".
pub fn parse_algorithm(s: &str) -> (r: Result<PartitioningAlgorithm, String>)
    ensures
        match algorithm_named(str_lowercase(s@)) {
            Some(a) => r matches Ok(b) && b == a,
            None => r matches Err(e) && e@ == "Unknown partitioning algorithm: "@ + s@,
        },
{
    let l = lowercase(s);
    let t = l.as_str();
    if str_eq(t, "kaminpar") {
        Ok(PartitioningAlgorithm::KaMinPar)
    } else if str_eq(t, "metis") {
        Ok(PartitioningAlgorithm::Metis)
    } else if str_eq(t, "louvain") {
        Ok(PartitioningAlgorithm::Louvain)
    } else if str_eq(t, "kernighanlin") {
        Ok(PartitioningAlgorithm::KernighanLin)
    } else if str_eq(t, "spectral") {
        Ok(PartitioningAlgorithm::Spectral)
    } else if str_eq(t, "greedy") {
        Ok(PartitioningAlgorithm::Greedy)
    } else {
        Err(crate::text::cat("Unknown partitioning algorithm: ", s))
    }
}

impl std::str::FromStr for PartitioningAlgorithm {
    type Err = String;

    fn from_str(s: &str) -> Result<Self, String> {
        parse_algorithm(s)
    }
}

// ───────────────────────────── the tool's input ────────────────────────

/// The ids of the nodes, in order.
pub open spec fn node_ids(nodes: Seq<DependencyNode>) -> Seq<Seq<char>> {
    nodes.map_values(|n: DependencyNode| n.id@)
}

/// The ends of the edges, in order.
pub open spec fn edge_ends(edges: Seq<DependencyEdge>) -> Seq<(Seq<char>, Seq<char>)> {
    edges.map_values(|e: DependencyEdge| (e.from@, e.to@))
}

/// The index of the last node with id `id` (an id given twice maps to its
/// later node).
pub open spec fn last_index(ids: Seq<Seq<char>>, id: Seq<char>) -> Option<int>
    decreases ids.len(),
{
    if ids.len() == 0 {
        None
    } else if ids.last() == id {
        Some(ids.len() - 1)
    } else {
        last_index(ids.drop_last(), id)
    }
}

/// The line written for an edge whose two ends are nodes of the graph.
pub open spec fn edge_line(ids: Seq<Seq<char>>, e: (Seq<char>, Seq<char>)) -> Seq<char> {
    match (last_index(ids, e.0), last_index(ids, e.1)) {
        (Some(f), Some(t)) => decimal(f as nat) + " "@ + decimal(t as nat) + " 1\n"@,
        _ => Seq::empty(),
    }
}

/// The lines of the edges, in edge order.
pub open spec fn edge_lines(ids: Seq<Seq<char>>, edges: Seq<(Seq<char>, Seq<char>)>) -> Seq<char>
    decreases edges.len(),
{
    if edges.len() == 0 {
        Seq::empty()
    } else {
        edge_lines(ids, edges.drop_last()) + edge_line(ids, edges.last())
    }
}

/// The text handed to the partitioning tool: the node and edge counts,
/// then the edges between nodes of the graph, every one of weight 1.
pub open spec fn partition_input(ids: Seq<Seq<char>>, edges: Seq<(Seq<char>, Seq<char>)>) -> Seq<char> {
    decimal(ids.len()) + " "@ + decimal(edges.len()) + "\n"@ + edge_lines(ids, edges)
}

/// The index of the last node whose id is `id`.
fn last_node_index(nodes: &Vec<DependencyNode>, id: &str) -> (r: Option<usize>)
    ensures
        r matches Some(i) ==> last_index(node_ids(nodes@), id@) == Some(i as int),
        r is None ==> last_index(node_ids(nodes@), id@) is None,
{
    let ghost ids = node_ids(nodes@);
    let mut k: usize = nodes.len();
    assert(ids.take(k as int) =~= ids);
    while k > 0
        invariant
            k <= nodes.len(),
            ids == node_ids(nodes@),
            last_index(ids, id@) == last_index(ids.take(k as int), id@),
        decreases k,
    {
        let ghost t = ids.take(k as int);
        assert(t.drop_last() =~= ids.take(k - 1));
        assert(t.last() == nodes@[k - 1].id@);
        if str_eq(nodes[k - 1].id.as_str(), id) {
            return Some(k - 1);
        }
        k -= 1;
    }
    assert(ids.take(0) =~= Seq::<Seq<char>>::empty());
    None
}

/// The text written for a partitioning tool (`partition_input`).
pub fn partition_input_text(graph: &GlobalDependencyGraph) -> (r: String)
    ensures
        r@ == partition_input(node_ids(graph.nodes@), edge_ends(graph.edges@)),
{
    let ghost ids = node_ids(graph.nodes@);
    let ghost es = edge_ends(graph.edges@);
    let sp = " ";
    let nl = "\n";
    let w = " 1\n";
    proof {
        reveal_strlit(" ");
        reveal_strlit("\n");
        reveal_strlit(" 1\n");
    }
    let mut out = decimal_string(graph.nodes.len());
    push_str(&mut out, sp);
    let m = decimal_string(graph.edges.len());
    push_str(&mut out, m.as_str());
    push_str(&mut out, nl);
    let ghost head = out@;
    assert(head == decimal(ids.len()) + " "@ + decimal(es.len()) + "\n"@);
    let mut i: usize = 0;
    while i < graph.edges.len()
        invariant
            i <= graph.edges.len(),
            ids == node_ids(graph.nodes@),
            es == edge_ends(graph.edges@),
            w@ == " 1\n"@,
            sp@ == " "@,
            out@ == head + edge_lines(ids, es.take(i as int)),
        decreases graph.edges.len() - i,
    {
        let e = &graph.edges[i];
        assert(es.take(i + 1).drop_last() =~= es.take(i as int));
        assert(es.take(i + 1).last() == (e.from@, e.to@));
        let f = last_node_index(&graph.nodes, e.from.as_str());
        let t = last_node_index(&graph.nodes, e.to.as_str());
        match (f, t) {
            (Some(fi), Some(ti)) => {
                let a = decimal_string(fi);
                let b = decimal_string(ti);
                push_str(&mut out, a.as_str());
                push_str(&mut out, sp);
                push_str(&mut out, b.as_str());
                push_str(&mut out, w);
            },
            _ => {},
        }
        assert(out@ =~= head + edge_lines(ids, es.take(i + 1)));
        i += 1;
    }
    assert(es.take(i as int) =~= es);
    out
}


// ───────────────────────────── the fallback ────────────────────────────

/// `str::split_whitespace`: the maximal runs of characters that are not
/// whitespace, in order.
pub open spec fn words(s: Seq<char>) -> Seq<Seq<char>>
    decreases s.len(),
{
    if s.len() == 0 {
        Seq::empty()
    } else {
        let w = words(s.drop_last());
        let c = s.last();
        if is_ws(c) {
            w
        } else if s.len() >= 2 && !is_ws(s[s.len() - 2]) {
            w.update(w.len() - 1, w.last().push(c))
        } else {
            w.push(seq![c])
        }
    }
}

proof fn lemma_words_nonempty(s: Seq<char>)
    requires
        s.len() > 0,
        !is_ws(s.last()),
    ensures
        words(s).len() > 0,
    decreases s.len(),
{
    if s.len() >= 2 && !is_ws(s[s.len() - 2]) {
        assert(s.drop_last().last() == s[s.len() - 2]);
        lemma_words_nonempty(s.drop_last());
    }
}

/// Executable `words`.
fn split_words(s: &str) -> (r: Vec<String>)
    ensures
        views(r@) == words(s@),
{
    let v = crate::text::chars_of(s);
    let mut out: Vec<String> = Vec::new();
    let mut i: usize = 0;
    while i < v.len()
        invariant
            i <= v.len(),
            v@ == s@,
            views(out@) == words(v@.take(i as int)),
        decreases v.len() - i,
    {
        let c = v[i];
        let ghost t = v@.take(i + 1);
        assert(t.drop_last() =~= v@.take(i as int));
        assert(t.last() == c);
        if is_whitespace(c) {
        } else if i >= 1 && !is_whitespace(v[i - 1]) {
            assert(t[t.len() - 2] == v@[i - 1]);
            proof {
                assert(v@.take(i as int).last() == v@[i - 1]);
                lemma_words_nonempty(v@.take(i as int));
            }
            let ghost before = views(out@);
            let mut last = out.pop().unwrap();
            crate::text::push_char(&mut last, c);
            out.push(last);
            assert(views(out@) =~= before.update(before.len() - 1, before.last().push(c)));
        } else {
            let mut w = String::new();
            crate::text::push_char(&mut w, c);
            let ghost before = views(out@);
            out.push(w);
            assert(views(out@) =~= before.push(seq![c]));
        }
        assert(views(out@) == words(t));
        i += 1;
    }
    assert(v@.take(i as int) =~= v@);
    out
}

/// Why the header of the tool's input cannot be read.
#[derive(Clone, Copy, Debug, PartialEq, Eq, Structural)]
pub enum FallbackError {
    /// The input has no line at all.
    InvalidInput,
    /// Its first line has fewer than two words.
    InvalidFormat,
    /// Its first word is not a node count.
    InvalidCount,
}

/// The node count that the first line of the tool's input gives (its
/// first word, as `usize::from_str` reads it; the line needs two words).
pub open spec fn header_count(input: Seq<char>) -> Result<nat, FallbackError> {
    let ls = lines(input);
    if ls.len() == 0 {
        Err(FallbackError::InvalidInput)
    } else if words(ls[0]).len() < 2 {
        Err(FallbackError::InvalidFormat)
    } else {
        match parse_usize_spec(words(ls[0])[0]) {
            Some(n) => Ok(n),
            None => Err(FallbackError::InvalidCount),
        }
    }
}

/// The node count in the header of the tool's input (`header_count`).
pub fn partition_header_count(input: &str) -> (r: Result<usize, FallbackError>)
    ensures
        match header_count(input@) {
            Ok(n) => r matches Ok(m) && m == n,
            Err(e) => r == Err::<usize, FallbackError>(e),
        },
{
    let ls = split_lines(input);
    assert(views(ls@) == lines(input@)) by {
        assert(views(ls@) =~= ls@.map_values(|l: String| l@));
    }
    if ls.len() == 0 {
        return Err(FallbackError::InvalidInput);
    }
    let ws = split_words(ls[0].as_str());
    if ws.len() < 2 {
        return Err(FallbackError::InvalidFormat);
    }
    match parse_usize(ws[0].as_str()) {
        Some(n) => Ok(n),
        None => Err(FallbackError::InvalidCount),
    }
}

/// The round-robin assignment of `n` nodes to `k` partitions: node `i`
/// goes to partition `i % k`, one line per node.
pub open spec fn round_robin(n: nat, k: nat) -> Seq<char>
    decreases n,
{
    if n == 0 {
        Seq::empty()
    } else {
        round_robin((n - 1) as nat, k) + decimal(((n - 1) as nat % k) as nat) + "\n"@
    }
}

/// The round-robin assignment (`round_robin`).
pub fn round_robin_assignment(node_count: usize, partition_count: usize) -> (r: String)
    requires
        node_count == 0 || partition_count > 0,
    ensures
        r@ == round_robin(node_count as nat, partition_count as nat),
{
    let nl = "\n";
    proof {
        reveal_strlit("\n");
    }
    let mut out = String::new();
    let mut i: usize = 0;
    while i < node_count
        invariant
            i <= node_count,
            node_count == 0 || partition_count > 0,
            nl@ == "\n"@,
            out@ == round_robin(i as nat, partition_count as nat),
        decreases node_count - i,
    {
        let d = decimal_string(i % partition_count);
        push_str(&mut out, d.as_str());
        push_str(&mut out, nl);
        assert(((i + 1) - 1) as nat == i as nat);
        i += 1;
    }
    out
}

/// The assignment written when no partitioning tool is at hand: the
/// round-robin assignment of as many nodes as the input's header gives,
/// or why the header cannot be read.
pub fn fallback_partition(input: &str, partition_count: usize) -> (r: Result<String, FallbackError>)
    requires
        partition_count > 0 || !(header_count(input@) matches Ok(n) && n > 0),
    ensures
        match header_count(input@) {
            Ok(n) => r matches Ok(t) && t@ == round_robin(n, partition_count as nat),
            Err(e) => r == Err::<String, FallbackError>(e),
        },
{
    match partition_header_count(input) {
        Ok(n) => Ok(round_robin_assignment(n, partition_count)),
        Err(e) => Err(e),
    }
}

// ───────────────────────────── reading an assignment back ──────────────

/// One partition: its number and the nodes in it, by index, in order.
pub struct PartitionGroup {
    pub partition_id: usize,
    pub node_ids: Vec<String>,
    pub node_count: usize,
}

/// The partition that a line of an assignment names: the line, trimmed,
/// read as a `usize`.
pub open spec fn line_value(l: Seq<char>) -> Option<nat> {
    parse_usize_spec(trim(l))
}

/// The partitions that the lines name (0 where a line names none).
pub open spec fn assignment(ls: Seq<Seq<char>>) -> Seq<nat> {
    ls.map_values(|l: Seq<char>| match line_value(l) {
        Some(n) => n,
        None => 0,
    })
}

/// The nodes assigned to partition `p`, by index in decimal, in order.
pub open spec fn members(a: Seq<nat>, p: nat) -> Seq<Seq<char>>
    decreases a.len(),
{
    if a.len() == 0 {
        Seq::empty()
    } else {
        members(a.drop_last(), p) + if a.last() == p {
            seq![decimal((a.len() - 1) as nat)]
        } else {
            Seq::empty()
        }
    }
}

/// `gs` are the partitions of the assignment `a`: one for each partition
/// number that `a` uses (and no other: each has a node), in increasing
/// order of number, each with its nodes in order.
pub open spec fn partitions_of(a: Seq<nat>, gs: Seq<PartitionGroup>) -> bool {
    &&& forall|j: int, k: int| 0 <= j < k < gs.len() ==> #[trigger] gs[j].partition_id < #[trigger] gs[k].partition_id
    &&& forall|j: int| 0 <= j < gs.len() ==> members(a, (#[trigger] gs[j]).partition_id as nat).len() > 0
    &&& forall|i: int| #![trigger a[i]] 0 <= i < a.len() ==> exists|j: int| 0 <= j < gs.len() && (#[trigger] gs[j]).partition_id == a[i]
    &&& forall|j: int| 0 <= j < gs.len() ==> views((#[trigger] gs[j]).node_ids@) == members(a, gs[j].partition_id as nat)
        && gs[j].node_count == gs[j].node_ids.len()
}

/// `x` lies above the bound (every number lies above no bound).
pub open spec fn above(lower: Option<usize>, x: nat) -> bool {
    match lower {
        Some(l) => x > l,
        None => true,
    }
}

/// The least number of `a` above the bound.
fn least_above(a: &Vec<usize>, lower: Option<usize>) -> (r: Option<usize>)
    ensures
        r matches Some(m) ==> above(lower, m as nat) && (exists|i: int| 0 <= i < a.len() && a@[i] == m)
            && forall|i: int| 0 <= i < a.len() && above(lower, a@[i] as nat) ==> m <= a@[i],
        r is None ==> forall|i: int| 0 <= i < a.len() ==> !above(lower, a@[i] as nat),
{
    let mut best: Option<usize> = None;
    let mut i: usize = 0;
    while i < a.len()
        invariant
            i <= a.len(),
            best matches Some(m) ==> above(lower, m as nat) && (exists|k: int| 0 <= k < i && a@[k] == m)
                && forall|k: int| 0 <= k < i && above(lower, a@[k] as nat) ==> m <= a@[k],
            best is None ==> forall|k: int| 0 <= k < i ==> !above(lower, a@[k] as nat),
        decreases a.len() - i,
    {
        let x = a[i];
        let ok = match lower {
            Some(l) => x > l,
            None => true,
        };
        if ok {
            match best {
                Some(m) => {
                    if x < m {
                        best = Some(x);
                    }
                },
                None => {
                    best = Some(x);
                },
            }
        }
        i += 1;
    }
    best
}

/// The nodes assigned to `p` (`members`).
fn members_of(a: &Vec<usize>, p: usize) -> (r: Vec<String>)
    ensures
        views(r@) == members(a@.map_values(|x: usize| x as nat), p as nat),
{
    let ghost an = a@.map_values(|x: usize| x as nat);
    let mut out: Vec<String> = Vec::new();
    let mut i: usize = 0;
    while i < a.len()
        invariant
            i <= a.len(),
            an == a@.map_values(|x: usize| x as nat),
            views(out@) == members(an.take(i as int), p as nat),
        decreases a.len() - i,
    {
        let ghost t = an.take(i + 1);
        assert(t.drop_last() =~= an.take(i as int));
        assert(t.last() == a@[i as int] as nat);
        if a[i] == p {
            let d = decimal_string(i);
            let ghost before = views(out@);
            out.push(d);
            assert(views(out@) =~= before + seq![decimal(i as nat)]);
        } else {
            assert(views(out@) =~= views(out@) + Seq::<Seq<char>>::empty());
        }
        i += 1;
    }
    assert(an.take(i as int) =~= an);
    out
}

proof fn lemma_members_nonempty(a: Seq<nat>, p: nat, i: int)
    requires
        0 <= i < a.len(),
        a[i] == p,
    ensures
        members(a, p).len() > 0,
    decreases a.len(),
{
    if i < a.len() - 1 {
        lemma_members_nonempty(a.drop_last(), p, i);
    }
}

/// What holds while partitions are gathered in increasing order of
/// number, `lower` being the last number gathered.
#[verifier::opaque]
pub open spec fn gathering(an: Seq<nat>, gs: Seq<PartitionGroup>, lower: Option<usize>) -> bool {
    &&& forall|j: int, k: int| 0 <= j < k < gs.len() ==> #[trigger] gs[j].partition_id < #[trigger] gs[k].partition_id
    &&& forall|j: int| 0 <= j < gs.len() ==> members(an, (#[trigger] gs[j]).partition_id as nat).len() > 0
    &&& forall|j: int| 0 <= j < gs.len() ==> views((#[trigger] gs[j]).node_ids@) == members(an, gs[j].partition_id as nat)
        && gs[j].node_count == gs[j].node_ids.len()
    &&& (lower is None <==> gs.len() == 0)
    &&& (lower matches Some(l) ==> gs[gs.len() - 1].partition_id == l)
    &&& forall|i: int| #![trigger an[i]] 0 <= i < an.len() && !above(lower, an[i]) ==> exists|j: int|
        0 <= j < gs.len() && (#[trigger] gs[j]).partition_id == an[i]
}

proof fn lemma_gathering_start(an: Seq<nat>)
    ensures
        gathering(an, Seq::empty(), None),
{
    reveal(gathering);
}

proof fn lemma_gathering_step(a: Seq<usize>, an: Seq<nat>, gs: Seq<PartitionGroup>, lower: Option<usize>, g: PartitionGroup)
    requires
        an == a.map_values(|x: usize| x as nat),
        gathering(an, gs, lower),
        above(lower, g.partition_id as nat),
        exists|i: int| 0 <= i < a.len() && a[i] == g.partition_id,
        forall|i: int| 0 <= i < a.len() && above(lower, a[i] as nat) ==> g.partition_id <= a[i],
        views(g.node_ids@) == members(an, g.partition_id as nat),
        g.node_count == g.node_ids.len(),
    ensures
        gathering(an, gs.push(g), Some(g.partition_id)),
{
    reveal(gathering);
    let ng = gs.push(g);
    let m = g.partition_id;
    assert forall|j: int, k: int| 0 <= j < k < ng.len() implies #[trigger] ng[j].partition_id < #[trigger] ng[k].partition_id by {
        assert(ng[j] == gs[j]);
        if k < gs.len() {
            assert(ng[k] == gs[k]);
        } else if j < gs.len() - 1 {
            assert(gs[j].partition_id < gs[gs.len() - 1].partition_id);
        }
    }
    assert forall|j: int| 0 <= j < ng.len() implies members(an, (#[trigger] ng[j]).partition_id as nat).len() > 0 by {
        if j < gs.len() {
            assert(ng[j] == gs[j]);
        } else {
            let i = choose|i: int| 0 <= i < a.len() && a[i] == g.partition_id;
            assert(an[i] == a[i] as nat);
            lemma_members_nonempty(an, g.partition_id as nat, i);
        }
    }
    assert forall|j: int| 0 <= j < ng.len() implies views((#[trigger] ng[j]).node_ids@) == members(an, ng[j].partition_id as nat)
        && ng[j].node_count == ng[j].node_ids.len() by {
        if j < gs.len() {
            assert(ng[j] == gs[j]);
        }
    }
    assert forall|i: int| #![trigger an[i]] 0 <= i < an.len() && !above(Some(m), an[i]) implies exists|j: int|
        0 <= j < ng.len() && (#[trigger] ng[j]).partition_id == an[i] by {
        assert(an[i] == a[i] as nat);
        if !above(lower, an[i]) {
            let j = choose|j: int| 0 <= j < gs.len() && (#[trigger] gs[j]).partition_id == an[i];
            assert(ng[j] == gs[j]);
        } else {
            assert(m <= a[i]);
            assert(ng[ng.len() - 1].partition_id == an[i]);
        }
    }
}

proof fn lemma_gathering_done(a: Seq<usize>, an: Seq<nat>, gs: Seq<PartitionGroup>, lower: Option<usize>)
    requires
        an == a.map_values(|x: usize| x as nat),
        gathering(an, gs, lower),
        forall|i: int| 0 <= i < a.len() ==> !above(lower, a[i] as nat),
    ensures
        partitions_of(an, gs),
{
    reveal(gathering);
    assert forall|i: int| #![trigger an[i]] 0 <= i < an.len() implies exists|j: int| 0 <= j < gs.len() && (#[trigger] gs[j]).partition_id == an[i] by {
        assert(an[i] == a[i] as nat);
        assert(!above(lower, a[i] as nat));
    }
    assert(forall|j: int, k: int| 0 <= j < k < gs.len() ==> #[trigger] gs[j].partition_id < #[trigger] gs[k].partition_id);
    assert(forall|j: int| 0 <= j < gs.len() ==> views((#[trigger] gs[j]).node_ids@) == members(an, gs[j].partition_id as nat)
        && gs[j].node_count == gs[j].node_ids.len());
}

/// The partitions of an assignment of nodes to partitions, in increasing
/// order of number (`partitions_of`).
pub fn group_assignment(a: &Vec<usize>) -> (r: Vec<PartitionGroup>)
    ensures
        partitions_of(a@.map_values(|x: usize| x as nat), r@),
{
    let ghost an = a@.map_values(|x: usize| x as nat);
    let mut gs: Vec<PartitionGroup> = Vec::new();
    let mut lower: Option<usize> = None;
    proof {
        lemma_gathering_start(an);
    }
    loop
        invariant
            an == a@.map_values(|x: usize| x as nat),
            gathering(an, gs@, lower),
        ensures
            gathering(an, gs@, lower),
            forall|i: int| 0 <= i < a.len() ==> !above(lower, a@[i] as nat),
        decreases (match lower {
            Some(l) => usize::MAX - l,
            None => usize::MAX + 1,
        }),
    {
        match least_above(a, lower) {
            None => {
                break;
            },
            Some(m) => {
                let ids = members_of(a, m);
                let n = ids.len();
                let g = PartitionGroup { partition_id: m, node_ids: ids, node_count: n };
                proof {
                    lemma_gathering_step(a@, an, gs@, lower, g);
                }
                gs.push(g);
                lower = Some(m);
            },
        }
    }
    proof {
        lemma_gathering_done(a@, an, gs@, lower);
    }
    gs
}

/// The partitions read back from a tool's assignment, one line per node
/// (`partitions_of` the lines' numbers), or the index of the first line
/// that is not a number.
pub fn import_partitions(content: &str) -> (r: Result<Vec<PartitionGroup>, usize>)
    ensures
        r matches Err(i) ==> 0 <= i < lines(content@).len() && line_value(lines(content@)[i as int]) is None
            && forall|k: int| 0 <= k < i ==> line_value(#[trigger] lines(content@)[k]) is Some,
        r matches Ok(gs) ==> (forall|k: int| 0 <= k < lines(content@).len() ==> line_value(#[trigger] lines(content@)[k]) is Some)
            && partitions_of(assignment(lines(content@)), gs@),
{
    let ls = split_lines(content);
    let ghost lv = lines(content@);
    assert(views(ls@) == lv) by {
        assert(views(ls@) =~= ls@.map_values(|l: String| l@));
    }
    let mut a: Vec<usize> = Vec::new();
    let mut i: usize = 0;
    while i < ls.len()
        invariant
            i <= ls.len(),
            views(ls@) == lv,
            lv == lines(content@),
            a.len() == i,
            forall|k: int| 0 <= k < i ==> line_value(#[trigger] lv[k]) == Some(a@[k] as nat),
        decreases ls.len() - i,
    {
        assert(lv[i as int] == ls@[i as int]@);
        let t = trimmed(ls[i].as_str());
        match parse_usize(t.as_str()) {
            Some(n) => {
                a.push(n);
            },
            None => {
                assert(lv.len() == ls.len());
                assert(line_value(lv[i as int]) is None);
                assert(forall|k: int| 0 <= k < i ==> line_value(#[trigger] lv[k]) is Some);
                assert(0 <= i < lv.len());
                return Err(i);
            },
        }
        i += 1;
    }
    let ghost an = a@.map_values(|x: usize| x as nat);
    assert(an =~= assignment(lv)) by {
        assert forall|k: int| 0 <= k < lv.len() implies #[trigger] an[k] == assignment(lv)[k] by {
            assert(line_value(lv[k]) == Some(a@[k] as nat));
        }
    }
    Ok(group_assignment(&a))
}

// ───────────────────────────── edges across partitions ─────────────────

/// The partition holding the node `id`: the last partition, in order,
/// that lists it.
pub open spec fn partition_of(gs: Seq<PartitionGroup>, id: Seq<char>) -> Option<nat>
    decreases gs.len(),
{
    if gs.len() == 0 {
        None
    } else if views(gs.last().node_ids@).contains(id) {
        Some(gs.last().partition_id as nat)
    } else {
        partition_of(gs.drop_last(), id)
    }
}

/// Whether an edge lies inside partition `p` (`Some(true)`), leaves or
/// enters it (`Some(false)`), or neither (`None`); only edges whose two
/// ends lie in partitions count.
pub open spec fn edge_class(gs: Seq<PartitionGroup>, e: (Seq<char>, Seq<char>), p: nat) -> Option<bool> {
    match (partition_of(gs, e.0), partition_of(gs, e.1)) {
        (Some(f), Some(t)) => if f == t && f == p {
            Some(true)
        } else if f == p || t == p {
            Some(false)
        } else {
            None
        },
        _ => None,
    }
}

/// How many edges lie inside partition `p`, and how many cross its
/// border.
pub open spec fn edge_counts(gs: Seq<PartitionGroup>, es: Seq<(Seq<char>, Seq<char>)>, p: nat) -> (nat, nat)
    decreases es.len(),
{
    if es.len() == 0 {
        (0, 0)
    } else {
        let c = edge_counts(gs, es.drop_last(), p);
        match edge_class(gs, es.last(), p) {
            Some(true) => ((c.0 + 1) as nat, c.1),
            Some(false) => (c.0, (c.1 + 1) as nat),
            None => c,
        }
    }
}

proof fn lemma_edge_counts_bound(gs: Seq<PartitionGroup>, es: Seq<(Seq<char>, Seq<char>)>, p: nat)
    ensures
        edge_counts(gs, es, p).0 + edge_counts(gs, es, p).1 <= es.len(),
    decreases es.len(),
{
    if es.len() > 0 {
        lemma_edge_counts_bound(gs, es.drop_last(), p);
    }
}

fn list_has(v: &Vec<String>, s: &str) -> (r: bool)
    ensures
        r == views(v@).contains(s@),
{
    let mut i: usize = 0;
    while i < v.len()
        invariant
            i <= v.len(),
            forall|k: int| 0 <= k < i ==> v@[k]@ != s@,
        decreases v.len() - i,
    {
        if str_eq(v[i].as_str(), s) {
            assert(views(v@)[i as int] == s@);
            return true;
        }
        i += 1;
    }
    assert forall|k: int| 0 <= k < views(v@).len() implies views(v@)[k] != s@ by {
        assert(views(v@)[k] == v@[k]@);
    }
    false
}

/// The partition holding a node (`partition_of`).
fn partition_of_node(gs: &Vec<PartitionGroup>, id: &str) -> (r: Option<usize>)
    ensures
        r matches Some(p) ==> partition_of(gs@, id@) == Some(p as nat),
        r is None ==> partition_of(gs@, id@) is None,
{
    let mut k: usize = gs.len();
    assert(gs@.take(k as int) =~= gs@);
    while k > 0
        invariant
            k <= gs.len(),
            partition_of(gs@, id@) == partition_of(gs@.take(k as int), id@),
        decreases k,
    {
        let ghost t = gs@.take(k as int);
        assert(t.drop_last() =~= gs@.take(k - 1));
        assert(t.last() == gs@[k - 1]);
        if list_has(&gs[k - 1].node_ids, id) {
            return Some(gs[k - 1].partition_id);
        }
        k -= 1;
    }
    assert(gs@.take(0) =~= Seq::<PartitionGroup>::empty());
    None
}

/// For each partition, in order, how many edges lie inside it and how
/// many cross its border (`edge_counts`).
pub fn partition_edge_counts(gs: &Vec<PartitionGroup>, edges: &Vec<DependencyEdge>) -> (r: Vec<(usize, usize)>)
    ensures
        r.len() == gs.len(),
        forall|j: int| 0 <= j < gs.len() ==> (#[trigger] r@[j]).0 == edge_counts(gs@, edge_ends(edges@), gs@[j].partition_id as nat).0
            && r@[j].1 == edge_counts(gs@, edge_ends(edges@), gs@[j].partition_id as nat).1,
{
    let ghost es = edge_ends(edges@);
    let mut r: Vec<(usize, usize)> = Vec::new();
    let mut j: usize = 0;
    while j < gs.len()
        invariant
            j <= gs.len(),
            es == edge_ends(edges@),
            r.len() == j,
            forall|q: int| 0 <= q < j ==> (#[trigger] r@[q]).0 == edge_counts(gs@, es, gs@[q].partition_id as nat).0
                && r@[q].1 == edge_counts(gs@, es, gs@[q].partition_id as nat).1,
        decreases gs.len() - j,
    {
        let p = gs[j].partition_id;
        let ghost pn = p as nat;
        let mut inside: usize = 0;
        let mut across: usize = 0;
        let mut i: usize = 0;
        while i < edges.len()
            invariant
                i <= edges.len(),
                es == edge_ends(edges@),
                pn == p as nat,
                inside == edge_counts(gs@, es.take(i as int), pn).0,
                across == edge_counts(gs@, es.take(i as int), pn).1,
            decreases edges.len() - i,
        {
            let ghost t = es.take(i + 1);
            assert(t.drop_last() =~= es.take(i as int));
            assert(t.last() == (edges@[i as int].from@, edges@[i as int].to@));
            proof {
                lemma_edge_counts_bound(gs@, es.take(i as int), pn);
            }
            let f = partition_of_node(gs, edges[i].from.as_str());
            let t2 = partition_of_node(gs, edges[i].to.as_str());
            let ghost c = edge_counts(gs@, es.take(i as int), pn);
            assert(edge_counts(gs@, t, pn) == match edge_class(gs@, t.last(), pn) {
                Some(true) => ((c.0 + 1) as nat, c.1),
                Some(false) => (c.0, (c.1 + 1) as nat),
                None => c,
            });
            assert(t.last().0 == edges@[i as int].from@);
            assert(t.last().1 == edges@[i as int].to@);
            if let (Some(fp), Some(tp)) = (f, t2) {
                assert(partition_of(gs@, t.last().0) == Some(fp as nat));
                assert(partition_of(gs@, t.last().1) == Some(tp as nat));
                if fp == tp && fp == p {
                    assert(edge_class(gs@, t.last(), pn) == Some(true));
                    inside += 1;
                } else if fp == p || tp == p {
                    assert(edge_class(gs@, t.last(), pn) == Some(false));
                    across += 1;
                } else {
                    assert(edge_class(gs@, t.last(), pn) is None);
                }
            } else {
                assert(edge_class(gs@, t.last(), pn) is None);
            }
            i += 1;
        }
        assert(es.take(i as int) =~= es);
        r.push((inside, across));
        j += 1;
    }
    r
}

// ───────────────────────────── a partition's picture ───────────────────

/// How an edge of a partition's picture is labelled.
pub open spec fn edge_type_label(t: DependencyEdgeType) -> Seq<char> {
    match t {
        DependencyEdgeType::Direct => "Direct"@,
        DependencyEdgeType::Transitive => "Transitive"@,
        DependencyEdgeType::Dev => "Dev"@,
        DependencyEdgeType::Build => "Build"@,
        DependencyEdgeType::FeatureGated => "Feature"@,
        _ => "Other"@,
    }
}

fn edge_type_text(t: DependencyEdgeType) -> (r: &'static str)
    ensures
        r@ == edge_type_label(t),
{
    match t {
        DependencyEdgeType::Direct => "Direct",
        DependencyEdgeType::Transitive => "Transitive",
        DependencyEdgeType::Dev => "Dev",
        DependencyEdgeType::Build => "Build",
        DependencyEdgeType::FeatureGated => "Feature",
        _ => "Other",
    }
}

/// The head of a partition's picture.
pub open spec fn partition_dot_head(id: nat) -> Seq<char> {
    "digraph Partition_"@ + decimal(id) + " {\n    rankdir=LR;\n    label=\"Partition "@ + decimal(id) + " \";\n"@
        + decimal(id)
        + "\";\n    labelloc=top;\n    labeljust=center;\n    node [shape=box, style=filled, fillcolor=lightblue];\n    edge [color=gray];\n\n"@
}

/// The nodes of the graph that a partition lists (by id, each id taken at
/// its last node), in the partition's order.
pub open spec fn partition_nodes(ids: Seq<Seq<char>>, members: Seq<Seq<char>>) -> Seq<int>
    decreases members.len(),
{
    if members.len() == 0 {
        Seq::empty()
    } else {
        match last_index(ids, members.last()) {
            Some(i) => partition_nodes(ids, members.drop_last()).push(i),
            None => partition_nodes(ids, members.drop_last()),
        }
    }
}

/// The node lines of a partition's picture.
pub open spec fn node_lines(nodes: Seq<DependencyNode>, idx: Seq<int>) -> Seq<char>
    decreases idx.len(),
{
    if idx.len() == 0 {
        Seq::empty()
    } else {
        node_lines(nodes, idx.drop_last()) + "    node_"@ + decimal(idx.last() as nat) + " [label=\""@
            + nodes[idx.last()].crate_name@ + "\\nv"@ + nodes[idx.last()].version@ + "\"];\n"@
    }
}

/// The edge lines of a partition's picture: the edges whose two ends are
/// among its nodes.
pub open spec fn inner_edge_lines(ids: Seq<Seq<char>>, edges: Seq<DependencyEdge>, inside: Seq<int>) -> Seq<char>
    decreases edges.len(),
{
    if edges.len() == 0 {
        Seq::empty()
    } else {
        let e = edges.last();
        inner_edge_lines(ids, edges.drop_last(), inside) + match (last_index(ids, e.from@), last_index(ids, e.to@)) {
            (Some(f), Some(t)) => if inside.contains(f) && inside.contains(t) {
                "    node_"@ + decimal(f as nat) + " -> node_"@ + decimal(t as nat) + " [label=\""@
                    + edge_type_label(e.edge_type) + "\"];\n"@
            } else {
                Seq::empty()
            },
            _ => Seq::empty(),
        }
    }
}

/// The picture of a partition up to its measures: the head, a line per
/// listed node of the graph, and a line per edge between them.
pub open spec fn partition_dot(nodes: Seq<DependencyNode>, edges: Seq<DependencyEdge>, g: PartitionGroup) -> Seq<char> {
    let inside = partition_nodes(node_ids(nodes), views(g.node_ids@));
    partition_dot_head(g.partition_id as nat) + node_lines(nodes, inside) + inner_edge_lines(node_ids(nodes), edges, inside)
}

proof fn lemma_last_index_in(ids: Seq<Seq<char>>, id: Seq<char>)
    ensures
        last_index(ids, id) matches Some(i) ==> 0 <= i < ids.len(),
    decreases ids.len(),
{
    if ids.len() > 0 && ids.last() != id {
        lemma_last_index_in(ids.drop_last(), id);
    }
}

fn index_listed(v: &Vec<usize>, x: usize) -> (r: bool)
    ensures
        r == v@.map_values(|i: usize| i as int).contains(x as int),
{
    let ghost m = v@.map_values(|i: usize| i as int);
    let mut i: usize = 0;
    while i < v.len()
        invariant
            i <= v.len(),
            m == v@.map_values(|i: usize| i as int),
            forall|k: int| 0 <= k < i ==> m[k] != x as int,
        decreases v.len() - i,
    {
        if v[i] == x {
            assert(m[i as int] == x as int);
            return true;
        }
        i += 1;
    }
    false
}

/// The picture of a partition up to its measures (`partition_dot`).
pub fn partition_dot_text(graph: &GlobalDependencyGraph, g: &PartitionGroup) -> (r: String)
    ensures
        r@ == partition_dot(graph.nodes@, graph.edges@, *g),
{
    let ghost ids = node_ids(graph.nodes@);
    let ghost members = views(g.node_ids@);
    let id = decimal_string(g.partition_id);
    let a = "digraph Partition_";
    let b = " {\n    rankdir=LR;\n    label=\"Partition ";
    let c = " \";\n";
    let d = "\";\n    labelloc=top;\n    labeljust=center;\n    node [shape=box, style=filled, fillcolor=lightblue];\n    edge [color=gray];\n\n";
    let n1 = "    node_";
    let n2 = " [label=\"";
    let n3 = "\\nv";
    let n4 = "\"];\n";
    let e2 = " -> node_";
    proof {
        reveal_strlit("digraph Partition_");
        reveal_strlit(" {\n    rankdir=LR;\n    label=\"Partition ");
        reveal_strlit(" \";\n");
        reveal_strlit("\";\n    labelloc=top;\n    labeljust=center;\n    node [shape=box, style=filled, fillcolor=lightblue];\n    edge [color=gray];\n\n");
        reveal_strlit("    node_");
        reveal_strlit(" [label=\"");
        reveal_strlit("\\nv");
        reveal_strlit("\"];\n");
        reveal_strlit(" -> node_");
    }
    let mut out = String::new();
    push_str(&mut out, a);
    push_str(&mut out, id.as_str());
    push_str(&mut out, b);
    push_str(&mut out, id.as_str());
    push_str(&mut out, c);
    push_str(&mut out, id.as_str());
    push_str(&mut out, d);
    let ghost head = out@;
    assert(head =~= partition_dot_head(g.partition_id as nat));
    let mut inside: Vec<usize> = Vec::new();
    let mut i: usize = 0;
    while i < g.node_ids.len()
        invariant
            i <= g.node_ids.len(),
            ids == node_ids(graph.nodes@),
            members == views(g.node_ids@),
            n1@ == "    node_"@,
            n2@ == " [label=\""@,
            n3@ == "\\nv"@,
            n4@ == "\"];\n"@,
            inside@.map_values(|x: usize| x as int) == partition_nodes(ids, members.take(i as int)),
            out@ == head + node_lines(graph.nodes@, partition_nodes(ids, members.take(i as int))),
        decreases g.node_ids.len() - i,
    {
        assert(members.take(i + 1).drop_last() =~= members.take(i as int));
        assert(members.take(i + 1).last() == g.node_ids@[i as int]@);
        match last_node_index(&graph.nodes, g.node_ids[i].as_str()) {
            Some(k) => {
                proof {
                    lemma_last_index_in(ids, g.node_ids@[i as int]@);
                }
                let ghost before = inside@.map_values(|x: usize| x as int);
                inside.push(k);
                assert(inside@.map_values(|x: usize| x as int) =~= before.push(k as int));
                let node = &graph.nodes[k];
                let num = decimal_string(k);
                push_str(&mut out, n1);
                push_str(&mut out, num.as_str());
                push_str(&mut out, n2);
                push_str(&mut out, node.crate_name.as_str());
                push_str(&mut out, n3);
                push_str(&mut out, node.version.as_str());
                push_str(&mut out, n4);
                let ghost idx = partition_nodes(ids, members.take(i + 1));
                assert(idx.drop_last() =~= partition_nodes(ids, members.take(i as int)));
                assert(idx.last() == k as int);
                assert(out@ =~= head + node_lines(graph.nodes@, idx));
            },
            None => {},
        }
        i += 1;
    }
    assert(members.take(i as int) =~= members);
    let ghost inside_v = partition_nodes(ids, members);
    let ghost mid = out@;
    let mut j: usize = 0;
    while j < graph.edges.len()
        invariant
            j <= graph.edges.len(),
            ids == node_ids(graph.nodes@),
            inside@.map_values(|x: usize| x as int) == inside_v,
            n1@ == "    node_"@,
            n2@ == " [label=\""@,
            n4@ == "\"];\n"@,
            e2@ == " -> node_"@,
            out@ == mid + inner_edge_lines(ids, graph.edges@.take(j as int), inside_v),
        decreases graph.edges.len() - j,
    {
        let e = &graph.edges[j];
        assert(graph.edges@.take(j + 1).drop_last() =~= graph.edges@.take(j as int));
        assert(graph.edges@.take(j + 1).last() == *e);
        let f = last_node_index(&graph.nodes, e.from.as_str());
        let t = last_node_index(&graph.nodes, e.to.as_str());
        if let (Some(fi), Some(ti)) = (f, t) {
            if index_listed(&inside, fi) && index_listed(&inside, ti) {
                let a1 = decimal_string(fi);
                let b1 = decimal_string(ti);
                push_str(&mut out, n1);
                push_str(&mut out, a1.as_str());
                push_str(&mut out, e2);
                push_str(&mut out, b1.as_str());
                push_str(&mut out, n2);
                push_str(&mut out, edge_type_text(e.edge_type));
                push_str(&mut out, n4);
            }
        }
        assert(out@ =~= mid + inner_edge_lines(ids, graph.edges@.take(j + 1), inside_v));
        j += 1;
    }
    assert(graph.edges@.take(j as int) =~= graph.edges@);
    out
}

} // verus!
