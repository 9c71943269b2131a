//! The critical path: the chain of packages, each needed by the next, whose
//! compile times add up to the most.
//!
//! A package must finish before the packages that depend on it can start,
//! so a chain runs from a dependency to one of its dependents, and on to one
//! of theirs. The cost of a package is its own compile time plus the largest
//! cost among its dependents; the critical path starts at the package of
//! largest cost and moves, at each step, to the dependent of largest cost.
//!
//! Costs are settled in rounds: round `k` knows the cost of every chain of
//! at most `k` packages, and the rounds end when one changes nothing, or
//! after as many as there are nodes. In a graph without cycles no chain is
//! longer than the number of nodes, so the last round holds the cost of
//! every chain. A graph with a cycle is handled like any other: the rounds
//! end all the same, and the path is cut at as many packages as there are
//! nodes.

use crate::model::{edge_views, id_texts, node_views, BuildGraph, CrateId, GraphView};
use vstd::prelude::*;

verus! {

/// The compile time of the package `id` in nanoseconds; zero where the
/// package has none, or is no node.
pub open spec fn duration_of(g: GraphView, id: Seq<char>) -> int {
    match g.index_of(id) {
        Some(i) => match g.nodes[i].duration {
            Some(d) => d as int,
            None => 0,
        },
        None => 0,
    }
}

/// The largest total compile time of a chain of at most `k` packages that
/// starts at `id` and moves from a package to one that depends on it.
pub open spec fn reach_cost(g: GraphView, id: Seq<char>, k: nat) -> int
    decreases k, 0nat,
{
    if k == 0 {
        0
    } else {
        duration_of(g, id) + best_dependent_cost(g, id, (k - 1) as nat, g.edges.len())
    }
}

/// The largest `reach_cost` at `k` among the dependents of `id` that the
/// first `upto` edges name; zero where there is none.
pub open spec fn best_dependent_cost(g: GraphView, id: Seq<char>, k: nat, upto: nat) -> int
    decreases k, upto,
{
    if upto == 0 || upto > g.edges.len() {
        0
    } else {
        let rest = best_dependent_cost(g, id, k, (upto - 1) as nat);
        let e = g.edges[upto - 1];
        if e.to == id && reach_cost(g, e.from, k) > rest {
            reach_cost(g, e.from, k)
        } else {
            rest
        }
    }
}

/// The dependent of `id` that the first `upto` edges name and whose
/// `reach_cost` at `k` is largest and above zero: of several, the one that
/// the earliest edge names.
pub open spec fn best_dependent(g: GraphView, id: Seq<char>, k: nat, upto: nat) -> Option<
    Seq<char>,
>
    decreases upto,
{
    if upto == 0 || upto > g.edges.len() {
        None
    } else {
        let e = g.edges[upto - 1];
        if e.to == id && reach_cost(g, e.from, k) > best_dependent_cost(
            g,
            id,
            k,
            (upto - 1) as nat,
        ) {
            Some(e.from)
        } else {
            best_dependent(g, id, k, (upto - 1) as nat)
        }
    }
}

/// The cost of the package `id`: its compile time plus the largest cost
/// among the packages that depend on it.
pub open spec fn cost(g: GraphView, id: Seq<char>) -> int {
    reach_cost(g, id, g.nodes.len())
}

/// The package that follows `id` on a critical path: the dependent of
/// largest cost, if that cost is above zero.
pub open spec fn next_on_path(g: GraphView, id: Seq<char>) -> Option<Seq<char>> {
    best_dependent(g, id, g.nodes.len(), g.edges.len())
}

/// The position of the node of largest cost among the first `upto` nodes:
/// of several, the first.
pub open spec fn heaviest(g: GraphView, upto: nat) -> int
    decreases upto,
{
    if upto <= 1 || upto > g.nodes.len() {
        0
    } else {
        let h = heaviest(g, (upto - 1) as nat);
        if cost(g, g.nodes[upto - 1].id) > cost(g, g.nodes[h].id) {
            upto - 1
        } else {
            h
        }
    }
}

/// The chain that starts at `id` and follows `next_on_path`, cut after
/// `steps` packages.
pub open spec fn walk(g: GraphView, id: Seq<char>, steps: nat) -> Seq<Seq<char>>
    decreases steps,
{
    if steps == 0 {
        Seq::empty()
    } else {
        match next_on_path(g, id) {
            Some(d) => seq![id] + walk(g, d, (steps - 1) as nat),
            None => seq![id],
        }
    }
}

/// The critical path of `g`: empty for a graph without nodes; else the
/// chain from the node of largest cost.
pub open spec fn critical_path_of(g: GraphView) -> Seq<Seq<char>> {
    if g.nodes.len() == 0 {
        Seq::empty()
    } else {
        walk(g, g.nodes[heaviest(g, g.nodes.len())].id, g.nodes.len())
    }
}

/// In a graph with unique identifiers, a node is found at its own position.
pub proof fn lemma_index_of_node(g: GraphView, v: int)
    requires
        g.ids_unique(),
        0 <= v < g.nodes.len(),
    ensures
        g.index_of(g.nodes[v].id) == Some(v),
{
}

/// Costs are never negative, and a chain of at most `k` packages costs at
/// most `k` times the longest span.
pub proof fn lemma_reach_cost_bounds(g: GraphView, id: Seq<char>, k: nat)
    ensures
        0 <= reach_cost(g, id, k) <= k * u64::MAX,
    decreases k, 0nat,
{
    if k > 0 {
        lemma_best_dependent_cost_bounds(g, id, (k - 1) as nat, g.edges.len());
        assert((k - 1) * u64::MAX + u64::MAX == k * u64::MAX) by (nonlinear_arith);
    }
}

/// The largest cost among dependents lies within the bounds of a cost.
pub proof fn lemma_best_dependent_cost_bounds(g: GraphView, id: Seq<char>, k: nat, upto: nat)
    ensures
        0 <= best_dependent_cost(g, id, k, upto) <= k * u64::MAX,
    decreases k, upto,
{
    if upto == 0 || upto > g.edges.len() {
        assert(0 <= k * u64::MAX) by (nonlinear_arith);
    } else {
        lemma_best_dependent_cost_bounds(g, id, k, (upto - 1) as nat);
        lemma_reach_cost_bounds(g, g.edges[upto - 1].from, k);
    }
}

/// Whether a further round changes the cost of no node: the costs of
/// round `k` are settled.
pub open spec fn settled(g: GraphView, k: nat) -> bool {
    forall|v: int|
        0 <= v < g.nodes.len() ==> reach_cost(g, #[trigger] g.nodes[v].id, k) == reach_cost(
            g,
            g.nodes[v].id,
            k + 1,
        )
}

/// Where the costs of nodes are settled, so is the largest cost among the
/// dependents of a package.
proof fn lemma_settled_dependents(g: GraphView, id: Seq<char>, k: nat, upto: nat)
    requires
        g.well_formed(),
        settled(g, k),
    ensures
        best_dependent_cost(g, id, k, upto) == best_dependent_cost(g, id, k + 1, upto),
    decreases upto,
{
    if upto > 0 && upto <= g.edges.len() {
        lemma_settled_dependents(g, id, k, (upto - 1) as nat);
        let from = g.edges[upto - 1].from;
        assert(g.has_node(from));
        let v = choose|v: int| 0 <= v < g.nodes.len() && g.nodes[v].id == from;
        assert(reach_cost(g, g.nodes[v].id, k) == reach_cost(g, g.nodes[v].id, k + 1));
    }
}

/// Costs that are settled in one round stay settled: in every later round
/// they are what they were.
pub proof fn lemma_settled_stays(g: GraphView, k: nat, later: nat)
    requires
        g.well_formed(),
        settled(g, k),
        k <= later,
    ensures
        settled(g, later),
        forall|v: int|
            0 <= v < g.nodes.len() ==> reach_cost(g, #[trigger] g.nodes[v].id, later)
                == reach_cost(g, g.nodes[v].id, k),
    decreases later - k,
{
    if later > k {
        let before = (later - 1) as nat;
        lemma_settled_stays(g, k, before);
        assert forall|v: int| 0 <= v < g.nodes.len() implies reach_cost(
            g,
            #[trigger] g.nodes[v].id,
            later,
        ) == reach_cost(g, g.nodes[v].id, later + 1) by {
            lemma_settled_dependents(g, g.nodes[v].id, before, g.edges.len());
        }
    }
}

/// Whether `froms` and `tos` hold, for each edge, the positions of the nodes
/// at its two ends.
spec fn resolved(g: GraphView, froms: Seq<usize>, tos: Seq<usize>) -> bool {
    &&& froms.len() == g.edges.len()
    &&& tos.len() == g.edges.len()
    &&& forall|e: int|
        0 <= e < g.edges.len() ==> (#[trigger] froms[e]) < g.nodes.len() && g.nodes[froms[e] as int].id
            == g.edges[e].from
    &&& forall|e: int|
        0 <= e < g.edges.len() ==> (#[trigger] tos[e]) < g.nodes.len() && g.nodes[tos[e] as int].id
            == g.edges[e].to
}

/// The identifier of the node at an optional position.
spec fn named(g: GraphView, at: Option<usize>) -> Option<Seq<char>> {
    match at {
        Some(d) => Some(g.nodes[d as int].id),
        None => None,
    }
}

/// The positions of the two ends of every edge.
fn resolve_edges(graph: &BuildGraph) -> (r: (Vec<usize>, Vec<usize>))
    ensures
        resolved(graph@, r.0@, r.1@),
{
    let edges = graph.edges();
    let mut froms: Vec<usize> = Vec::new();
    let mut tos: Vec<usize> = Vec::new();
    let mut e: usize = 0;
    while e < edges.len()
        invariant
            graph@.well_formed(),
            edge_views(edges@) == graph@.edges,
            e <= edges.len(),
            froms.len() == e,
            tos.len() == e,
            forall|i: int|
                0 <= i < e ==> (#[trigger] froms[i]) < graph@.nodes.len()
                    && graph@.nodes[froms[i] as int].id == graph@.edges[i].from,
            forall|i: int|
                0 <= i < e ==> (#[trigger] tos[i]) < graph@.nodes.len()
                    && graph@.nodes[tos[i] as int].id == graph@.edges[i].to,
        decreases edges.len() - e,
    {
        assert(graph@.edges[e as int] == edges@[e as int]@);
        assert(graph@.has_node(graph@.edges[e as int].from));
        assert(graph@.has_node(graph@.edges[e as int].to));
        let f: usize = match graph.find(&edges[e].from) {
            Some(i) => i,
            None => 0,
        };
        let t: usize = match graph.find(&edges[e].to) {
            Some(i) => i,
            None => 0,
        };
        froms.push(f);
        tos.push(t);
        e += 1;
    }
    assert(edges@.len() == graph@.edges.len());
    (froms, tos)
}

/// The compile time of every node, in nanoseconds.
fn node_durations(graph: &BuildGraph) -> (r: Vec<u64>)
    ensures
        r.len() == graph@.nodes.len(),
        forall|v: int|
            0 <= v < r.len() ==> (#[trigger] r[v]) as int == duration_of(
                graph@,
                graph@.nodes[v].id,
            ),
{
    let nodes = graph.nodes();
    let mut r: Vec<u64> = Vec::new();
    let mut v: usize = 0;
    assert(nodes@.len() == graph@.nodes.len());
    while v < nodes.len()
        invariant
            graph@.well_formed(),
            node_views(nodes@) == graph@.nodes,
            v <= nodes.len(),
            r.len() == v,
            forall|i: int|
                0 <= i < v ==> (#[trigger] r[i]) as int == duration_of(
                    graph@,
                    graph@.nodes[i].id,
                ),
        decreases nodes.len() - v,
    {
        proof {
            lemma_index_of_node(graph@, v as int);
            assert(graph@.nodes[v as int] == nodes@[v as int]@);
        }
        let d: u64 = match nodes[v].duration_ms {
            Some(m) => m.as_nanos(),
            None => 0,
        };
        r.push(d);
        v += 1;
    }
    r
}

/// Whether two lists of costs are the same.
fn same_costs(a: &Vec<u128>, b: &Vec<u128>) -> (r: bool)
    requires
        a.len() == b.len(),
    ensures
        r == (a@ == b@),
{
    let mut i: usize = 0;
    while i < a.len()
        invariant
            a.len() == b.len(),
            i <= a.len(),
            forall|j: int| 0 <= j < i ==> a@[j] == b@[j],
        decreases a.len() - i,
    {
        if a[i] != b[i] {
            return false;
        }
        i += 1;
    }
    assert(a@ =~= b@);
    true
}

/// One pass over the edges: for every node, the largest of `prev` among
/// its dependents, and the position of the dependent that holds it.
fn relax(
    froms: &Vec<usize>,
    tos: &Vec<usize>,
    prev: &Vec<u128>,
    Ghost(g): Ghost<GraphView>,
    Ghost(k): Ghost<nat>,
) -> (r: (Vec<u128>, Vec<Option<usize>>))
    requires
        g.well_formed(),
        resolved(g, froms@, tos@),
        prev.len() == g.nodes.len(),
        forall|v: int|
            0 <= v < prev.len() ==> (#[trigger] prev[v]) as int == reach_cost(g, g.nodes[v].id, k),
    ensures
        r.0.len() == g.nodes.len(),
        r.1.len() == g.nodes.len(),
        forall|v: int|
            0 <= v < g.nodes.len() ==> (#[trigger] r.0[v]) as int == best_dependent_cost(
                g,
                g.nodes[v].id,
                k,
                g.edges.len(),
            ),
        forall|v: int|
            0 <= v < g.nodes.len() ==> match #[trigger] r.1[v] {
                Some(d) => d < g.nodes.len(),
                None => true,
            } && named(g, r.1[v]) == best_dependent(g, g.nodes[v].id, k, g.edges.len()),
{
    let n: usize = prev.len();
    let mut best: Vec<u128> = vec![0u128; n];
    let mut pick: Vec<Option<usize>> = vec![None; n];
    let mut e: usize = 0;
    while e < froms.len()
        invariant
            g.well_formed(),
            resolved(g, froms@, tos@),
            n == g.nodes.len(),
            prev.len() == n,
            forall|v: int|
                0 <= v < prev.len() ==> (#[trigger] prev[v]) as int == reach_cost(
                    g,
                    g.nodes[v].id,
                    k,
                ),
            e <= froms.len(),
            best.len() == n,
            pick.len() == n,
            forall|v: int|
                0 <= v < n ==> (#[trigger] best[v]) as int == best_dependent_cost(
                    g,
                    g.nodes[v].id,
                    k,
                    e as nat,
                ),
            forall|v: int|
                0 <= v < n ==> match #[trigger] pick[v] {
                    Some(d) => d < n,
                    None => true,
                } && named(g, pick[v]) == best_dependent(g, g.nodes[v].id, k, e as nat),
        decreases froms.len() - e,
    {
        let f: usize = froms[e];
        let t: usize = tos[e];
        let c: u128 = prev[f];
        let ghost old_best = best@;
        let ghost old_pick = pick@;
        if c > best[t] {
            best.set(t, c);
            pick.set(t, Some(f));
        }
        proof {
            assert(g.nodes[f as int].id == g.edges[e as int].from);
            assert(g.nodes[t as int].id == g.edges[e as int].to);
            assert forall|v: int| 0 <= v < n implies (#[trigger] best[v]) as int
                == best_dependent_cost(g, g.nodes[v].id, k, (e + 1) as nat) && match pick[v] {
                Some(d) => d < n,
                None => true,
            } && named(g, pick[v]) == best_dependent(g, g.nodes[v].id, k, (e + 1) as nat) by {
                assert(old_best[v] as int == best_dependent_cost(g, g.nodes[v].id, k, e as nat));
                assert(named(g, old_pick[v]) == best_dependent(g, g.nodes[v].id, k, e as nat));
                if v != t {
                    assert(g.nodes[v].id != g.edges[e as int].to);
                }
            }
        }
        e += 1;
    }
    (best, pick)
}

/// Computes the critical path of `graph` and stores it in the graph.
///
/// The path is [`critical_path_of`] the graph: it starts at the node of
/// largest [`cost`], the first of several in node order, and moves from each
/// package to the dependent of largest cost, the one named by the earliest
/// edge of several, until a package has no dependent of cost above zero. A
/// package without a compile time counts as zero. A graph without nodes has
/// an empty path; one without any compile time has the path of its first
/// node alone.
pub fn compute_critical_path(graph: &mut BuildGraph)
    ensures
        final(graph)@ == (GraphView {
            critical_path: critical_path_of(old(graph)@),
            ..old(graph)@
        }),
        final(graph)@.well_formed(),
{
    let ghost g = graph@;
    let n: usize = graph.nodes().len();
    assert(n == g.nodes.len());
    let resolved_edges = resolve_edges(graph);
    let froms = resolved_edges.0;
    let tos = resolved_edges.1;
    let durations = node_durations(graph);

    // Settle the costs: a round for every node at most, fewer if a round
    // changes nothing.
    let mut costs: Vec<u128> = vec![0u128; n];
    let mut round: usize = 0;
    let mut done: bool = false;
    while round < n && !done
        invariant
            g.well_formed(),
            resolved(g, froms@, tos@),
            n == g.nodes.len(),
            durations.len() == n,
            forall|v: int|
                0 <= v < n ==> (#[trigger] durations[v]) as int == duration_of(g, g.nodes[v].id),
            round <= n,
            costs.len() == n,
            forall|v: int|
                0 <= v < n ==> (#[trigger] costs[v]) as int == reach_cost(
                    g,
                    g.nodes[v].id,
                    if done {
                        n as nat
                    } else {
                        round as nat
                    },
                ),
        decreases n - round, if done { 0int } else { 1int },
    {
        let pass = relax(&froms, &tos, &costs, Ghost(g), Ghost(round as nat));
        let best = pass.0;
        let mut next: Vec<u128> = Vec::new();
        let mut v: usize = 0;
        while v < n
            invariant
                n == g.nodes.len(),
                round < n,
                durations.len() == n,
                best.len() == n,
                forall|i: int|
                    0 <= i < n ==> (#[trigger] durations[i]) as int == duration_of(
                        g,
                        g.nodes[i].id,
                    ),
                forall|i: int|
                    0 <= i < n ==> (#[trigger] best[i]) as int == best_dependent_cost(
                        g,
                        g.nodes[i].id,
                        round as nat,
                        g.edges.len(),
                    ),
                v <= n,
                next.len() == v,
                forall|i: int|
                    0 <= i < v ==> (#[trigger] next[i]) as int == reach_cost(
                        g,
                        g.nodes[i].id,
                        (round + 1) as nat,
                    ),
            decreases n - v,
        {
            proof {
                lemma_best_dependent_cost_bounds(g, g.nodes[v as int].id, round as nat, g.edges.len());
                assert(round * u64::MAX + u64::MAX <= u128::MAX) by (nonlinear_arith)
                    requires
                        0 <= round <= u64::MAX,
                ;
            }
            let d: u128 = durations[v] as u128;
            next.push(d + best[v]);
            v += 1;
        }
        if same_costs(&costs, &next) {
            proof {
                assert forall|v: int| 0 <= v < n implies reach_cost(
                    g,
                    #[trigger] g.nodes[v].id,
                    round as nat,
                ) == reach_cost(g, g.nodes[v].id, (round + 1) as nat) by {
                    assert(costs[v] == next[v]);
                }
                lemma_settled_stays(g, round as nat, n as nat);
            }
            done = true;
        } else {
            costs = next;
            round += 1;
        }
    }

    let pass = relax(&froms, &tos, &costs, Ghost(g), Ghost(n as nat));
    let successor = pass.1;

    let mut path: Vec<CrateId> = Vec::new();
    if n > 0 {
        // The node of largest cost, the first of several.
        let mut start: usize = 0;
        let mut v: usize = 1;
        while v < n
            invariant
                n == g.nodes.len(),
                costs.len() == n,
                forall|i: int|
                    0 <= i < n ==> (#[trigger] costs[i]) as int == cost(g, g.nodes[i].id),
                1 <= v <= n,
                start < v,
                start as int == heaviest(g, v as nat),
            decreases n - v,
        {
            if costs[v] > costs[start] {
                start = v;
            }
            v += 1;
        }

        // Follow the successors, for at most as many packages as there are nodes.
        let nodes = graph.nodes();
        let mut current: usize = start;
        let mut taken: usize = 0;
        let mut ended: bool = false;
        while taken < n && !ended
            invariant
                n == g.nodes.len(),
                node_views(nodes@) == g.nodes,
                nodes.len() == n,
                successor.len() == n,
                forall|i: int|
                    0 <= i < n ==> match #[trigger] successor[i] {
                        Some(d) => d < n,
                        None => true,
                    } && named(g, successor[i]) == next_on_path(g, g.nodes[i].id),
                current < n,
                taken <= n,
                critical_path_of(g) == if ended {
                    id_texts(path@)
                } else {
                    id_texts(path@) + walk(
                        g,
                        g.nodes[current as int].id,
                        (n - taken) as nat,
                    )
                },
            decreases n - taken, if ended { 0int } else { 1int },
        {
            let ghost before = id_texts(path@);
            let ghost id = g.nodes[current as int].id;
            assert(nodes@[current as int]@ == g.nodes[current as int]);
            path.push(nodes[current].id.clone());
            assert(id_texts(path@) =~= before + seq![id]);
            taken += 1;
            match successor[current] {
                Some(d) => {
                    assert(next_on_path(g, id) == Some(g.nodes[d as int].id));
                    assert(before + (seq![id] + walk(g, g.nodes[d as int].id, (n - taken) as nat))
                        =~= (before + seq![id]) + walk(g, g.nodes[d as int].id, (n - taken) as nat));
                    current = d;
                },
                None => {
                    assert(next_on_path(g, id).is_none());
                    ended = true;
                },
            }
        }
    }
    assert(critical_path_of(g) =~= id_texts(path@));
    graph.set_critical_path(path);
}

} // verus!
