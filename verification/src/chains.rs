//! What holds of costs and of the critical path.
//!
//! A chain is a row of packages in which each depends on the one before it:
//! the order in which they must be compiled. In a graph without cycles the
//! cost of a package is the largest total compile time of a chain that
//! starts at it, and the critical path is a chain of the largest total
//! compile time in the graph.

use crate::critical_path::{
    best_dependent, best_dependent_cost, cost, critical_path_of, duration_of, heaviest,
    next_on_path, reach_cost, walk,
};
use crate::model::GraphView;
use vstd::prelude::*;

verus! {

/// Whether the package `dependent` depends on the package `id`: an edge
/// runs from the one to the other.
pub open spec fn depends_on(g: GraphView, dependent: Seq<char>, id: Seq<char>) -> bool {
    exists|e: int| 0 <= e < g.edges.len() && g.edges[e].from == dependent && g.edges[e].to == id
}

/// Whether `q` is a chain: it is not empty, and each of its packages
/// depends on the one before it.
pub open spec fn is_chain(g: GraphView, q: Seq<Seq<char>>) -> bool {
    q.len() > 0 && forall|i: int| 0 <= i < q.len() - 1 ==> depends_on(g, #[trigger] q[i + 1], q[i])
}

/// The compile times of the packages of `q`, added up.
pub open spec fn total_of(g: GraphView, q: Seq<Seq<char>>) -> int
    decreases q.len(),
{
    if q.len() == 0 {
        0
    } else {
        duration_of(g, q[0]) + total_of(g, q.drop_first())
    }
}

/// Whether `rank` numbers the packages in an order in which they can be
/// compiled backwards: every package has a larger number than each package
/// that depends on it, and the number of a node is below the number of
/// nodes. A graph has such a numbering exactly if it has no cycle.
pub open spec fn is_numbering(g: GraphView, rank: spec_fn(Seq<char>) -> nat) -> bool {
    &&& forall|e: int|
        0 <= e < g.edges.len() ==> rank(g.edges[e].from) < rank(#[trigger] g.edges[e].to)
    &&& forall|v: int| 0 <= v < g.nodes.len() ==> rank(#[trigger] g.nodes[v].id) < g.nodes.len()
}

/// The largest cost among dependents is zero or the cost of one of them,
/// and no dependent costs more.
pub proof fn lemma_best_dependent_cost_is_largest(g: GraphView, id: Seq<char>, k: nat, upto: nat)
    requires
        upto <= g.edges.len(),
    ensures
        0 <= best_dependent_cost(g, id, k, upto),
        forall|e: int|
            0 <= e < upto && g.edges[e].to == id ==> reach_cost(g, #[trigger] g.edges[e].from, k)
                <= best_dependent_cost(g, id, k, upto),
        best_dependent_cost(g, id, k, upto) == 0 || exists|e: int|
            0 <= e < upto && g.edges[e].to == id && reach_cost(g, #[trigger] g.edges[e].from, k)
                == best_dependent_cost(g, id, k, upto),
    decreases upto,
{
    if upto > 0 {
        lemma_best_dependent_cost_is_largest(g, id, k, (upto - 1) as nat);
        let rest = best_dependent_cost(g, id, k, (upto - 1) as nat);
        let last = g.edges[upto - 1];
        if last.to == id && reach_cost(g, last.from, k) > rest {
            assert(reach_cost(g, g.edges[upto - 1].from, k) == best_dependent_cost(g, id, k, upto));
        } else if rest != 0 {
            let e = choose|e: int|
                0 <= e < upto - 1 && g.edges[e].to == id && reach_cost(
                    g,
                    #[trigger] g.edges[e].from,
                    k,
                ) == rest;
            assert(reach_cost(g, g.edges[e].from, k) == best_dependent_cost(g, id, k, upto));
        }
    }
}

/// The dependent chosen is one whose cost is the largest among dependents,
/// and that cost is above zero; none is chosen exactly if no dependent costs
/// more than zero.
pub proof fn lemma_best_dependent_is_choice(g: GraphView, id: Seq<char>, k: nat, upto: nat)
    requires
        upto <= g.edges.len(),
    ensures
        match best_dependent(g, id, k, upto) {
            Some(d) => 0 < best_dependent_cost(g, id, k, upto) && reach_cost(g, d, k)
                == best_dependent_cost(g, id, k, upto) && depends_on(g, d, id),
            None => best_dependent_cost(g, id, k, upto) == 0,
        },
    decreases upto,
{
    if upto > 0 {
        lemma_best_dependent_is_choice(g, id, k, (upto - 1) as nat);
        lemma_best_dependent_cost_is_largest(g, id, k, (upto - 1) as nat);
        let last = g.edges[upto - 1];
        if last.to == id && reach_cost(g, last.from, k) > best_dependent_cost(
            g,
            id,
            k,
            (upto - 1) as nat,
        ) {
            assert(g.edges[upto - 1].from == last.from && g.edges[upto - 1].to == id);
        }
    }
}

/// In a graph without cycles, a cost is settled once the round is past the
/// number of the package: a further round leaves it as it is.
pub proof fn lemma_costs_settle(
    g: GraphView,
    rank: spec_fn(Seq<char>) -> nat,
    id: Seq<char>,
    k: nat,
)
    requires
        is_numbering(g, rank),
        rank(id) < k,
    ensures
        reach_cost(g, id, k) == reach_cost(g, id, k + 1),
    decreases k, g.edges.len() + 1,
{
    lemma_dependents_settle(g, rank, id, k, g.edges.len());
}

/// In a graph without cycles, the largest cost among the dependents of a
/// package is settled one round before the cost of the package is.
pub proof fn lemma_dependents_settle(
    g: GraphView,
    rank: spec_fn(Seq<char>) -> nat,
    id: Seq<char>,
    k: nat,
    upto: nat,
)
    requires
        is_numbering(g, rank),
        rank(id) < k,
        upto <= g.edges.len(),
    ensures
        best_dependent_cost(g, id, (k - 1) as nat, upto) == best_dependent_cost(g, id, k, upto),
        best_dependent(g, id, (k - 1) as nat, upto) == best_dependent(g, id, k, upto),
    decreases k, upto,
{
    if upto > 0 {
        lemma_dependents_settle(g, rank, id, k, (upto - 1) as nat);
        let last = g.edges[upto - 1];
        if last.to == id {
            assert(rank(g.edges[upto - 1].from) < rank(g.edges[upto - 1].to));
            lemma_costs_settle(g, rank, last.from, (k - 1) as nat);
        }
    }
}

/// In a graph without cycles, the cost of a node is its compile time plus
/// the largest cost among the packages that depend on it.
pub proof fn lemma_cost_recurrence(g: GraphView, rank: spec_fn(Seq<char>) -> nat, id: Seq<char>)
    requires
        is_numbering(g, rank),
        g.has_node(id),
    ensures
        cost(g, id) == duration_of(g, id) + best_dependent_cost(
            g,
            id,
            g.nodes.len(),
            g.edges.len(),
        ),
{
    let v = choose|v: int| 0 <= v < g.nodes.len() && g.nodes[v].id == id;
    assert(rank(g.nodes[v].id) < g.nodes.len());
    lemma_costs_settle(g, rank, id, g.nodes.len());
}

/// In a graph without cycles, no chain of nodes takes longer than the cost
/// of the node it starts at.
pub proof fn lemma_cost_bounds_chain(
    g: GraphView,
    rank: spec_fn(Seq<char>) -> nat,
    q: Seq<Seq<char>>,
)
    requires
        is_numbering(g, rank),
        is_chain(g, q),
        forall|i: int| 0 <= i < q.len() ==> g.has_node(#[trigger] q[i]),
    ensures
        total_of(g, q) <= cost(g, q[0]),
    decreases q.len(),
{
    let n = g.nodes.len();
    lemma_cost_recurrence(g, rank, q[0]);
    lemma_best_dependent_cost_is_largest(g, q[0], n, g.edges.len());
    let rest = q.drop_first();
    if rest.len() == 0 {
        assert(total_of(g, rest) == 0);
    } else {
        assert forall|i: int| 0 <= i < rest.len() - 1 implies depends_on(
            g,
            #[trigger] rest[i + 1],
            rest[i],
        ) by {
            assert(rest[i + 1] == q[(i + 1) + 1]);
            assert(rest[i] == q[i + 1]);
        }
        assert forall|i: int| 0 <= i < rest.len() implies g.has_node(#[trigger] rest[i]) by {
            assert(rest[i] == q[i + 1]);
        }
        lemma_cost_bounds_chain(g, rank, rest);
        assert(rest[0] == q[0int + 1]);
        assert(depends_on(g, q[0int + 1], q[0int]));
        let e = choose|e: int|
            0 <= e < g.edges.len() && g.edges[e].from == q[1] && g.edges[e].to == q[0];
        assert(reach_cost(g, g.edges[e].from, n) <= best_dependent_cost(
            g,
            q[0],
            n,
            g.edges.len(),
        ));
    }
}

/// The chain that follows `next_on_path` from a node is a chain of nodes
/// that starts there and holds at most `steps` packages.
pub proof fn lemma_walk_is_chain(g: GraphView, id: Seq<char>, steps: nat)
    requires
        g.well_formed(),
        g.has_node(id),
        steps > 0,
    ensures
        is_chain(g, walk(g, id, steps)),
        walk(g, id, steps)[0] == id,
        walk(g, id, steps).len() <= steps,
        forall|i: int|
            0 <= i < walk(g, id, steps).len() ==> g.has_node(#[trigger] walk(g, id, steps)[i]),
    decreases steps,
{
    lemma_best_dependent_is_choice(g, id, g.nodes.len(), g.edges.len());
    match next_on_path(g, id) {
        Some(d) => {
            let e = choose|e: int|
                0 <= e < g.edges.len() && g.edges[e].from == d && g.edges[e].to == id;
            assert(g.has_node(g.edges[e].from));
            if steps > 1 {
                lemma_walk_is_chain(g, d, (steps - 1) as nat);
                let rest = walk(g, d, (steps - 1) as nat);
                let w = walk(g, id, steps);
                assert(w == seq![id] + rest);
                assert forall|i: int| 0 <= i < w.len() - 1 implies depends_on(
                    g,
                    #[trigger] w[i + 1],
                    w[i],
                ) by {
                    if i == 0 {
                        assert(w[1] == rest[0]);
                    } else {
                        assert(w[i + 1] == rest[(i - 1) + 1]);
                        assert(w[i] == rest[i - 1]);
                    }
                }
                assert forall|i: int| 0 <= i < w.len() implies g.has_node(#[trigger] w[i]) by {
                    if i > 0 {
                        assert(w[i] == rest[i - 1]);
                    }
                }
            } else {
                assert(walk(g, d, 0) =~= Seq::<Seq<char>>::empty());
                assert(walk(g, id, steps) =~= seq![id]);
            }
        },
        None => {},
    }
}

/// In a graph without cycles, the chain that follows `next_on_path` from a
/// node takes as long as the cost of that node.
pub proof fn lemma_walk_total(
    g: GraphView,
    rank: spec_fn(Seq<char>) -> nat,
    id: Seq<char>,
    steps: nat,
)
    requires
        g.well_formed(),
        is_numbering(g, rank),
        g.has_node(id),
        rank(id) < steps,
    ensures
        total_of(g, walk(g, id, steps)) == cost(g, id),
    decreases steps,
{
    let n = g.nodes.len();
    lemma_cost_recurrence(g, rank, id);
    lemma_best_dependent_is_choice(g, id, n, g.edges.len());
    match next_on_path(g, id) {
        Some(d) => {
            let e = choose|e: int|
                0 <= e < g.edges.len() && g.edges[e].from == d && g.edges[e].to == id;
            assert(g.has_node(g.edges[e].from));
            assert(rank(g.edges[e].from) < rank(g.edges[e].to));
            lemma_walk_total(g, rank, d, (steps - 1) as nat);
            let w = walk(g, id, steps);
            assert(w.drop_first() =~= walk(g, d, (steps - 1) as nat));
        },
        None => {
            assert(walk(g, id, steps).drop_first() =~= Seq::<Seq<char>>::empty());
            assert(total_of(g, Seq::<Seq<char>>::empty()) == 0);
        },
    }
}

/// No node among the first `upto` costs more than the heaviest of them.
pub proof fn lemma_heaviest_is_largest(g: GraphView, upto: nat)
    requires
        0 < upto <= g.nodes.len(),
    ensures
        0 <= heaviest(g, upto) < upto,
        forall|v: int|
            0 <= v < upto ==> cost(g, #[trigger] g.nodes[v].id) <= cost(
                g,
                g.nodes[heaviest(g, upto)].id,
            ),
    decreases upto,
{
    if upto > 1 {
        lemma_heaviest_is_largest(g, (upto - 1) as nat);
    }
}

/// The critical path of a graph with nodes is a chain of nodes of the
/// graph, at most as long as there are nodes. This holds of every graph,
/// with or without cycles.
pub proof fn lemma_critical_path_is_chain(g: GraphView)
    requires
        g.well_formed(),
        g.nodes.len() > 0,
    ensures
        is_chain(g, critical_path_of(g)),
        critical_path_of(g).len() <= g.nodes.len(),
        forall|i: int|
            0 <= i < critical_path_of(g).len() ==> g.has_node(#[trigger] critical_path_of(g)[i]),
{
    lemma_heaviest_is_largest(g, g.nodes.len());
    lemma_walk_is_chain(g, g.nodes[heaviest(g, g.nodes.len())].id, g.nodes.len());
}

/// In a graph without cycles, no chain of nodes takes longer than the
/// critical path.
pub proof fn lemma_critical_path_is_longest(
    g: GraphView,
    rank: spec_fn(Seq<char>) -> nat,
    q: Seq<Seq<char>>,
)
    requires
        g.well_formed(),
        is_numbering(g, rank),
        is_chain(g, q),
        forall|i: int| 0 <= i < q.len() ==> g.has_node(#[trigger] q[i]),
    ensures
        total_of(g, q) <= total_of(g, critical_path_of(g)),
{
    let n = g.nodes.len();
    assert(g.has_node(q[0]));
    let v = choose|v: int| 0 <= v < g.nodes.len() && g.nodes[v].id == q[0];
    lemma_heaviest_is_largest(g, n);
    let start = g.nodes[heaviest(g, n)].id;
    lemma_cost_bounds_chain(g, rank, q);
    assert(cost(g, g.nodes[v].id) <= cost(g, start));
    lemma_walk_total(g, rank, start, n);
}

/// The critical path depends on the nodes and the edges alone.
pub proof fn lemma_critical_path_determined(a: GraphView, b: GraphView)
    requires
        a.nodes == b.nodes,
        a.edges == b.edges,
    ensures
        critical_path_of(a) == critical_path_of(b),
{
    let same = GraphView { roots: b.roots, critical_path: b.critical_path, ..a };
    assert(same == b);
    lemma_fields_do_not_count(a, b.roots, b.critical_path);
}

/// Costs and paths are the same whatever the roots and the stored path.
proof fn lemma_fields_do_not_count(
    a: GraphView,
    roots: Seq<Seq<char>>,
    path: Seq<Seq<char>>,
)
    ensures
        critical_path_of(a) == critical_path_of(
            GraphView { roots: roots, critical_path: path, ..a },
        ),
{
    let b = GraphView { roots: roots, critical_path: path, ..a };
    let n = a.nodes.len();
    assert forall|id: Seq<char>, k: nat| reach_cost(a, id, k) == reach_cost(b, id, k) by {
        lemma_same_costs(a, b, id, k);
    }
    assert forall|id: Seq<char>| next_on_path(a, id) == next_on_path(b, id) by {
        lemma_same_choice(a, b, id, n, a.edges.len());
    }
    lemma_same_heaviest(a, b, n);
    if n > 0 {
        lemma_same_walk(a, b, a.nodes[heaviest(a, n)].id, n);
    }
}

/// Graphs with the same nodes and edges give the same costs.
proof fn lemma_same_costs(a: GraphView, b: GraphView, id: Seq<char>, k: nat)
    requires
        a.nodes == b.nodes,
        a.edges == b.edges,
    ensures
        reach_cost(a, id, k) == reach_cost(b, id, k),
    decreases k, 0nat,
{
    if k > 0 {
        lemma_same_dependent_costs(a, b, id, (k - 1) as nat, a.edges.len());
    }
}

/// Graphs with the same nodes and edges give the same largest cost among
/// dependents.
proof fn lemma_same_dependent_costs(a: GraphView, b: GraphView, id: Seq<char>, k: nat, upto: nat)
    requires
        a.nodes == b.nodes,
        a.edges == b.edges,
    ensures
        best_dependent_cost(a, id, k, upto) == best_dependent_cost(b, id, k, upto),
    decreases k, upto,
{
    if upto > 0 && upto <= a.edges.len() {
        lemma_same_dependent_costs(a, b, id, k, (upto - 1) as nat);
        lemma_same_costs(a, b, a.edges[upto - 1].from, k);
    }
}

/// Graphs with the same nodes and edges choose the same dependent.
proof fn lemma_same_choice(a: GraphView, b: GraphView, id: Seq<char>, k: nat, upto: nat)
    requires
        a.nodes == b.nodes,
        a.edges == b.edges,
    ensures
        best_dependent(a, id, k, upto) == best_dependent(b, id, k, upto),
    decreases upto,
{
    if upto > 0 && upto <= a.edges.len() {
        lemma_same_choice(a, b, id, k, (upto - 1) as nat);
        lemma_same_dependent_costs(a, b, id, k, (upto - 1) as nat);
        lemma_same_costs(a, b, a.edges[upto - 1].from, k);
    }
}

/// Graphs with the same nodes and edges have the same heaviest node.
proof fn lemma_same_heaviest(a: GraphView, b: GraphView, upto: nat)
    requires
        a.nodes == b.nodes,
        a.edges == b.edges,
    ensures
        heaviest(a, upto) == heaviest(b, upto),
    decreases upto,
{
    if upto > 1 && upto <= a.nodes.len() {
        lemma_same_heaviest(a, b, (upto - 1) as nat);
        lemma_same_costs(a, b, a.nodes[upto - 1].id, a.nodes.len());
        lemma_same_costs(a, b, a.nodes[heaviest(a, (upto - 1) as nat)].id, a.nodes.len());
    }
}

/// Graphs with the same nodes and edges give the same chain from a package.
proof fn lemma_same_walk(a: GraphView, b: GraphView, id: Seq<char>, steps: nat)
    requires
        a.nodes == b.nodes,
        a.edges == b.edges,
    ensures
        walk(a, id, steps) == walk(b, id, steps),
    decreases steps,
{
    if steps > 0 {
        lemma_same_choice(a, b, id, a.nodes.len(), a.edges.len());
        match next_on_path(a, id) {
            Some(d) => lemma_same_walk(a, b, d, (steps - 1) as nat),
            None => {},
        }
    }
}

/// Computing the critical path of a graph whose critical path was computed
/// gives the same path again.
pub proof fn lemma_solving_again_changes_nothing(g: GraphView)
    ensures
        critical_path_of(GraphView { critical_path: critical_path_of(g), ..g })
            == critical_path_of(g),
{
    lemma_critical_path_determined(GraphView { critical_path: critical_path_of(g), ..g }, g);
}

} // verus!
