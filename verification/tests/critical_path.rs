use cargo_goodtimes::critical_path::compute_critical_path;
use cargo_goodtimes::model::{BuildGraph, CrateId, CrateNode, DepEdge};
use cargo_goodtimes::time::Milliseconds;

fn timed(id: &str, millis: Option<u64>) -> CrateNode {
    CrateNode {
        id: CrateId::new(id.to_string()),
        name: id.to_string(),
        version: "1.0.0".to_string(),
        is_workspace_member: true,
        duration_ms: millis.map(Milliseconds::from_millis),
        start_ms: millis.map(|_| Milliseconds::zero()),
        fresh: false,
        features: Vec::new(),
    }
}

/// A graph of the nodes given with their milliseconds, and an edge for each
/// pair `(from, to)`: `from` depends on `to`.
fn graph(nodes: &[(&str, Option<u64>)], edges: &[(&str, &str)]) -> BuildGraph {
    let mut g = BuildGraph::new();
    for (id, millis) in nodes {
        assert!(g.add_node(timed(id, *millis)));
    }
    for (from, to) in edges {
        assert!(g.add_edge(DepEdge {
            from: CrateId::new(from.to_string()),
            to: CrateId::new(to.to_string()),
            dep_kinds: vec!["Normal".to_string()],
        }));
    }
    g
}

fn path(g: &BuildGraph) -> Vec<&str> {
    g.critical_path().iter().map(|id| id.as_str()).collect()
}

fn path_millis(g: &BuildGraph) -> u64 {
    g.critical_path()
        .iter()
        .map(|id| {
            let at = g.find(id).unwrap();
            g.nodes()[at].duration_ms.map_or(0, |d| d.whole_millis())
        })
        .sum()
}

#[test]
fn chain_of_three() {
    let mut g = graph(
        &[("A", Some(10)), ("B", Some(20)), ("C", Some(30))],
        &[("A", "B"), ("B", "C")],
    );
    compute_critical_path(&mut g);
    assert_eq!(vec!["C", "B", "A"], path(&g));
    assert_eq!(60, path_millis(&g));
}

#[test]
fn diamond_with_a_tie_is_settled_the_same_way_each_time() {
    let build = || {
        graph(
            &[("A", Some(5)), ("B", Some(20)), ("C", Some(20)), ("D", Some(1))],
            &[("A", "B"), ("A", "C"), ("B", "D"), ("C", "D")],
        )
    };
    let mut first = build();
    compute_critical_path(&mut first);
    let mut second = build();
    compute_critical_path(&mut second);
    assert_eq!(path(&first), path(&second));
    // Of the tied dependents of D, the one that the earlier edge names.
    assert_eq!(vec!["D", "B", "A"], path(&first));
    compute_critical_path(&mut first);
    assert_eq!(vec!["D", "B", "A"], path(&first));
}

#[test]
fn diamond_takes_the_heavier_side() {
    let mut g = graph(
        &[("A", Some(5)), ("B", Some(20)), ("C", Some(21)), ("D", Some(1))],
        &[("A", "B"), ("A", "C"), ("B", "D"), ("C", "D")],
    );
    compute_critical_path(&mut g);
    assert_eq!(vec!["D", "C", "A"], path(&g));
    assert_eq!(27, path_millis(&g));
}

#[test]
fn empty_graph_has_an_empty_path() {
    let mut g = BuildGraph::new();
    compute_critical_path(&mut g);
    assert!(g.critical_path().is_empty());
}

#[test]
fn without_timings_the_path_is_the_first_node() {
    let mut g = graph(&[("A", None), ("B", None), ("C", None)], &[("A", "B"), ("B", "C")]);
    compute_critical_path(&mut g);
    assert_eq!(vec!["A"], path(&g));
}

#[test]
fn of_several_heaviest_nodes_the_first_starts_the_path() {
    let mut g = graph(&[("A", Some(3)), ("B", Some(7)), ("C", Some(7))], &[]);
    compute_critical_path(&mut g);
    assert_eq!(vec!["B"], path(&g));
}

#[test]
fn a_node_without_timing_counts_as_zero() {
    let mut g = graph(
        &[("A", Some(10)), ("B", None), ("C", Some(30))],
        &[("A", "B"), ("B", "C")],
    );
    compute_critical_path(&mut g);
    assert_eq!(vec!["C", "B", "A"], path(&g));
    assert_eq!(40, path_millis(&g));
}

#[test]
fn the_path_ends_before_dependents_that_cost_nothing() {
    let mut g = graph(&[("A", None), ("B", Some(30))], &[("A", "B")]);
    compute_critical_path(&mut g);
    assert_eq!(vec!["B"], path(&g));
}

#[test]
fn parallel_edges_count_once() {
    let mut g = graph(
        &[("A", Some(10)), ("B", Some(20)), ("X", Some(35))],
        &[("A", "B"), ("A", "B"), ("A", "B")],
    );
    compute_critical_path(&mut g);
    // B and A take 30 together, however many edges join them.
    assert_eq!(vec!["X"], path(&g));
}

#[test]
fn a_self_loop_ends() {
    let mut g = graph(&[("A", Some(5))], &[("A", "A")]);
    compute_critical_path(&mut g);
    assert_eq!(vec!["A"], path(&g));
}

#[test]
fn a_cycle_ends() {
    let mut g = graph(&[("A", Some(10)), ("B", Some(10))], &[("A", "B"), ("B", "A")]);
    compute_critical_path(&mut g);
    assert_eq!(vec!["A", "B"], path(&g));
    assert!(g.critical_path().len() <= g.nodes().len());
}

#[test]
fn the_solver_leaves_nodes_edges_and_roots_alone() {
    let mut g = graph(&[("A", Some(10)), ("B", Some(20))], &[("A", "B")]);
    g.set_roots(vec![CrateId::new("A".to_string())]);
    compute_critical_path(&mut g);
    assert_eq!(2, g.nodes().len());
    assert_eq!(Some(Milliseconds::from_millis(20)), g.nodes()[1].duration_ms);
    assert_eq!(1, g.edges().len());
    assert_eq!(1, g.roots().len());
    assert_eq!(vec!["B", "A"], path(&g));
}

#[test]
fn spans_near_the_largest_do_not_overflow() {
    let mut g = BuildGraph::new();
    for id in ["A", "B", "C"] {
        let mut n = timed(id, None);
        n.duration_ms = Some(Milliseconds::from_nanos(u64::MAX));
        g.add_node(n);
    }
    for (from, to) in [("A", "B"), ("B", "C")] {
        g.add_edge(DepEdge {
            from: CrateId::new(from.to_string()),
            to: CrateId::new(to.to_string()),
            dep_kinds: Vec::new(),
        });
    }
    compute_critical_path(&mut g);
    assert_eq!(vec!["C", "B", "A"], path(&g));
}
