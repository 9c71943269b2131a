use cargo_goodtimes::metadata::{
    load_dependency_graph, workspace_package_names, GraphError, Metadata, Package, ResolvedDep,
    ResolvedNode,
};
use cargo_goodtimes::model::{BuildGraph, CrateId};

fn id(s: &str) -> CrateId {
    CrateId::new(s.to_string())
}

fn package(id_text: &str, name: &str, version: &str) -> Package {
    Package {
        id: id(id_text),
        name: name.to_string(),
        version: version.to_string(),
    }
}

fn dep(pkg: &str, kinds: &[&str]) -> ResolvedDep {
    ResolvedDep {
        pkg: id(pkg),
        dep_kinds: kinds.iter().map(|k| k.to_string()).collect(),
    }
}

fn resolved(id_text: &str, deps: Vec<ResolvedDep>, features: &[&str]) -> ResolvedNode {
    ResolvedNode {
        id: id(id_text),
        deps,
        features: features.iter().map(|f| f.to_string()).collect(),
    }
}

/// A workspace of `app` and `util`, both of which use the outside package `serde`.
fn workspace() -> Metadata {
    Metadata {
        packages: vec![
            package("app 0.1.0", "app", "0.1.0"),
            package("util 0.2.0", "util", "0.2.0"),
            package("serde 1.0.0", "serde", "1.0.0"),
        ],
        resolve: Some(vec![
            resolved(
                "app 0.1.0",
                vec![
                    dep("util 0.2.0", &["Normal"]),
                    dep("serde 1.0.0", &["Normal", "Build"]),
                ],
                &["default"],
            ),
            resolved("util 0.2.0", vec![dep("serde 1.0.0", &["Normal"])], &[]),
            resolved("serde 1.0.0", vec![], &["derive", "std"]),
        ]),
        workspace_members: vec![id("app 0.1.0"), id("util 0.2.0")],
    }
}

fn node_ids(g: &BuildGraph) -> Vec<String> {
    g.nodes().iter().map(|n| n.id.as_str().to_string()).collect()
}

fn edge_ends(g: &BuildGraph) -> Vec<(String, String)> {
    g.edges()
        .iter()
        .map(|e| (e.from.as_str().to_string(), e.to.as_str().to_string()))
        .collect()
}

fn pair(a: &str, b: &str) -> (String, String) {
    (a.to_string(), b.to_string())
}

#[test]
fn excluding_outside_packages_leaves_workspace_members_only() {
    let g = load_dependency_graph(&workspace(), false).unwrap();
    assert_eq!(vec!["app 0.1.0", "util 0.2.0"], node_ids(&g));
    assert_eq!(vec![pair("app 0.1.0", "util 0.2.0")], edge_ends(&g));
    assert!(g.nodes().iter().all(|n| n.is_workspace_member));
}

#[test]
fn including_outside_packages_keeps_every_resolved_package() {
    let g = load_dependency_graph(&workspace(), true).unwrap();
    assert_eq!(vec!["app 0.1.0", "util 0.2.0", "serde 1.0.0"], node_ids(&g));
    assert_eq!(
        vec![
            pair("app 0.1.0", "util 0.2.0"),
            pair("app 0.1.0", "serde 1.0.0"),
            pair("util 0.2.0", "serde 1.0.0"),
        ],
        edge_ends(&g)
    );
    assert!(g.nodes()[0].is_workspace_member);
    assert!(g.nodes()[1].is_workspace_member);
    assert!(!g.nodes()[2].is_workspace_member);
    assert_eq!(vec!["Normal", "Build"], g.edges()[1].dep_kinds);
}

#[test]
fn built_nodes_carry_the_package_and_no_timing() {
    let g = load_dependency_graph(&workspace(), true).unwrap();
    let serde = &g.nodes()[2];
    assert_eq!("serde", serde.name);
    assert_eq!("1.0.0", serde.version);
    assert_eq!(vec!["derive", "std"], serde.features);
    for n in g.nodes() {
        assert_eq!(None, n.duration_ms);
        assert_eq!(None, n.start_ms);
        assert!(!n.fresh);
    }
    assert!(g.critical_path().is_empty());
}

#[test]
fn roots_are_the_workspace_members_whatever_is_included() {
    for with_deps in [false, true] {
        let g = load_dependency_graph(&workspace(), with_deps).unwrap();
        let roots: Vec<&str> = g.roots().iter().map(|r| r.as_str()).collect();
        assert_eq!(vec!["app 0.1.0", "util 0.2.0"], roots);
    }
}

#[test]
fn roots_need_not_be_nodes() {
    let mut m = workspace();
    m.workspace_members.push(id("ghost 0.0.0"));
    let g = load_dependency_graph(&m, false).unwrap();
    assert_eq!(3, g.roots().len());
    assert_eq!(vec!["app 0.1.0", "util 0.2.0"], node_ids(&g));
}

#[test]
fn metadata_without_a_resolved_graph_is_refused() {
    let mut m = workspace();
    m.resolve = None;
    for with_deps in [false, true] {
        let e = load_dependency_graph(&m, with_deps).unwrap_err();
        assert_eq!(GraphError::NoResolution, e);
        assert_eq!("no dependency resolution found", e.message());
    }
}

#[test]
fn an_empty_resolved_graph_gives_an_empty_graph() {
    let mut m = workspace();
    m.resolve = Some(Vec::new());
    let g = load_dependency_graph(&m, true).unwrap();
    assert!(g.nodes().is_empty());
    assert!(g.edges().is_empty());
    assert_eq!(2, g.roots().len());
}

#[test]
fn no_edge_is_left_dangling() {
    // `util` depends on a package that was never resolved, and `app` on one
    // that is resolved but is no known package.
    let mut m = workspace();
    m.resolve = Some(vec![
        resolved(
            "app 0.1.0",
            vec![dep("util 0.2.0", &["Normal"]), dep("lost 1.0.0", &["Normal"])],
            &[],
        ),
        resolved("util 0.2.0", vec![dep("nowhere 9.9.9", &["Normal"])], &[]),
        resolved("lost 1.0.0", vec![dep("util 0.2.0", &["Normal"])], &[]),
    ]);
    let g = load_dependency_graph(&m, true).unwrap();
    assert_eq!(vec!["app 0.1.0", "util 0.2.0"], node_ids(&g));
    assert_eq!(vec![pair("app 0.1.0", "util 0.2.0")], edge_ends(&g));
    for e in g.edges() {
        assert!(g.find(&e.from).is_some());
        assert!(g.find(&e.to).is_some());
    }
}

#[test]
fn every_edge_of_a_pruned_graph_joins_workspace_members() {
    let m = workspace();
    let g = load_dependency_graph(&m, false).unwrap();
    let members: Vec<&str> = m.workspace_members.iter().map(|w| w.as_str()).collect();
    for e in g.edges() {
        assert!(members.contains(&e.from.as_str()));
        assert!(members.contains(&e.to.as_str()));
    }
    for n in g.nodes() {
        assert!(members.contains(&n.id.as_str()));
    }
}

#[test]
fn of_two_resolved_packages_with_one_id_the_last_counts() {
    let mut m = workspace();
    m.resolve = Some(vec![
        resolved("util 0.2.0", vec![dep("app 0.1.0", &["Dev"])], &["first"]),
        resolved("app 0.1.0", vec![], &[]),
        resolved("util 0.2.0", vec![], &["second"]),
    ]);
    let g = load_dependency_graph(&m, false).unwrap();
    assert_eq!(vec!["app 0.1.0", "util 0.2.0"], node_ids(&g));
    assert_eq!(vec!["second"], g.nodes()[1].features);
    assert_eq!(vec![pair("util 0.2.0", "app 0.1.0")], edge_ends(&g));
}

#[test]
fn of_two_packages_with_one_id_the_last_counts() {
    let mut m = workspace();
    m.packages.push(package("app 0.1.0", "renamed", "0.1.1"));
    let g = load_dependency_graph(&m, false).unwrap();
    assert_eq!("renamed", g.nodes()[0].name);
    assert_eq!("0.1.1", g.nodes()[0].version);
}

#[test]
fn workspace_package_names_lists_the_members() {
    assert_eq!(vec!["app", "util"], workspace_package_names(&workspace()));
    let mut m = workspace();
    m.workspace_members = Vec::new();
    assert!(workspace_package_names(&m).is_empty());
}
