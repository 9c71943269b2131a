//! Building the graph from resolved package metadata.

use crate::model::{
    clone_ids, contains_id, id_texts, BuildGraph, CrateId, CrateNode, DepEdge, EdgeView,
    GraphView, NodeView,
};
use crate::text::{clone_strings, texts};
use vstd::prelude::*;
use vstd::string::*;

verus! {

/// A package known to the resolver.
#[derive(Debug)]
pub struct Package {
    pub id: CrateId,
    pub name: String,
    pub version: String,
}

/// One dependency of a resolved package.
#[derive(Debug)]
pub struct ResolvedDep {
    /// The package depended on.
    pub pkg: CrateId,
    /// The kinds of the dependency (normal, build, dev).
    pub dep_kinds: Vec<String>,
}

/// A package in the resolved dependency graph.
#[derive(Debug)]
pub struct ResolvedNode {
    pub id: CrateId,
    pub deps: Vec<ResolvedDep>,
    /// The features enabled for the package.
    pub features: Vec<String>,
}

/// Resolved package metadata: the packages, the dependency graph over them
/// if one was resolved, and the packages that are workspace members.
#[derive(Debug)]
pub struct Metadata {
    pub packages: Vec<Package>,
    pub resolve: Option<Vec<ResolvedNode>>,
    pub workspace_members: Vec<CrateId>,
}

/// Why no graph could be built.
#[derive(Clone, Copy, Debug, PartialEq, Eq, Structural)]
pub enum GraphError {
    /// The metadata holds no resolved dependency graph.
    NoResolution,
}

impl GraphError {
    /// The error in words.
    pub fn message(&self) -> (s: String)
        ensures
            s@ == "no dependency resolution found"@,
    {
        String::from_str("no dependency resolution found")
    }
}

impl Package {
    /// The identifier made of the package's name and version: the name, an
    /// `@` and the version. The identifier that the resolver gave the
    /// package plays no part.
    pub fn name_and_version(&self) -> (r: CrateId)
        ensures
            r@ == self.name@ + seq!['@'] + self.version@,
    {
        CrateId::from_name_version(self.name.as_str(), self.version.as_str())
    }
}

/// What a [`Package`] holds, as plain mathematical values.
pub struct PackageView {
    pub id: Seq<char>,
    pub name: Seq<char>,
    pub version: Seq<char>,
}

/// What a [`ResolvedDep`] holds, as plain mathematical values.
pub struct DepView {
    pub pkg: Seq<char>,
    pub dep_kinds: Seq<Seq<char>>,
}

/// What a [`ResolvedNode`] holds, as plain mathematical values.
pub struct ResolvedNodeView {
    pub id: Seq<char>,
    pub deps: Seq<DepView>,
    pub features: Seq<Seq<char>>,
}

/// What a [`Metadata`] holds, as plain mathematical values.
pub struct MetadataView {
    pub packages: Seq<PackageView>,
    pub resolve: Option<Seq<ResolvedNodeView>>,
    pub workspace_members: Seq<Seq<char>>,
}

impl View for Package {
    type V = PackageView;

    open spec fn view(&self) -> PackageView {
        PackageView { id: self.id@, name: self.name@, version: self.version@ }
    }
}

impl View for ResolvedDep {
    type V = DepView;

    open spec fn view(&self) -> DepView {
        DepView { pkg: self.pkg@, dep_kinds: texts(self.dep_kinds@) }
    }
}

/// The views of a list of dependencies, in order.
pub open spec fn dep_views(v: Seq<ResolvedDep>) -> Seq<DepView> {
    Seq::new(v.len(), |i: int| v[i]@)
}

impl View for ResolvedNode {
    type V = ResolvedNodeView;

    open spec fn view(&self) -> ResolvedNodeView {
        ResolvedNodeView {
            id: self.id@,
            deps: dep_views(self.deps@),
            features: texts(self.features@),
        }
    }
}

/// The views of a list of packages, in order.
pub open spec fn package_views(v: Seq<Package>) -> Seq<PackageView> {
    Seq::new(v.len(), |i: int| v[i]@)
}

/// The views of a list of resolved packages, in order.
pub open spec fn resolved_views(v: Seq<ResolvedNode>) -> Seq<ResolvedNodeView> {
    Seq::new(v.len(), |i: int| v[i]@)
}

impl View for Metadata {
    type V = MetadataView;

    open spec fn view(&self) -> MetadataView {
        MetadataView {
            packages: package_views(self.packages@),
            resolve: match self.resolve {
                Some(r) => Some(resolved_views(r@)),
                None => None,
            },
            workspace_members: id_texts(self.workspace_members@),
        }
    }
}

impl MetadataView {
    /// Whether the package `id` is a workspace member.
    pub open spec fn is_member(self, id: Seq<char>) -> bool {
        self.workspace_members.contains(id)
    }

    /// The last of the first `upto` packages that has the identifier `id`.
    pub open spec fn package_among(self, id: Seq<char>, upto: nat) -> Option<PackageView>
        decreases upto,
    {
        if upto == 0 || upto > self.packages.len() {
            None
        } else if self.packages[upto - 1].id == id {
            Some(self.packages[upto - 1])
        } else {
            self.package_among(id, (upto - 1) as nat)
        }
    }

    /// The package with the identifier `id`: the last one, if several have it.
    pub open spec fn package_of(self, id: Seq<char>) -> Option<PackageView> {
        self.package_among(id, self.packages.len())
    }

    /// Whether a resolved package `id` becomes a node: it is a workspace
    /// member, or outside packages are included, and it is a known package.
    pub open spec fn admits(self, include_deps: bool, id: Seq<char>) -> bool {
        (include_deps || self.is_member(id)) && self.package_of(id).is_some()
    }

    /// The node that stands for the resolved package `r`: named after its
    /// package, without timings.
    pub open spec fn node_for(self, r: ResolvedNodeView) -> NodeView {
        NodeView {
            id: r.id,
            name: self.package_of(r.id).unwrap().name,
            version: self.package_of(r.id).unwrap().version,
            is_workspace_member: self.is_member(r.id),
            duration: None,
            start: None,
            fresh: false,
            features: r.features,
        }
    }
}

/// Whether no resolved package behind position `i` has the identifier of
/// the one at `i`.
pub open spec fn last_occurrence(res: Seq<ResolvedNodeView>, i: int) -> bool {
    forall|j: int| i < j < res.len() ==> res[j].id != res[i].id
}

/// The nodes that the first `upto` resolved packages give: one for each
/// admitted package, in order. Of several resolved packages with one
/// identifier the last counts.
pub open spec fn built_nodes(
    m: MetadataView,
    include_deps: bool,
    res: Seq<ResolvedNodeView>,
    upto: nat,
) -> Seq<NodeView>
    decreases upto,
{
    if upto == 0 || upto > res.len() {
        Seq::empty()
    } else {
        let before = built_nodes(m, include_deps, res, (upto - 1) as nat);
        if m.admits(include_deps, res[upto - 1].id) && last_occurrence(res, upto - 1) {
            before.push(m.node_for(res[upto - 1]))
        } else {
            before
        }
    }
}

/// Whether one of `nodes` has the identifier `id`.
pub open spec fn node_among(nodes: Seq<NodeView>, id: Seq<char>) -> bool {
    exists|k: int| 0 <= k < nodes.len() && nodes[k].id == id
}

/// The edges that the first `upto` dependencies of the resolved package `r`
/// give: one for each dependency whose two ends are among `nodes`, in order.
pub open spec fn dep_edges(nodes: Seq<NodeView>, r: ResolvedNodeView, upto: nat) -> Seq<EdgeView>
    decreases upto,
{
    if upto == 0 || upto > r.deps.len() {
        Seq::empty()
    } else {
        let before = dep_edges(nodes, r, (upto - 1) as nat);
        let d = r.deps[upto - 1];
        if node_among(nodes, r.id) && node_among(nodes, d.pkg) {
            before.push(EdgeView { from: r.id, to: d.pkg, dep_kinds: d.dep_kinds })
        } else {
            before
        }
    }
}

/// The edges that the first `upto` resolved packages give, in order.
pub open spec fn built_edges(nodes: Seq<NodeView>, res: Seq<ResolvedNodeView>, upto: nat) -> Seq<
    EdgeView,
>
    decreases upto,
{
    if upto == 0 || upto > res.len() {
        Seq::empty()
    } else {
        built_edges(nodes, res, (upto - 1) as nat) + dep_edges(
            nodes,
            res[upto - 1],
            res[upto - 1].deps.len(),
        )
    }
}

/// The graph of the resolved packages `res`.
///
/// Its nodes are the admitted packages. Its edges are the resolved
/// dependencies between two nodes: a dependency on a package that is no node
/// gives no edge. Its roots are the workspace members, whether they are nodes
/// or not, and its critical path is empty.
pub open spec fn built_graph(m: MetadataView, include_deps: bool, res: Seq<ResolvedNodeView>)
    -> GraphView {
    let nodes = built_nodes(m, include_deps, res, res.len());
    GraphView {
        nodes,
        edges: built_edges(nodes, res, res.len()),
        roots: m.workspace_members,
        critical_path: Seq::empty(),
    }
}

/// Whether no node of `g` has a timing: no duration, no start, and no mark
/// of being reused from cache.
pub open spec fn untimed(g: GraphView) -> bool {
    forall|k: int|
        0 <= k < g.nodes.len() ==> (#[trigger] g.nodes[k]).duration.is_none()
            && g.nodes[k].start.is_none() && !g.nodes[k].fresh
}

/// Whether every node of `g` is a workspace member of `m` and is marked as
/// one, and every edge joins two workspace members.
pub open spec fn only_members(m: MetadataView, g: GraphView) -> bool {
    &&& forall|k: int|
        0 <= k < g.nodes.len() ==> (#[trigger] g.nodes[k]).is_workspace_member && m.is_member(
            g.nodes[k].id,
        )
    &&& forall|e: int|
        0 <= e < g.edges.len() ==> m.is_member((#[trigger] g.edges[e]).from) && m.is_member(
            g.edges[e].to,
        )
}

/// The position of the package with the identifier `id`: of the last one,
/// if several have it.
fn find_package(metadata: &Metadata, id: &CrateId) -> (r: Option<usize>)
    ensures
        match r {
            Some(i) => i < metadata.packages.len() && metadata@.package_of(id@) == Some(
                metadata.packages@[i as int]@,
            ),
            None => metadata@.package_of(id@).is_none(),
        },
{
    let packages = &metadata.packages;
    let mut i: usize = packages.len();
    while i > 0
        invariant
            packages == &metadata.packages,
            i <= packages.len(),
            metadata@.package_of(id@) == metadata@.package_among(id@, i as nat),
        decreases i,
    {
        assert(metadata@.packages[i - 1] == packages@[i - 1]@);
        if packages[i - 1].id.same(id) {
            return Some(i - 1);
        }
        i -= 1;
    }
    None
}

/// Whether a resolved package behind position `i` has the identifier of the
/// one at `i`.
fn recurs_later(resolve: &Vec<ResolvedNode>, i: usize) -> (r: bool)
    requires
        i < resolve.len(),
    ensures
        r == !last_occurrence(resolved_views(resolve@), i as int),
{
    let mut j: usize = i + 1;
    while j < resolve.len()
        invariant
            i < j <= resolve.len(),
            forall|k: int| i < k < j ==> resolve@[k].id@ != resolve@[i as int].id@,
        decreases resolve.len() - j,
    {
        if resolve[j].id.same(&resolve[i].id) {
            assert(resolved_views(resolve@)[j as int].id == resolved_views(resolve@)[i as int].id);
            return true;
        }
        j += 1;
    }
    assert forall|k: int| i < k < resolve.len() implies resolved_views(resolve@)[k].id
        != resolved_views(resolve@)[i as int].id by {
        assert(resolve@[k].id@ != resolve@[i as int].id@);
    }
    false
}

/// Builds the graph of a workspace from its resolved metadata.
///
/// Fails if the metadata holds no resolved dependency graph; an empty one
/// gives an empty graph. Otherwise the result is [`built_graph`]: a node
/// without timings for every resolved package that is a known package and,
/// unless `include_deps` is set, a workspace member; an edge for every
/// resolved dependency between two nodes; the workspace members as roots.
/// Without `include_deps` the graph therefore holds workspace members only.
pub fn load_dependency_graph(metadata: &Metadata, include_deps: bool) -> (r: Result<
    BuildGraph,
    GraphError,
>)
    ensures
        match r {
            Ok(g) => metadata@.resolve.is_some() && g@ == built_graph(
                metadata@,
                include_deps,
                metadata@.resolve.unwrap(),
            ) && g@.well_formed() && untimed(g@) && (!include_deps ==> only_members(
                metadata@,
                g@,
            )),
            Err(e) => metadata@.resolve.is_none() && e == GraphError::NoResolution,
        },
{
    let resolve = match &metadata.resolve {
        Some(r) => r,
        None => {
            return Err(GraphError::NoResolution);
        },
    };
    let ghost m = metadata@;
    let ghost res = resolved_views(resolve@);
    assert(m.resolve == Some(res));
    let mut graph = BuildGraph::new();
    assert(graph@.nodes =~= Seq::<NodeView>::empty());
    assert(graph@.edges =~= Seq::<EdgeView>::empty());

    let mut i: usize = 0;
    while i < resolve.len()
        invariant
            m == metadata@,
            res == resolved_views(resolve@),
            i <= resolve.len(),
            graph@.well_formed(),
            graph@.nodes == built_nodes(m, include_deps, res, i as nat),
            graph@.edges == Seq::<EdgeView>::empty(),
            graph@.roots.len() == 0,
            graph@.critical_path.len() == 0,
            forall|k: int, j: int|
                #![trigger graph@.nodes[k], res[j]]
                0 <= k < graph@.nodes.len() && i <= j < res.len() ==> res[j].id
                    != graph@.nodes[k].id,
            forall|k: int|
                0 <= k < graph@.nodes.len() ==> m.admits(
                    include_deps,
                    (#[trigger] graph@.nodes[k]).id,
                ) && graph@.nodes[k].is_workspace_member == m.is_member(graph@.nodes[k].id),
            untimed(graph@),
        decreases resolve.len() - i,
    {
        let node = &resolve[i];
        assert(res[i as int] == node@);
        let is_member = contains_id(&metadata.workspace_members, &node.id);
        let ghost before = graph@;
        if include_deps || is_member {
            match find_package(metadata, &node.id) {
                Some(p) => {
                    if !recurs_later(resolve, i) {
                        let package = &metadata.packages[p];
                        let item = CrateNode {
                            id: node.id.clone(),
                            name: package.name.clone(),
                            version: package.version.clone(),
                            is_workspace_member: is_member,
                            duration_ms: None,
                            start_ms: None,
                            fresh: false,
                            features: clone_strings(&node.features),
                        };
                        assert(item@ == m.node_for(res[i as int]));
                        assert(!before.has_node(item@.id)) by {
                            if before.has_node(item@.id) {
                                let k = choose|k: int|
                                    0 <= k < before.nodes.len() && before.nodes[k].id == item@.id;
                                assert(res[i as int].id != before.nodes[k].id);
                            }
                        }
                        let added = graph.add_node(item);
                        assert(added);
                    }
                },
                None => {},
            }
        }
        i += 1;
    }

    let ghost nodes = graph@.nodes;
    assert(nodes == built_nodes(m, include_deps, res, res.len()));
    assert(graph@.edges =~= built_edges(nodes, res, 0));
    let mut i: usize = 0;
    while i < resolve.len()
        invariant
            res == resolved_views(resolve@),
            i <= resolve.len(),
            graph@.well_formed(),
            graph@.nodes == nodes,
            graph@.edges == built_edges(nodes, res, i as nat),
            graph@.roots.len() == 0,
            graph@.critical_path.len() == 0,
        decreases resolve.len() - i,
    {
        let node = &resolve[i];
        assert(res[i as int] == node@);
        let ghost done = graph@.edges;
        assert(graph@.edges =~= done + dep_edges(nodes, node@, 0));
        let mut j: usize = 0;
        while j < node.deps.len()
            invariant
                j <= node.deps.len(),
                graph@.well_formed(),
                graph@.nodes == nodes,
                graph@.edges == done + dep_edges(nodes, node@, j as nat),
                graph@.roots.len() == 0,
                graph@.critical_path.len() == 0,
            decreases node.deps.len() - j,
        {
            let dep = &node.deps[j];
            assert(node@.deps[j as int] == dep@);
            let edge = DepEdge {
                from: node.id.clone(),
                to: dep.pkg.clone(),
                dep_kinds: clone_strings(&dep.dep_kinds),
            };
            let ghost before = graph@;
            let added = graph.add_edge(edge);
            proof {
                assert(before.has_node(node@.id) == node_among(nodes, node@.id));
                assert(before.has_node(dep@.pkg) == node_among(nodes, dep@.pkg));
                if added {
                    assert(graph@.edges =~= done + dep_edges(nodes, node@, (j + 1) as nat));
                }
            }
            j += 1;
        }
        i += 1;
    }

    let ghost before = graph@;
    graph.set_roots(clone_ids(&metadata.workspace_members));
    assert(graph@.critical_path =~= Seq::<Seq<char>>::empty());
    assert(graph@ == built_graph(m, include_deps, res));
    proof {
        if !include_deps {
            assert forall|e: int| 0 <= e < graph@.edges.len() implies m.is_member(
                (#[trigger] graph@.edges[e]).from,
            ) && m.is_member(graph@.edges[e].to) by {
                assert(graph@.has_node(graph@.edges[e].from));
                assert(graph@.has_node(graph@.edges[e].to));
            }
        }
    }
    Ok(graph)
}

/// The names of the workspace members among the first `upto` packages, in
/// order.
pub open spec fn member_names(m: MetadataView, upto: nat) -> Seq<Seq<char>>
    decreases upto,
{
    if upto == 0 || upto > m.packages.len() {
        Seq::empty()
    } else {
        let before = member_names(m, (upto - 1) as nat);
        if m.is_member(m.packages[upto - 1].id) {
            before.push(m.packages[upto - 1].name)
        } else {
            before
        }
    }
}

/// The names of the packages that are workspace members, in the order of
/// the packages.
pub fn workspace_package_names(metadata: &Metadata) -> (names: Vec<String>)
    ensures
        texts(names@) == member_names(metadata@, metadata@.packages.len()),
{
    let mut names: Vec<String> = Vec::new();
    let mut i: usize = 0;
    assert(texts(names@) =~= member_names(metadata@, 0));
    while i < metadata.packages.len()
        invariant
            i <= metadata.packages.len(),
            texts(names@) == member_names(metadata@, i as nat),
        decreases metadata.packages.len() - i,
    {
        let package = &metadata.packages[i];
        assert(metadata@.packages[i as int] == package@);
        if contains_id(&metadata.workspace_members, &package.id) {
            let ghost before = texts(names@);
            names.push(package.name.clone());
            assert(texts(names@) =~= before.push(package@.name));
        }
        i += 1;
    }
    names
}

} // verus!
