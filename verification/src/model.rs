//! The build graph: packages, the dependencies between them, and the chain
//! of packages that dominates the build.

use crate::text::{clone_strings, texts};
use crate::time::Milliseconds;
use vstd::prelude::*;
use vstd::string::*;

verus! {

/// The identity of a package within one build.
///
/// Two identifiers are the same package exactly when their texts are equal.
#[derive(Debug, PartialEq, Eq, Hash)]
pub struct CrateId {
    repr: String,
}

impl View for CrateId {
    type V = Seq<char>;

    closed spec fn view(&self) -> Seq<char> {
        self.repr@
    }
}

impl Clone for CrateId {
    fn clone(&self) -> (r: Self)
        ensures
            r@ == self@,
    {
        CrateId { repr: self.repr.clone() }
    }
}

impl CrateId {
    /// The identifier with the text `repr`, as a resolver assigns it.
    pub fn new(repr: String) -> (r: Self)
        ensures
            r@ == repr@,
    {
        CrateId { repr }
    }

    /// The identifier of the package `name` at `version`: the name, an `@`
    /// and the version.
    pub fn from_name_version(name: &str, version: &str) -> (r: Self)
        ensures
            r@ == name@ + seq!['@'] + version@,
    {
        let mut repr = String::from_str(name);
        proof {
            reveal_strlit("@");
        }
        repr.append("@");
        repr.append(version);
        assert("@"@ =~= seq!['@']);
        CrateId { repr }
    }

    /// The text of the identifier.
    pub fn as_str(&self) -> (s: &str)
        ensures
            s@ == self@,
    {
        self.repr.as_str()
    }

    /// Whether `self` and `other` name the same package.
    pub fn same(&self, other: &CrateId) -> (r: bool)
        ensures
            r == (self@ == other@),
    {
        self.repr == other.repr
    }
}

/// The texts of a list of identifiers, in order.
pub open spec fn id_texts(v: Seq<CrateId>) -> Seq<Seq<char>> {
    Seq::new(v.len(), |i: int| v[i]@)
}

/// A copy of a list of identifiers.
pub fn clone_ids(v: &Vec<CrateId>) -> (r: Vec<CrateId>)
    ensures
        id_texts(r@) == id_texts(v@),
{
    let mut r: Vec<CrateId> = Vec::new();
    let mut i: usize = 0;
    while i < v.len()
        invariant
            i <= v.len(),
            r.len() == i,
            forall|j: int| 0 <= j < i ==> r@[j]@ == v@[j]@,
        decreases v.len() - i,
    {
        r.push(v[i].clone());
        i += 1;
    }
    assert(id_texts(r@) =~= id_texts(v@));
    r
}

/// Whether `id` is one of `list`.
pub fn contains_id(list: &Vec<CrateId>, id: &CrateId) -> (r: bool)
    ensures
        r == id_texts(list@).contains(id@),
{
    let mut i: usize = 0;
    while i < list.len()
        invariant
            i <= list.len(),
            forall|j: int| 0 <= j < i ==> list@[j]@ != id@,
        decreases list.len() - i,
    {
        if list[i].same(id) {
            assert(id_texts(list@)[i as int] == id@);
            return true;
        }
        i += 1;
    }
    assert(!id_texts(list@).contains(id@)) by {
        if id_texts(list@).contains(id@) {
            let j = choose|j: int| 0 <= j < id_texts(list@).len() && id_texts(list@)[j] == id@;
            assert(list@[j]@ == id@);
        }
    }
    false
}

/// One package that takes part in the build.
#[derive(Debug)]
pub struct CrateNode {
    pub id: CrateId,
    pub name: String,
    pub version: String,
    pub is_workspace_member: bool,
    /// Compile time attributed to the package; `None` until timings are applied.
    pub duration_ms: Option<Milliseconds>,
    /// When the package started compiling, from the start of the build;
    /// `None` until timings are applied.
    pub start_ms: Option<Milliseconds>,
    /// Whether the artifact was reused from cache during the last build.
    pub fresh: bool,
    pub features: Vec<String>,
}

/// What a [`CrateNode`] holds, as plain mathematical values. Times are in
/// nanoseconds.
pub struct NodeView {
    pub id: Seq<char>,
    pub name: Seq<char>,
    pub version: Seq<char>,
    pub is_workspace_member: bool,
    pub duration: Option<u64>,
    pub start: Option<u64>,
    pub fresh: bool,
    pub features: Seq<Seq<char>>,
}

/// The nanoseconds of an optional span.
pub open spec fn span_nanos(t: Option<Milliseconds>) -> Option<u64> {
    match t {
        Some(m) => Some(m.nanos()),
        None => None,
    }
}

impl View for CrateNode {
    type V = NodeView;

    open spec fn view(&self) -> NodeView {
        NodeView {
            id: self.id@,
            name: self.name@,
            version: self.version@,
            is_workspace_member: self.is_workspace_member,
            duration: span_nanos(self.duration_ms),
            start: span_nanos(self.start_ms),
            fresh: self.fresh,
            features: texts(self.features@),
        }
    }
}

impl Clone for CrateNode {
    fn clone(&self) -> (r: Self)
        ensures
            r@ == self@,
    {
        CrateNode {
            id: self.id.clone(),
            name: self.name.clone(),
            version: self.version.clone(),
            is_workspace_member: self.is_workspace_member,
            duration_ms: self.duration_ms,
            start_ms: self.start_ms,
            fresh: self.fresh,
            features: clone_strings(&self.features),
        }
    }
}

/// A dependency: the package `from` depends on the package `to`.
#[derive(Debug)]
pub struct DepEdge {
    pub from: CrateId,
    pub to: CrateId,
    /// The kinds of the dependency (normal, build, dev), for display.
    pub dep_kinds: Vec<String>,
}

/// What a [`DepEdge`] holds, as plain mathematical values.
pub struct EdgeView {
    pub from: Seq<char>,
    pub to: Seq<char>,
    pub dep_kinds: Seq<Seq<char>>,
}

impl View for DepEdge {
    type V = EdgeView;

    open spec fn view(&self) -> EdgeView {
        EdgeView { from: self.from@, to: self.to@, dep_kinds: texts(self.dep_kinds@) }
    }
}

impl Clone for DepEdge {
    fn clone(&self) -> (r: Self)
        ensures
            r@ == self@,
    {
        DepEdge {
            from: self.from.clone(),
            to: self.to.clone(),
            dep_kinds: clone_strings(&self.dep_kinds),
        }
    }
}

/// What a [`BuildGraph`] holds, as plain mathematical values.
pub struct GraphView {
    pub nodes: Seq<NodeView>,
    pub edges: Seq<EdgeView>,
    pub roots: Seq<Seq<char>>,
    pub critical_path: Seq<Seq<char>>,
}

impl GraphView {
    /// The position of the package `id` among the nodes, if it is one.
    pub open spec fn index_of(self, id: Seq<char>) -> Option<int> {
        if exists|i: int| 0 <= i < self.nodes.len() && self.nodes[i].id == id {
            Some(choose|i: int| 0 <= i < self.nodes.len() && self.nodes[i].id == id)
        } else {
            None
        }
    }

    /// Whether the package `id` is a node.
    pub open spec fn has_node(self, id: Seq<char>) -> bool {
        exists|i: int| 0 <= i < self.nodes.len() && self.nodes[i].id == id
    }

    /// No two nodes share an identifier.
    pub open spec fn ids_unique(self) -> bool {
        forall|i: int, j: int|
            0 <= i < self.nodes.len() && 0 <= j < self.nodes.len() && self.nodes[i].id
                == self.nodes[j].id ==> i == j
    }

    /// Both ends of every edge are nodes.
    pub open spec fn no_dangling_edges(self) -> bool {
        forall|e: int|
            0 <= e < self.edges.len() ==> self.has_node(#[trigger] self.edges[e].from)
                && self.has_node(self.edges[e].to)
    }

    /// What holds of every graph: identifiers are unique among the nodes,
    /// and every edge joins two nodes.
    pub open spec fn well_formed(self) -> bool {
        self.ids_unique() && self.no_dangling_edges()
    }
}

/// The views of a list of nodes, in order.
pub open spec fn node_views(v: Seq<CrateNode>) -> Seq<NodeView> {
    Seq::new(v.len(), |i: int| v[i]@)
}

/// The views of a list of edges, in order.
pub open spec fn edge_views(v: Seq<DepEdge>) -> Seq<EdgeView> {
    Seq::new(v.len(), |i: int| v[i]@)
}

/// The packages of one build with their dependencies, the packages the
/// workspace builds directly, and the critical path once it is computed.
///
/// Nodes keep the order in which they were added. Every graph satisfies
/// [`GraphView::well_formed`] at all times: no two nodes share an
/// identifier, and every edge joins two nodes.
#[derive(Debug)]
pub struct BuildGraph {
    nodes: Vec<CrateNode>,
    edges: Vec<DepEdge>,
    roots: Vec<CrateId>,
    critical_path: Vec<CrateId>,
}

impl View for BuildGraph {
    type V = GraphView;

    closed spec fn view(&self) -> GraphView {
        GraphView {
            nodes: node_views(self.nodes@),
            edges: edge_views(self.edges@),
            roots: id_texts(self.roots@),
            critical_path: id_texts(self.critical_path@),
        }
    }
}

impl Clone for BuildGraph {
    fn clone(&self) -> (r: Self)
        ensures
            r@ == self@,
    {
        let mut nodes: Vec<CrateNode> = Vec::new();
        let mut i: usize = 0;
        while i < self.nodes.len()
            invariant
                i <= self.nodes.len(),
                nodes.len() == i,
                forall|j: int| 0 <= j < i ==> nodes@[j]@ == self.nodes@[j]@,
            decreases self.nodes.len() - i,
        {
            nodes.push(self.nodes[i].clone());
            i += 1;
        }
        let mut edges: Vec<DepEdge> = Vec::new();
        let mut i: usize = 0;
        while i < self.edges.len()
            invariant
                i <= self.edges.len(),
                edges.len() == i,
                forall|j: int| 0 <= j < i ==> edges@[j]@ == self.edges@[j]@,
            decreases self.edges.len() - i,
        {
            edges.push(self.edges[i].clone());
            i += 1;
        }
        proof {
            use_type_invariant(self);
        }
        assert(node_views(nodes@) =~= node_views(self.nodes@));
        assert(edge_views(edges@) =~= edge_views(self.edges@));
        BuildGraph {
            nodes,
            edges,
            roots: clone_ids(&self.roots),
            critical_path: clone_ids(&self.critical_path),
        }
    }
}

impl BuildGraph {
    #[verifier::type_invariant]
    spec fn inv(self) -> bool {
        self@.well_formed()
    }

    /// A graph with no nodes, edges or roots, and an empty critical path.
    pub fn new() -> (g: Self)
        ensures
            g@.nodes.len() == 0,
            g@.edges.len() == 0,
            g@.roots.len() == 0,
            g@.critical_path.len() == 0,
            g@.well_formed(),
    {
        BuildGraph {
            nodes: Vec::new(),
            edges: Vec::new(),
            roots: Vec::new(),
            critical_path: Vec::new(),
        }
    }

    /// The nodes, in the order in which they were added.
    pub fn nodes(&self) -> (r: &Vec<CrateNode>)
        ensures
            node_views(r@) == self@.nodes,
            self@.well_formed(),
    {
        proof {
            use_type_invariant(self);
        }
        &self.nodes
    }

    /// The edges, in the order in which they were added.
    pub fn edges(&self) -> (r: &Vec<DepEdge>)
        ensures
            edge_views(r@) == self@.edges,
            self@.well_formed(),
    {
        proof {
            use_type_invariant(self);
        }
        &self.edges
    }

    /// The packages that the workspace builds directly.
    pub fn roots(&self) -> (r: &Vec<CrateId>)
        ensures
            id_texts(r@) == self@.roots,
    {
        &self.roots
    }

    /// The critical path; empty until it is computed.
    pub fn critical_path(&self) -> (r: &Vec<CrateId>)
        ensures
            id_texts(r@) == self@.critical_path,
    {
        &self.critical_path
    }

    /// The position of the node `id`, if there is one.
    pub fn find(&self, id: &CrateId) -> (r: Option<usize>)
        ensures
            match r {
                Some(i) => i < self@.nodes.len() && self@.nodes[i as int].id == id@ && forall|
                    j: int,
                | 0 <= j < i ==> self@.nodes[j].id != id@,
                None => !self@.has_node(id@),
            },
    {
        let mut i: usize = 0;
        while i < self.nodes.len()
            invariant
                i <= self.nodes.len(),
                forall|j: int| 0 <= j < i ==> self.nodes@[j].id@ != id@,
            decreases self.nodes.len() - i,
        {
            if self.nodes[i].id.same(id) {
                return Some(i);
            }
            i += 1;
        }
        None
    }

    /// Adds `node` behind the nodes present, unless a node with its
    /// identifier is present already; says whether it was added.
    pub fn add_node(&mut self, node: CrateNode) -> (added: bool)
        ensures
            added == !old(self)@.has_node(node@.id),
            added ==> final(self)@ == (GraphView {
                nodes: old(self)@.nodes.push(node@),
                ..old(self)@
            }),
            !added ==> final(self)@ == old(self)@,
            final(self)@.well_formed(),
    {
        proof {
            use_type_invariant(&*self);
        }
        if self.find(&node.id).is_some() {
            return false;
        }
        let ghost before = self@;
        // The edges leave the graph while the nodes change, so that it is
        // well formed at every step.
        let mut edges: Vec<DepEdge> = Vec::new();
        core::mem::swap(&mut self.edges, &mut edges);
        let mut nodes: Vec<CrateNode> = Vec::new();
        core::mem::swap(&mut self.nodes, &mut nodes);
        nodes.push(node);
        proof {
            assert(node_views(nodes@) =~= before.nodes.push(node@));
            assert(edge_views(self.edges@) =~= Seq::<EdgeView>::empty());
        }
        core::mem::swap(&mut self.nodes, &mut nodes);
        proof {
            assert(edge_views(edges@) == before.edges);
            lemma_ends_stay(before, node_views(self.nodes@));
        }
        core::mem::swap(&mut self.edges, &mut edges);
        true
    }

    /// Adds `edge` behind the edges present, unless one of its ends is not a
    /// node; says whether it was added.
    pub fn add_edge(&mut self, edge: DepEdge) -> (added: bool)
        ensures
            added == (old(self)@.has_node(edge@.from) && old(self)@.has_node(edge@.to)),
            added ==> final(self)@ == (GraphView {
                edges: old(self)@.edges.push(edge@),
                ..old(self)@
            }),
            !added ==> final(self)@ == old(self)@,
            final(self)@.well_formed(),
    {
        proof {
            use_type_invariant(&*self);
        }
        if self.find(&edge.from).is_none() || self.find(&edge.to).is_none() {
            return false;
        }
        let ghost before = self@;
        let mut edges: Vec<DepEdge> = Vec::new();
        core::mem::swap(&mut self.edges, &mut edges);
        edges.push(edge);
        proof {
            assert(edge_views(edges@) =~= before.edges.push(edge@));
        }
        core::mem::swap(&mut self.edges, &mut edges);
        true
    }

    /// Gives the node at position `at` the timings `start` and `duration`
    /// and the mark `fresh`.
    pub(crate) fn set_timing(
        &mut self,
        at: usize,
        start: Milliseconds,
        duration: Milliseconds,
        fresh: bool,
    )
        requires
            at < old(self)@.nodes.len(),
        ensures
            final(self)@ == (GraphView {
                nodes: old(self)@.nodes.update(
                    at as int,
                    (NodeView {
                        duration: Some(duration.nanos()),
                        start: Some(start.nanos()),
                        fresh,
                        ..old(self)@.nodes[at as int]
                    }),
                ),
                ..old(self)@
            }),
            final(self)@.well_formed(),
    {
        proof {
            use_type_invariant(&*self);
        }
        let ghost before = self@;
        let node = &self.nodes[at];
        assert(before.nodes[at as int] == node@);
        let timed = CrateNode {
            id: node.id.clone(),
            name: node.name.clone(),
            version: node.version.clone(),
            is_workspace_member: node.is_workspace_member,
            duration_ms: Some(duration),
            start_ms: Some(start),
            fresh,
            features: clone_strings(&node.features),
        };
        // The edges leave the graph while the nodes change, so that it is
        // well formed at every step.
        let mut edges: Vec<DepEdge> = Vec::new();
        core::mem::swap(&mut self.edges, &mut edges);
        let mut nodes: Vec<CrateNode> = Vec::new();
        core::mem::swap(&mut self.nodes, &mut nodes);
        nodes.set(at, timed);
        proof {
            assert(node_views(nodes@) =~= before.nodes.update(at as int, timed@));
            assert(edge_views(self.edges@) =~= Seq::<EdgeView>::empty());
            assert forall|i: int| 0 <= i < before.nodes.len() implies (#[trigger] node_views(
                nodes@,
            )[i]).id == before.nodes[i].id by {}
        }
        core::mem::swap(&mut self.nodes, &mut nodes);
        proof {
            assert(edge_views(edges@) == before.edges);
            lemma_ends_stay(before, node_views(self.nodes@));
        }
        core::mem::swap(&mut self.edges, &mut edges);
    }

    /// Replaces the critical path by `path`.
    pub(crate) fn set_critical_path(&mut self, path: Vec<CrateId>)
        ensures
            final(self)@ == (GraphView { critical_path: id_texts(path@), ..old(self)@ }),
            final(self)@.well_formed(),
    {
        proof {
            use_type_invariant(&*self);
        }
        self.critical_path = path;
    }

    /// Replaces the roots by `roots`.
    pub fn set_roots(&mut self, roots: Vec<CrateId>)
        ensures
            final(self)@ == (GraphView { roots: id_texts(roots@), ..old(self)@ }),
            final(self)@.well_formed(),
    {
        proof {
            use_type_invariant(&*self);
        }
        self.roots = roots;
    }
}

/// Edges whose ends are nodes keep them when nodes are added or changed
/// and every node present keeps its identifier.
proof fn lemma_ends_stay(before: GraphView, nodes: Seq<NodeView>)
    requires
        before.no_dangling_edges(),
        nodes.len() >= before.nodes.len(),
        forall|i: int| 0 <= i < before.nodes.len() ==> (#[trigger] nodes[i]).id == before.nodes[i].id,
    ensures
        (GraphView { nodes, ..before }).no_dangling_edges(),
{
    let after = GraphView { nodes, ..before };
    assert forall|e: int| 0 <= e < after.edges.len() implies after.has_node(
        #[trigger] after.edges[e].from,
    ) && after.has_node(after.edges[e].to) by {
        assert(before.has_node(before.edges[e].from));
        let a = choose|i: int|
            0 <= i < before.nodes.len() && before.nodes[i].id == before.edges[e].from;
        assert(nodes[a].id == before.edges[e].from);
        let b = choose|i: int|
            0 <= i < before.nodes.len() && before.nodes[i].id == before.edges[e].to;
        assert(nodes[b].id == before.edges[e].to);
    }
}

} // verus!
