//! Toolchain dependency analysis: the dependency graph over nodes, and the
//! analysis pass that builds it from the loaded manifests.

use vstd::prelude::*;

use petgraph::graphmap::GraphMap;
use petgraph::Directed;

use crate::component::ToolchainComponent;
use crate::graph::{
    graph_add_edge,
    graph_add_node,
    graph_edge_seq,
    graph_new,
    graph_node_seq,
    graph_postorder_sccs,
    tarjan_postorder,
};
use crate::manifest::ManifestCMakeInherentTarget;
use crate::node::{node_key_eq, DependencyNodeView, ToolchainComponentDependencyNode};
use crate::toolchain::ToolchainHandle;

verus! {

/// The aggregate result of one analysis pass over a toolchain installation:
/// the component set, the per-component target tables, the reverse index
/// from target name to owning component, the dependency graph, and the
/// external target names.
pub struct ToolchainAnalysis {
    pub handle: ToolchainHandle,
    pub components: Vec<ToolchainComponent>,
    pub components_targets: Vec<(ToolchainComponent, Vec<(String, ManifestCMakeInherentTarget)>)>,
    pub targets_component: Vec<(String, ToolchainComponent)>,
    pub dependencies: ToolchainComponentDependencyGraph,
    pub external_targets: Vec<String>,
}

/// The directed link dependency graph. Nodes are interned in a table, in
/// insertion order; the edge structure refers to them by table index. An
/// edge `a -> b` means `a`'s interface link libraries include `b`.
pub struct ToolchainComponentDependencyGraph {
    nodes: Vec<ToolchainComponentDependencyNode>,
    edges: GraphMap<u64, (), Directed>,
}

/// The first table index whose node has the same identity key.
pub open spec fn spec_find_node(s: Seq<DependencyNodeView>, v: DependencyNodeView) -> Option<int>
    decreases s.len(),
{
    if s.len() == 0 {
        None
    } else if node_key_eq(s[0], v) {
        Some(0)
    } else {
        match spec_find_node(s.drop_first(), v) {
            Some(i) => Some(i + 1),
            None => None,
        }
    }
}

/// Appending an edge only when it is new.
pub open spec fn edge_insert(s: Seq<(u64, u64)>, e: (u64, u64)) -> Seq<(u64, u64)> {
    if s.contains(e) {
        s
    } else {
        s.push(e)
    }
}

impl ToolchainComponentDependencyGraph {
    /// The nodes in the table, as views, in insertion order.
    pub closed spec fn node_views(&self) -> Seq<DependencyNodeView> {
        Seq::new(self.nodes@.len(), |i: int| self.nodes@[i]@)
    }

    /// The directed edges, as pairs of table indices, in insertion order.
    pub closed spec fn edge_views(&self) -> Seq<(u64, u64)> {
        graph_edge_seq(self.edges)
    }

    /// Well-formedness: the edge structure's node set is exactly the table
    /// indices in order, edges connect table indices, and no two table
    /// entries share an identity key.
    pub closed spec fn wf(&self) -> bool {
        &&& graph_node_seq(self.edges) == Seq::new(self.nodes@.len(), |i: int| i as u64)
        &&& forall|e: (u64, u64)|
            #[trigger] self.edge_views().contains(e) ==> e.0 < self.nodes@.len() && e.1
                < self.nodes@.len()
        &&& forall|i: int, j: int|
            0 <= i < j < self.node_views().len() ==> !node_key_eq(
                #[trigger] self.node_views()[i],
                #[trigger] self.node_views()[j],
            )
    }

    pub fn new() -> (r: Self)
        ensures
            r.wf(),
            r.node_views() == Seq::<DependencyNodeView>::empty(),
            r.edge_views() == Seq::<(u64, u64)>::empty(),
    {
        let r = Self { nodes: Vec::new(), edges: graph_new() };
        proof {
            assert(r.node_views() =~= Seq::<DependencyNodeView>::empty());
            assert(graph_node_seq(r.edges) =~= Seq::new(r.nodes@.len(), |i: int| i as u64));
        }
        r
    }

    /// How many nodes the table holds.
    pub fn node_count(&self) -> (r: usize)
        ensures
            r == self.node_views().len(),
    {
        self.nodes.len()
    }

    /// The node at a table index.
    pub fn node_at(&self, id: usize) -> (r: &ToolchainComponentDependencyNode)
        requires
            id < self.node_views().len(),
        ensures
            r@ == self.node_views()[id as int],
    {
        &self.nodes[id]
    }

    /// Finds the table index of a node with the same identity key.
    fn find_node(&self, node: &ToolchainComponentDependencyNode) -> (r: Option<usize>)
        ensures
            match r {
                Some(i) => spec_find_node(self.node_views(), node@) == Some(i as int),
                None => spec_find_node(self.node_views(), node@) is None,
            },
    {
        let ghost whole = self.node_views();
        let mut i: usize = 0;
        proof {
            assert(whole.skip(0) =~= whole);
            lemma_spec_find_node_valid(whole, node@);
        }
        loop
            invariant
                whole == self.node_views(),
                i <= self.nodes.len(),
                whole.len() == self.nodes@.len(),
                match spec_find_node(whole, node@) {
                    Some(k) => i <= k && spec_find_node(whole.skip(i as int), node@) == Some(
                        k - i,
                    ),
                    None => spec_find_node(whole.skip(i as int), node@) is None,
                },
            decreases self.nodes.len() - i,
        {
            if i == self.nodes.len() {
                proof {
                    assert(whole.skip(i as int).len() == 0);
                }
                return None;
            }
            proof {
                assert(whole.skip(i as int)[0] == whole[i as int]);
                assert(whole.skip(i as int).drop_first() =~= whole.skip(i as int + 1));
                lemma_spec_find_node_valid(whole.skip(i as int + 1), node@);
            }
            if self.nodes[i] == *node {
                return Some(i);
            }
            i = i + 1;
        }
    }

    /// Interns a node: an existing node with the same identity key is
    /// reused, otherwise the node is appended to the table and to the edge
    /// structure. Returns the node's table index.
    pub fn add_node(&mut self, node: ToolchainComponentDependencyNode) -> (id: u64)
        requires
            old(self).wf(),
        ensures
            final(self).wf(),
            final(self).edge_views() == old(self).edge_views(),
            match spec_find_node(old(self).node_views(), node@) {
                Some(i) => id == i && final(self).node_views() == old(self).node_views(),
                None => id == old(self).node_views().len() && final(self).node_views() == old(
                    self,
                ).node_views().push(node@),
            },
            id < final(self).node_views().len(),
            node_key_eq(final(self).node_views()[id as int], node@),
    {
        match self.find_node(&node) {
            Some(i) => {
                proof {
                    lemma_spec_find_node_valid(self.node_views(), node@);
                }
                i as u64
            },
            None => {
                let id = self.nodes.len();
                let ghost old_nodes = self.node_views();
                self.nodes.push(node);
                graph_add_node(&mut self.edges, id as u64);
                proof {
                    let new_nodes = self.node_views();
                    assert(new_nodes =~= old_nodes.push(node@));
                    assert(forall|k: int|
                        0 <= k < old_nodes.len() ==> #[trigger] new_nodes[k] == old_nodes[k]);
                    assert(new_nodes[old_nodes.len() as int] == node@);
                    let old_ids = Seq::new(old_nodes.len(), |i: int| i as u64);
                    let new_ids = Seq::new(new_nodes.len(), |i: int| i as u64);
                    assert(!old_ids.contains(id as u64)) by {
                        assert(forall|k: int|
                            0 <= k < old_ids.len() ==> #[trigger] old_ids[k] == k as u64);
                        if old_ids.contains(id as u64) {
                            let k = choose|k: int|
                                0 <= k < old_ids.len() && old_ids[k] == id as u64;
                            assert(k as u64 == id as u64);
                        }
                    }
                    assert(graph_node_seq(self.edges) =~= new_ids);
                    lemma_spec_find_node_none(old_nodes, node@);
                    assert(self.edge_views() == old(self).edge_views());
                    assert(forall|e: (u64, u64)|
                        #[trigger] self.edge_views().contains(e) ==> old(
                            self,
                        ).edge_views().contains(e));
                }
                id as u64
            },
        }
    }

    /// Adds the directed edge `a -> b` between two interned nodes; an edge
    /// already present stays as it is.
    pub fn add_edge(&mut self, a: u64, b: u64)
        requires
            old(self).wf(),
            a < old(self).node_views().len(),
            b < old(self).node_views().len(),
        ensures
            final(self).wf(),
            final(self).node_views() == old(self).node_views(),
            final(self).edge_views() == edge_insert(old(self).edge_views(), (a, b)),
    {
        proof {
            let ids = Seq::new(self.nodes@.len(), |i: int| i as u64);
            assert(ids[a as int] == a);
            assert(ids[b as int] == b);
            assert(ids.contains(a));
            assert(ids.contains(b));
        }
        let ghost old_edges = self.edge_views();
        graph_add_edge(&mut self.edges, a, b);
        proof {
            let new_edges = self.edge_views();
            assert(forall|e: (u64, u64)|
                #[trigger] new_edges.contains(e) ==> old_edges.contains(e) || e == (a, b)) by {
                if !old_edges.contains((a, b)) {
                    assert(forall|k: int|
                        0 <= k < old_edges.len() ==> #[trigger] new_edges[k] == old_edges[k]);
                }
            }
        }
    }

    /// Whether the directed edge `a -> b` is in the graph.
    pub fn contains_edge(&self, a: u64, b: u64) -> (r: bool)
        ensures
            r == self.edge_views().contains((a, b)),
    {
        crate::graph::graph_contains_edge(&self.edges, a, b)
    }

    /// The strongly connected components of the graph, as groups of table
    /// indices, dependencies first.
    pub fn postorder_scc_ids(&self) -> (r: Vec<Vec<u64>>)
        requires
            self.wf(),
        ensures
            r.deep_view() == tarjan_postorder(
                Seq::new(self.node_views().len(), |i: int| i as u64),
                self.edge_views(),
            ),
            r.deep_view().flatten().to_multiset() == Seq::new(
                self.node_views().len(),
                |i: int| i as u64,
            ).to_multiset(),
            forall|i: int| 0 <= i < r.deep_view().len() ==> #[trigger] r.deep_view()[i].len() > 0,
            forall|i: int, j: int, e: (u64, u64)|
                0 <= i < r.deep_view().len() && 0 <= j < r.deep_view().len()
                    && self.edge_views().contains(e) && #[trigger] r.deep_view()[i].contains(e.0)
                    && #[trigger] r.deep_view()[j].contains(e.1) ==> j <= i,
            forall|i: int, x: u64, y: u64|
                0 <= i < r.deep_view().len() && #[trigger] r.deep_view()[i].contains(x)
                    && #[trigger] r.deep_view()[i].contains(y) ==> crate::graph::reachable(
                    self.edge_views(),
                    x,
                    y,
                ),
            forall|i: int, j: int, x: u64, y: u64|
                0 <= i < r.deep_view().len() && 0 <= j < r.deep_view().len()
                    && #[trigger] r.deep_view()[i].contains(x)
                    && #[trigger] r.deep_view()[j].contains(y) && crate::graph::reachable(
                    self.edge_views(),
                    x,
                    y,
                ) && crate::graph::reachable(self.edge_views(), y, x) ==> i == j,
    {
        graph_postorder_sccs(&self.edges)
    }
}

/// The owning component recorded for a target name in the reverse index:
/// entries are appended in pass order, and a later manifest entry under the
/// same name overrides an earlier one.
pub open spec fn reverse_index_lookup(
    v: Seq<(Seq<char>, ToolchainComponent)>,
    name: Seq<char>,
) -> Option<ToolchainComponent>
    decreases v.len(),
{
    if v.len() == 0 {
        None
    } else if v.last().0 == name {
        Some(v.last().1)
    } else {
        reverse_index_lookup(v.drop_last(), name)
    }
}

/// The postorder component groups of an analysis, as node views: the
/// strongly connected components' identifier groups, each identifier
/// replaced by the node it refers to.
pub open spec fn spec_postorder_groups(a: &ToolchainAnalysis) -> Seq<Seq<DependencyNodeView>> {
    let ids = tarjan_postorder(
        Seq::new(a.dependencies.node_views().len(), |i: int| i as u64),
        a.dependencies.edge_views(),
    );
    Seq::new(
        ids.len(),
        |g: int| Seq::new(ids[g].len(), |j: int| a.dependencies.node_views()[ids[g][j] as int]),
    )
}

impl ToolchainAnalysis {
    /// Builds the analysis for a component set from the loaded manifests:
    /// the set is sorted and deduplicated for deterministic iteration, then
    /// the dependency pass runs over it. The whole result is a function of
    /// the manifests and the component set alone.
    pub fn new(
        handle: ToolchainHandle,
        components: &Vec<ToolchainComponent>,
        manifests: &Vec<(ToolchainComponent, crate::manifest::ToolchainComponentManifest)>,
    ) -> (r: Result<Self, crate::node::Error>)
        requires
            crate::node::manifests_ordered(manifests@),
        ensures
            match r {
                Ok(a) => {
                    &&& a.handle == handle
                    &&& a.components@ == crate::toolchain::sort_components(components@)
                    &&& a.dependencies.wf()
                    &&& {
                        let pass = crate::dependencies::spec_analysis_result(
                            crate::node::manifests_view(manifests@),
                            crate::toolchain::sort_components(components@),
                        );
                        pass is Ok && crate::dependencies::analysis_matches(&a, pass->Ok_0)
                    }
                },
                Err(e) => {
                    let pass = crate::dependencies::spec_analysis_result(
                        crate::node::manifests_view(manifests@),
                        crate::toolchain::sort_components(components@),
                    );
                    pass is Err && crate::dependencies::err_matches(e, pass->Err_0)
                },
            },
    {
        let sorted = crate::toolchain::sorted_component_set(components);
        let mut analysis = ToolchainAnalysis {
            handle,
            components: sorted,
            components_targets: Vec::new(),
            targets_component: Vec::new(),
            dependencies: ToolchainComponentDependencyGraph::new(),
            external_targets: Vec::new(),
        };
        match analysis.analyse_dependencies(manifests) {
            Ok(()) => Ok(analysis),
            Err(e) => Err(e),
        }
    }

    /// Looks up the owning component of a target name in the reverse
    /// index; the last recorded entry under the name wins.
    pub fn target_component(&self, name: &str) -> (r: Option<ToolchainComponent>)
        ensures
            r == reverse_index_lookup(
                crate::dependencies::targets_component_view(self.targets_component@),
                name@,
            ),
    {
        let ghost whole = crate::dependencies::targets_component_view(self.targets_component@);
        let mut i: usize = self.targets_component.len();
        proof {
            assert(whole.take(whole.len() as int) =~= whole);
        }
        loop
            invariant
                whole == crate::dependencies::targets_component_view(self.targets_component@),
                whole.len() == self.targets_component@.len(),
                i <= self.targets_component.len(),
                reverse_index_lookup(whole, name@) == reverse_index_lookup(
                    whole.take(i as int),
                    name@,
                ),
            decreases i,
        {
            if i == 0 {
                proof {
                    assert(whole.take(0).len() == 0);
                }
                return None;
            }
            proof {
                assert(whole.take(i as int).last() == whole[i as int - 1]);
                assert(whole[i as int - 1] == (
                    self.targets_component@[i as int - 1].0@,
                    self.targets_component@[i as int - 1].1,
                ));
            }
            if crate::strutil::str_eq(self.targets_component[i - 1].0.as_str(), name) {
                return Some(self.targets_component[i - 1].1);
            }
            proof {
                assert(whole.take(i as int).drop_last() =~= whole.take(i as int - 1));
            }
            i = i - 1;
        }
    }

    /// The strongly connected components of the dependency graph, in
    /// postorder (dependency-first, reverse topological) order: for every
    /// edge, the target's group comes no later than the source's group. A
    /// group of one node is a simple dependency; a larger group is a true
    /// link cycle that must be resolved as one unit.
    pub fn dependencies_postorder_sccs(&self) -> (r: Vec<
        Vec<ToolchainComponentDependencyNode>,
    >)
        requires
            self.dependencies.wf(),
        ensures
            ({
                let ids = tarjan_postorder(
                    Seq::new(self.dependencies.node_views().len(), |i: int| i as u64),
                    self.dependencies.edge_views(),
                );
                &&& r@.len() == ids.len()
                &&& forall|i: int|
                    0 <= i < ids.len() ==> (#[trigger] r@[i])@.len() == ids[i].len() && ids[i].len()
                        > 0
                &&& forall|i: int, j: int|
                    0 <= i < ids.len() && 0 <= j < ids[i].len() ==> (#[trigger] ids[i][j])
                        < self.dependencies.node_views().len() && r@[i]@[j]@
                        == self.dependencies.node_views()[ids[i][j] as int]
                &&& forall|i: int, j: int, e: (u64, u64)|
                    0 <= i < ids.len() && 0 <= j < ids.len()
                        && self.dependencies.edge_views().contains(e)
                        && #[trigger] ids[i].contains(e.0) && #[trigger] ids[j].contains(e.1)
                        ==> j <= i
                &&& forall|i: int, x: u64, y: u64|
                    0 <= i < ids.len() && #[trigger] ids[i].contains(x)
                        && #[trigger] ids[i].contains(y) ==> crate::graph::reachable(
                        self.dependencies.edge_views(),
                        x,
                        y,
                    )
                &&& forall|i: int, j: int, x: u64, y: u64|
                    0 <= i < ids.len() && 0 <= j < ids.len() && #[trigger] ids[i].contains(x)
                        && #[trigger] ids[j].contains(y) && crate::graph::reachable(
                        self.dependencies.edge_views(),
                        x,
                        y,
                    ) && crate::graph::reachable(self.dependencies.edge_views(), y, x) ==> i == j
            }),
            crate::generation::sccs_view(r@) == spec_postorder_groups(self),
    {
        let ids = self.dependencies.postorder_scc_ids();
        let total = self.dependencies.node_count();
        proof {
            lemma_scc_ids_in_range(&self.dependencies, ids.deep_view());
        }
        let mut out: Vec<Vec<ToolchainComponentDependencyNode>> = Vec::new();
        let mut i: usize = 0;
        while i < ids.len()
            invariant
                ids.deep_view() == tarjan_postorder(
                    Seq::new(self.dependencies.node_views().len(), |k: int| k as u64),
                    self.dependencies.edge_views(),
                ),
                ids.deep_view().len() == ids@.len(),
                forall|k: int| 0 <= k < ids@.len() ==> (#[trigger] ids@[k])@ == ids.deep_view()[k],
                forall|k: int, j: int|
                    0 <= k < ids.deep_view().len() && 0 <= j < ids.deep_view()[k].len() ==> (
                    #[trigger] ids.deep_view()[k][j]) < self.dependencies.node_views().len(),
                total == self.dependencies.node_views().len(),
                i <= ids.len(),
                out@.len() == i,
                forall|k: int|
                    0 <= k < i ==> (#[trigger] out@[k])@.len() == ids.deep_view()[k].len(),
                forall|k: int, j: int|
                    0 <= k < i && 0 <= j < ids.deep_view()[k].len() ==> (#[trigger] out@[k]@[j])@
                        == self.dependencies.node_views()[ids.deep_view()[k][j] as int],
            decreases ids.len() - i,
        {
            let group = &ids[i];
            let mut nodes: Vec<ToolchainComponentDependencyNode> = Vec::new();
            let mut j: usize = 0;
            while j < group.len()
                invariant
                    group@ == ids.deep_view()[i as int],
                    i < ids.deep_view().len(),
                    total == self.dependencies.node_views().len(),
                    forall|k: int, l: int|
                        0 <= k < ids.deep_view().len() && 0 <= l < ids.deep_view()[k].len() ==> (
                        #[trigger] ids.deep_view()[k][l]) < self.dependencies.node_views().len(),
                    j <= group.len(),
                    nodes@.len() == j,
                    forall|l: int|
                        0 <= l < j ==> (#[trigger] nodes@[l])@
                            == self.dependencies.node_views()[group@[l] as int],
                decreases group.len() - j,
            {
                let id = group[j];
                proof {
                    assert(ids.deep_view()[i as int][j as int]
                        < self.dependencies.node_views().len());
                    assert(id < total as u64);
                }
                nodes.push(clone_node(self.dependencies.node_at(id as usize)));
                j = j + 1;
            }
            out.push(nodes);
            i = i + 1;
        }
        proof {
            let groups = spec_postorder_groups(self);
            assert forall|g: int|
                0 <= g < out@.len() implies #[trigger] crate::generation::sccs_view(out@)[g]
                == groups[g] by {
                assert(crate::generation::node_group_view(out@[g]@) =~= groups[g]);
            }
            assert(crate::generation::sccs_view(out@) =~= groups);
        }
        out
    }
}

/// Copies a dependency node; the copy holds the same values.
pub fn clone_node(n: &ToolchainComponentDependencyNode) -> (r: ToolchainComponentDependencyNode)
    ensures
        r@ == n@,
{
    ToolchainComponentDependencyNode {
        component: n.component,
        name: n.name.clone(),
        kind: n.kind,
        interface_include_directories: crate::node::clone_string_vec(
            &n.interface_include_directories,
        ),
        interface_link_directories: crate::node::clone_string_vec(&n.interface_link_directories),
        interface_link_libraries: crate::node::clone_string_vec(&n.interface_link_libraries),
        location: match &n.location {
            Some(l) => Some(l.clone()),
            None => None,
        },
    }
}

/// A member of one inner sequence is a member of the flattened sequence.
proof fn lemma_flatten_member(s: Seq<Seq<u64>>, i: int, x: u64)
    requires
        0 <= i < s.len(),
        s[i].contains(x),
    ensures
        s.flatten().contains(x),
    decreases s.len(),
{
    if i == 0 {
        let k = choose|k: int| 0 <= k < s[0].len() && s[0][k] == x;
        assert(s.flatten() == s.first() + s.drop_first().flatten());
        assert(s.flatten()[k] == x);
    } else {
        lemma_flatten_member(s.drop_first(), i - 1, x);
        let rest = s.drop_first().flatten();
        let k = choose|k: int| 0 <= k < rest.len() && rest[k] == x;
        assert(s.flatten() == s.first() + rest);
        assert(s.flatten()[s.first().len() + k] == x);
    }
}

/// Every identifier in a postorder component group refers into the node
/// table.
pub proof fn lemma_scc_ids_in_range(g: &ToolchainComponentDependencyGraph, sccs: Seq<Seq<u64>>)
    requires
        sccs.flatten().to_multiset() == Seq::new(
            g.node_views().len(),
            |i: int| i as u64,
        ).to_multiset(),
    ensures
        forall|i: int, j: int|
            0 <= i < sccs.len() && 0 <= j < sccs[i].len() ==> #[trigger] sccs[i][j]
                < g.node_views().len(),
{
    broadcast use vstd::seq_lib::group_to_multiset_ensures;

    let ids = Seq::new(g.node_views().len(), |i: int| i as u64);
    assert forall|i: int, j: int|
        0 <= i < sccs.len() && 0 <= j < sccs[i].len() implies #[trigger] sccs[i][j]
        < g.node_views().len() by {
        let x = sccs[i][j];
        assert(sccs[i].contains(x));
        lemma_flatten_member(sccs, i, x);
        assert(sccs.flatten().to_multiset().count(x) > 0);
        assert(ids.to_multiset().count(x) > 0);
        assert(ids.contains(x));
        let k = choose|k: int| 0 <= k < ids.len() && ids[k] == x;
        assert(ids[k] == k as u64);
    }
}

/// A found index refers to a key-equal node inside the sequence.
proof fn lemma_spec_find_node_valid(s: Seq<DependencyNodeView>, v: DependencyNodeView)
    ensures
        match spec_find_node(s, v) {
            Some(i) => 0 <= i < s.len() && node_key_eq(s[i], v),
            None => true,
        },
    decreases s.len(),
{
    if s.len() > 0 && !node_key_eq(s[0], v) {
        lemma_spec_find_node_valid(s.drop_first(), v);
    }
}

/// When nothing is found, no element is key-equal.
proof fn lemma_spec_find_node_none(s: Seq<DependencyNodeView>, v: DependencyNodeView)
    requires
        spec_find_node(s, v) is None,
    ensures
        forall|i: int| 0 <= i < s.len() ==> !node_key_eq(#[trigger] s[i], v),
    decreases s.len(),
{
    if s.len() > 0 {
        lemma_spec_find_node_none(s.drop_first(), v);
        assert(forall|i: int| 1 <= i < s.len() ==> s.drop_first()[i - 1] == #[trigger] s[i]);
    }
}

} // verus!
