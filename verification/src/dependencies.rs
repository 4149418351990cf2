//! The dependency analysis pass: walks every loaded component's manifest in
//! component order, interns a node for each static or interface library,
//! adds an edge to every library it interface-links, and records references
//! with no owning component as external.

use vstd::prelude::*;

use crate::analysis::{edge_insert, spec_find_node, ToolchainAnalysis};
use crate::component::ToolchainComponent;
use crate::manifest::{
    ImportedTargetView,
    InherentTargetView,
    ManifestCMakeImportedTarget,
    ManifestCMakeInherentTarget,
    ToolchainComponentManifest,
};
use crate::node::{
    manifests_view,
    spec_node_of_target,
    spec_resolve,
    unwrap_link_only,
    unwrap_link_only_exec,
    DependencyNodeView,
    Error,
    ToolchainComponentDependencyNode,
};
use crate::strutil::{insert_sorted_unique, str_to_string};

verus! {

/// The state the analysis pass threads along: the accumulated tables, the
/// graph contents, the external set, and the per-pass memo table of
/// resolved references.
pub ghost struct DependencyPassView {
    pub components_targets: Seq<(ToolchainComponent, Seq<(Seq<char>, InherentTargetView)>)>,
    pub targets_component: Seq<(Seq<char>, ToolchainComponent)>,
    pub nodes: Seq<DependencyNodeView>,
    pub edges: Seq<(u64, u64)>,
    pub external: Seq<Seq<char>>,
    pub memo: Seq<(Seq<char>, u64)>,
}

/// How an analysis pass fails.
pub ghost enum PassErrView {
    NotInherent { name: Seq<char> },
    ComponentNotLoaded { component: ToolchainComponent },
}

/// The memoized node index for a reference, if the reference was resolved
/// before in this pass.
pub open spec fn memo_lookup(m: Seq<(Seq<char>, u64)>, name: Seq<char>) -> Option<u64>
    decreases m.len(),
{
    if m.len() == 0 {
        None
    } else if m[0].0 == name {
        Some(m[0].1)
    } else {
        memo_lookup(m.drop_first(), name)
    }
}

/// The manifest loaded for a component, if any.
pub open spec fn manifest_for(
    ms: Seq<(ToolchainComponent, Seq<(Seq<char>, ImportedTargetView)>)>,
    c: ToolchainComponent,
) -> Option<Seq<(Seq<char>, ImportedTargetView)>>
    decreases ms.len(),
{
    if ms.len() == 0 {
        None
    } else if ms[0].0 == c {
        Some(ms[0].1)
    } else {
        manifest_for(ms.drop_first(), c)
    }
}

/// The interface link libraries of an inherent target.
pub open spec fn link_libs_of(t: InherentTargetView) -> Seq<Seq<char>> {
    match t {
        InherentTargetView::Executable { interface_link_libraries, .. } => interface_link_libraries,
        InherentTargetView::InterfaceLibrary { interface_link_libraries, .. } => interface_link_libraries,
        InherentTargetView::SharedLibrary { interface_link_libraries, .. } => interface_link_libraries,
        InherentTargetView::StaticLibrary { interface_link_libraries, .. } => interface_link_libraries,
    }
}

/// Whether a target contributes outgoing edges: only static and interface
/// libraries need transitive link-order resolution.
pub open spec fn is_link_source(t: InherentTargetView) -> bool {
    match t {
        InherentTargetView::InterfaceLibrary { .. } => true,
        InherentTargetView::StaticLibrary { .. } => true,
        _ => false,
    }
}

/// Processing one interface-link-library reference of the source node
/// `src`: unwrap a generator-expression wrapper, resolve the reference
/// (memoized per pass), intern the node, add the edge, and record an
/// unowned reference as external.
pub open spec fn spec_process_lib(
    ms: Seq<(ToolchainComponent, Seq<(Seq<char>, ImportedTargetView)>)>,
    st: DependencyPassView,
    src: u64,
    lib_raw: Seq<char>,
) -> Result<DependencyPassView, PassErrView> {
    let lib = unwrap_link_only(lib_raw);
    match memo_lookup(st.memo, lib) {
        Some(id) => Ok(
            DependencyPassView {
                edges: edge_insert(st.edges, (src, id)),
                components_targets: st.components_targets,
                targets_component: st.targets_component,
                nodes: st.nodes,
                external: st.external,
                memo: st.memo,
            },
        ),
        None => match spec_resolve(ms, lib) {
            Err(_) => Err(PassErrView::NotInherent { name: lib }),
            Ok(v) => {
                let found = spec_find_node(st.nodes, v);
                let id: u64 = if found is Some {
                    found->0 as u64
                } else {
                    st.nodes.len() as u64
                };
                let nodes2 = if found is Some {
                    st.nodes
                } else {
                    st.nodes.push(v)
                };
                Ok(
                    DependencyPassView {
                        components_targets: st.components_targets,
                        targets_component: st.targets_component,
                        nodes: nodes2,
                        edges: edge_insert(st.edges, (src, id)),
                        external: if v.component is None {
                            insert_sorted_unique(st.external, lib)
                        } else {
                            st.external
                        },
                        memo: st.memo.push((lib, id)),
                    },
                )
            },
        },
    }
}

/// Processing a source node's references left to right.
pub open spec fn spec_process_libs(
    ms: Seq<(ToolchainComponent, Seq<(Seq<char>, ImportedTargetView)>)>,
    st: DependencyPassView,
    src: u64,
    libs: Seq<Seq<char>>,
) -> Result<DependencyPassView, PassErrView>
    decreases libs.len(),
{
    if libs.len() == 0 {
        Ok(st)
    } else {
        match spec_process_lib(ms, st, src, libs[0]) {
            Err(e) => Err(e),
            Ok(st2) => spec_process_libs(ms, st2, src, libs.drop_first()),
        }
    }
}

/// Processing one imported-target entry: a placeholder entry is skipped; an
/// inherent entry is recorded in the reverse index, contributes its node
/// and edges when it is a static or interface library, and is recorded in
/// the per-component target table.
pub open spec fn spec_process_entry(
    ms: Seq<(ToolchainComponent, Seq<(Seq<char>, ImportedTargetView)>)>,
    st: DependencyPassView,
    component: ToolchainComponent,
    name: Seq<char>,
    tv: ImportedTargetView,
    acc: Seq<(Seq<char>, InherentTargetView)>,
) -> Result<(DependencyPassView, Seq<(Seq<char>, InherentTargetView)>), PassErrView> {
    match tv {
        ImportedTargetView::Adjacent { .. } => Ok((st, acc)),
        ImportedTargetView::Inherent { inherent_target: t, .. } => {
            let st1 = DependencyPassView {
                targets_component: st.targets_component.push((name, component)),
                components_targets: st.components_targets,
                nodes: st.nodes,
                edges: st.edges,
                external: st.external,
                memo: st.memo,
            };
            let after = if is_link_source(t) {
                let v = spec_node_of_target(component, name, t);
                let found = spec_find_node(st1.nodes, v);
                let id: u64 = if found is Some {
                    found->0 as u64
                } else {
                    st1.nodes.len() as u64
                };
                let nodes2 = if found is Some {
                    st1.nodes
                } else {
                    st1.nodes.push(v)
                };
                let st2 = DependencyPassView {
                    nodes: nodes2,
                    components_targets: st1.components_targets,
                    targets_component: st1.targets_component,
                    edges: st1.edges,
                    external: st1.external,
                    memo: st1.memo,
                };
                spec_process_libs(ms, st2, id, link_libs_of(t))
            } else {
                Ok(st1)
            };
            match after {
                Err(e) => Err(e),
                Ok(st3) => Ok((st3, acc.push((name, t)))),
            }
        },
    }
}

/// Processing a manifest's entries left to right.
pub open spec fn spec_process_entries(
    ms: Seq<(ToolchainComponent, Seq<(Seq<char>, ImportedTargetView)>)>,
    st: DependencyPassView,
    component: ToolchainComponent,
    entries: Seq<(Seq<char>, ImportedTargetView)>,
    acc: Seq<(Seq<char>, InherentTargetView)>,
) -> Result<(DependencyPassView, Seq<(Seq<char>, InherentTargetView)>), PassErrView>
    decreases entries.len(),
{
    if entries.len() == 0 {
        Ok((st, acc))
    } else {
        match spec_process_entry(ms, st, component, entries[0].0, entries[0].1, acc) {
            Err(e) => Err(e),
            Ok((st2, acc2)) => spec_process_entries(ms, st2, component, entries.drop_first(), acc2),
        }
    }
}

/// Processing one component: its manifest must be loaded; its entries are
/// processed in declaration order and its target table is appended.
pub open spec fn spec_process_component(
    ms: Seq<(ToolchainComponent, Seq<(Seq<char>, ImportedTargetView)>)>,
    st: DependencyPassView,
    component: ToolchainComponent,
) -> Result<DependencyPassView, PassErrView> {
    match manifest_for(ms, component) {
        None => Err(PassErrView::ComponentNotLoaded { component }),
        Some(entries) => match spec_process_entries(
            ms,
            st,
            component,
            entries,
            Seq::<(Seq<char>, InherentTargetView)>::empty(),
        ) {
            Err(e) => Err(e),
            Ok((st2, acc)) => Ok(
                DependencyPassView {
                    components_targets: st2.components_targets.push((component, acc)),
                    targets_component: st2.targets_component,
                    nodes: st2.nodes,
                    edges: st2.edges,
                    external: st2.external,
                    memo: st2.memo,
                },
            ),
        },
    }
}

/// Processing the components left to right, in component order.
pub open spec fn spec_analyse(
    ms: Seq<(ToolchainComponent, Seq<(Seq<char>, ImportedTargetView)>)>,
    st: DependencyPassView,
    comps: Seq<ToolchainComponent>,
) -> Result<DependencyPassView, PassErrView>
    decreases comps.len(),
{
    if comps.len() == 0 {
        Ok(st)
    } else {
        match spec_process_component(ms, st, comps[0]) {
            Err(e) => Err(e),
            Ok(st2) => spec_analyse(ms, st2, comps.drop_first()),
        }
    }
}

/// The empty pass state.
pub open spec fn initial_pass() -> DependencyPassView {
    DependencyPassView {
        components_targets: Seq::empty(),
        targets_component: Seq::empty(),
        nodes: Seq::empty(),
        edges: Seq::empty(),
        external: Seq::empty(),
        memo: Seq::empty(),
    }
}

/// What the whole analysis pass computes from the manifests and the
/// component set: a function of its inputs alone.
pub open spec fn spec_analysis_result(
    ms: Seq<(ToolchainComponent, Seq<(Seq<char>, ImportedTargetView)>)>,
    comps: Seq<ToolchainComponent>,
) -> Result<DependencyPassView, PassErrView> {
    spec_analyse(ms, initial_pass(), comps)
}

/// The view of a per-component target table.
pub open spec fn targets_list_view(l: Seq<(String, ManifestCMakeInherentTarget)>) -> Seq<
    (Seq<char>, InherentTargetView),
> {
    Seq::new(l.len(), |i: int| (l[i].0@, l[i].1@))
}

/// The view of the components-to-targets table.
pub open spec fn components_targets_view(
    v: Seq<(ToolchainComponent, Vec<(String, ManifestCMakeInherentTarget)>)>,
) -> Seq<(ToolchainComponent, Seq<(Seq<char>, InherentTargetView)>)> {
    Seq::new(v.len(), |i: int| (v[i].0, targets_list_view(v[i].1@)))
}

/// The view of the target-to-component reverse index.
pub open spec fn targets_component_view(v: Seq<(String, ToolchainComponent)>) -> Seq<
    (Seq<char>, ToolchainComponent),
> {
    Seq::new(v.len(), |i: int| (v[i].0@, v[i].1))
}

/// The view of the memo table.
pub open spec fn memo_view(m: Seq<(String, u64)>) -> Seq<(Seq<char>, u64)> {
    Seq::new(m.len(), |i: int| (m[i].0@, m[i].1))
}

/// The pass state an analysis under construction and a memo table stand for.
pub open spec fn pass_view(a: &ToolchainAnalysis, memo: Seq<(Seq<char>, u64)>) -> DependencyPassView {
    DependencyPassView {
        components_targets: components_targets_view(a.components_targets@),
        targets_component: targets_component_view(a.targets_component@),
        nodes: a.dependencies.node_views(),
        edges: a.dependencies.edge_views(),
        external: a.external_targets.deep_view(),
        memo: memo,
    }
}

/// Pass well-formedness: the graph is well-formed and every memoized index
/// refers into the node table.
pub open spec fn pass_wf(a: &ToolchainAnalysis, memo: Seq<(Seq<char>, u64)>) -> bool {
    &&& a.dependencies.wf()
    &&& forall|k: int| 0 <= k < memo.len() ==> (#[trigger] memo[k]).1 < a.dependencies.node_views().len()
}

/// Whether an error value reports the failure the pass view describes.
pub open spec fn err_matches(e: Error, ev: PassErrView) -> bool {
    match ev {
        PassErrView::NotInherent { name } => e matches Error::TargetNotInherentInManifests {
            name: n,
        } && n@ == name,
        PassErrView::ComponentNotLoaded { component } => e matches Error::ComponentNotLoaded {
            component: c,
        } && c == component,
    }
}

/// A successful memo lookup returns an index the table vouches for.
proof fn lemma_memo_lookup_bound(m: Seq<(Seq<char>, u64)>, name: Seq<char>, bound: int)
    requires
        forall|k: int| 0 <= k < m.len() ==> (#[trigger] m[k]).1 < bound,
        memo_lookup(m, name) is Some,
    ensures
        memo_lookup(m, name)->0 < bound,
    decreases m.len(),
{
    if m.len() > 0 && m[0].0 != name {
        assert(forall|k: int|
            0 <= k < m.drop_first().len() ==> (#[trigger] m.drop_first()[k]).1 < bound) by {
            assert(forall|k: int|
                0 <= k < m.drop_first().len() ==> m.drop_first()[k] == m[k + 1]);
        }
        lemma_memo_lookup_bound(m.drop_first(), name, bound);
    }
}

proof fn lemma_memo_lookup_shift(m: Seq<(Seq<char>, u64)>, name: Seq<char>, i: int)
    requires
        0 <= i < m.len(),
        m[i].0 != name,
        memo_lookup(m, name) == memo_lookup(m.skip(i), name),
    ensures
        memo_lookup(m, name) == memo_lookup(m.skip(i + 1), name),
{
    assert(m.skip(i)[0] == m[i]);
    assert(m.skip(i).drop_first() =~= m.skip(i + 1));
}

/// Finds a memoized resolution for `name`.
fn memo_find(memo: &Vec<(String, u64)>, name: &str) -> (r: Option<u64>)
    ensures
        r == memo_lookup(memo_view(memo@), name@),
{
    let ghost mv = memo_view(memo@);
    let mut i: usize = 0;
    proof {
        assert(mv.skip(0) =~= mv);
    }
    loop
        invariant
            mv == memo_view(memo@),
            i <= memo.len(),
            mv.len() == memo@.len(),
            memo_lookup(mv, name@) == memo_lookup(mv.skip(i as int), name@),
        decreases memo.len() - i,
    {
        if i == memo.len() {
            proof {
                assert(mv.skip(i as int).len() == 0);
            }
            return None;
        }
        proof {
            assert(mv.skip(i as int)[0] == mv[i as int]);
        }
        if crate::strutil::str_eq(memo[i].0.as_str(), name) {
            return Some(memo[i].1);
        }
        proof {
            lemma_memo_lookup_shift(mv, name@, i as int);
        }
        i = i + 1;
    }
}

proof fn lemma_manifest_for_shift(
    ms: Seq<(ToolchainComponent, Seq<(Seq<char>, ImportedTargetView)>)>,
    c: ToolchainComponent,
    i: int,
)
    requires
        0 <= i < ms.len(),
        ms[i].0 != c,
        manifest_for(ms, c) == manifest_for(ms.skip(i), c),
    ensures
        manifest_for(ms, c) == manifest_for(ms.skip(i + 1), c),
{
    assert(ms.skip(i)[0] == ms[i]);
    assert(ms.skip(i).drop_first() =~= ms.skip(i + 1));
}

/// Finds the manifest loaded for a component.
fn manifest_find<'a>(
    manifests: &'a Vec<(ToolchainComponent, ToolchainComponentManifest)>,
    c: ToolchainComponent,
) -> (r: Option<&'a ToolchainComponentManifest>)
    ensures
        match r {
            Some(m) => manifest_for(manifests_view(manifests@), c) == Some(m@),
            None => manifest_for(manifests_view(manifests@), c) is None,
        },
{
    let ghost ms = manifests_view(manifests@);
    let mut i: usize = 0;
    proof {
        assert(ms.skip(0) =~= ms);
    }
    loop
        invariant
            ms == manifests_view(manifests@),
            i <= manifests.len(),
            ms.len() == manifests@.len(),
            manifest_for(ms, c) == manifest_for(ms.skip(i as int), c),
        decreases manifests.len() - i,
    {
        if i == manifests.len() {
            proof {
                assert(ms.skip(i as int).len() == 0);
            }
            return None;
        }
        proof {
            assert(ms.skip(i as int)[0] == ms[i as int]);
        }
        if manifests[i].0 == c {
            return Some(&manifests[i].1);
        }
        proof {
            lemma_manifest_for_shift(ms, c, i as int);
        }
        i = i + 1;
    }
}

/// Processes the interface-link-library references of one source node.
fn process_libs(
    a: &mut ToolchainAnalysis,
    memo: &mut Vec<(String, u64)>,
    manifests: &Vec<(ToolchainComponent, ToolchainComponentManifest)>,
    src_id: u64,
    libs: &Vec<String>,
) -> (r: Result<(), Error>)
    requires
        crate::node::manifests_ordered(manifests@),
        pass_wf(old(a), memo_view(old(memo)@)),
        src_id < old(a).dependencies.node_views().len(),
    ensures
        pass_wf(final(a), memo_view(final(memo)@)),
        final(a).handle == old(a).handle,
        final(a).components@ == old(a).components@,
        old(a).dependencies.node_views().len() <= final(a).dependencies.node_views().len(),
        match spec_process_libs(
            manifests_view(manifests@),
            pass_view(old(a), memo_view(old(memo)@)),
            src_id,
            libs.deep_view(),
        ) {
            Ok(st) => r is Ok && pass_view(final(a), memo_view(final(memo)@)) == st,
            Err(ev) => r matches Err(e) && err_matches(e, ev),
        },
{
    let ghost ms = manifests_view(manifests@);
    let ghost st0 = pass_view(old(a), memo_view(old(memo)@));
    let ghost libsv = libs.deep_view();
    let mut li: usize = 0;
    proof {
        assert(libsv.skip(0) =~= libsv);
    }
    loop
        invariant
            crate::node::manifests_ordered(manifests@),
            ms == manifests_view(manifests@),
            st0 == pass_view(old(a), memo_view(old(memo)@)),
            libsv == libs.deep_view(),
            libsv.len() == libs@.len(),
            li <= libs.len(),
            pass_wf(a, memo_view(memo@)),
            a.handle == old(a).handle,
            a.components@ == old(a).components@,
            old(a).dependencies.node_views().len() <= a.dependencies.node_views().len(),
            src_id < a.dependencies.node_views().len(),
            spec_process_libs(ms, st0, src_id, libsv) == spec_process_libs(
                ms,
                pass_view(a, memo_view(memo@)),
                src_id,
                libsv.skip(li as int),
            ),
        decreases libs.len() - li,
    {
        if li == libs.len() {
            proof {
                assert(libsv.skip(li as int).len() == 0);
            }
            return Ok(());
        }
        let ghost cur = pass_view(a, memo_view(memo@));
        proof {
            assert(libsv.skip(li as int)[0] == libsv[li as int]);
            assert(libsv.skip(li as int).drop_first() =~= libsv.skip(li as int + 1));
            assert(libsv[li as int] == libs@[li as int]@);
        }
        let lib = unwrap_link_only_exec(libs[li].as_str());
        match memo_find(memo, lib) {
            Some(id) => {
                proof {
                    lemma_memo_lookup_bound(
                        memo_view(memo@),
                        lib@,
                        a.dependencies.node_views().len() as int,
                    );
                }
                a.dependencies.add_edge(src_id, id);
                proof {
                    let expected = spec_process_lib(ms, cur, src_id, libsv[li as int]);
                    assert(expected is Ok);
                    assert(pass_view(a, memo_view(memo@)) == expected->Ok_0);
                }
            },
            None => {
                match ToolchainComponentDependencyNode::from_manifests(lib, manifests) {
                    Err(e) => {
                        proof {
                            assert(spec_process_lib(ms, cur, src_id, libsv[li as int])
                                == Err::<DependencyPassView, PassErrView>(
                                PassErrView::NotInherent { name: unwrap_link_only(libsv[li as int]) },
                            ));
                        }
                        return Err(e);
                    },
                    Ok(node) => {
                        let is_ext = match &node.component {
                            None => true,
                            Some(_) => false,
                        };
                        let ghost v = node@;
                        let id = a.dependencies.add_node(node);
                        let ghost mv_before = memo_view(memo@);
                        memo.push((str_to_string(lib), id));
                        proof {
                            assert(memo_view(memo@) =~= mv_before.push((lib@, id)));
                        }
                        a.dependencies.add_edge(src_id, id);
                        if is_ext {
                            crate::strutil::vec_insert_sorted_unique(
                                &mut a.external_targets,
                                str_to_string(lib),
                            );
                        }
                        proof {
                            let expected = spec_process_lib(ms, cur, src_id, libsv[li as int]);
                            assert(expected is Ok);
                            assert(pass_view(a, memo_view(memo@)) == expected->Ok_0);
                        }
                    },
                }
            },
        }
        li = li + 1;
    }
}

/// Processes one component's manifest: records every inherent target, and
/// adds nodes and edges for the static and interface libraries among them.
fn process_component(
    a: &mut ToolchainAnalysis,
    memo: &mut Vec<(String, u64)>,
    manifests: &Vec<(ToolchainComponent, ToolchainComponentManifest)>,
    component: ToolchainComponent,
) -> (r: Result<(), Error>)
    requires
        crate::node::manifests_ordered(manifests@),
        pass_wf(old(a), memo_view(old(memo)@)),
    ensures
        pass_wf(final(a), memo_view(final(memo)@)),
        final(a).handle == old(a).handle,
        final(a).components@ == old(a).components@,
        old(a).dependencies.node_views().len() <= final(a).dependencies.node_views().len(),
        match spec_process_component(
            manifests_view(manifests@),
            pass_view(old(a), memo_view(old(memo)@)),
            component,
        ) {
            Ok(st) => r is Ok && pass_view(final(a), memo_view(final(memo)@)) == st,
            Err(ev) => r matches Err(e) && err_matches(e, ev),
        },
{
    let ghost ms = manifests_view(manifests@);
    let ghost st0 = pass_view(old(a), memo_view(old(memo)@));
    let m = match manifest_find(manifests, component) {
        Some(m) => m,
        None => {
            return Err(Error::ComponentNotLoaded { component });
        },
    };
    let ghost entriesv = m@;
    let mut acc: Vec<(String, ManifestCMakeInherentTarget)> = Vec::new();
    let mut ti: usize = 0;
    proof {
        assert(entriesv.skip(0) =~= entriesv);
        assert(targets_list_view(acc@) =~= Seq::<(Seq<char>, InherentTargetView)>::empty());
    }
    loop
        invariant
            crate::node::manifests_ordered(manifests@),
            ms == manifests_view(manifests@),
            st0 == pass_view(old(a), memo_view(old(memo)@)),
            manifest_for(ms, component) == Some(entriesv),
            entriesv == m@,
            entriesv.len() == m.cmake_properties.imported_targets@.len(),
            ti <= m.cmake_properties.imported_targets.len(),
            pass_wf(a, memo_view(memo@)),
            a.handle == old(a).handle,
            a.components@ == old(a).components@,
            old(a).dependencies.node_views().len() <= a.dependencies.node_views().len(),
            spec_process_entries(
                ms,
                st0,
                component,
                entriesv,
                Seq::<(Seq<char>, InherentTargetView)>::empty(),
            ) == spec_process_entries(
                ms,
                pass_view(a, memo_view(memo@)),
                component,
                entriesv.skip(ti as int),
                targets_list_view(acc@),
            ),
        decreases m.cmake_properties.imported_targets.len() - ti,
    {
        if ti == m.cmake_properties.imported_targets.len() {
            proof {
                assert(entriesv.skip(ti as int).len() == 0);
            }
            let ghost ct_before = components_targets_view(a.components_targets@);
            a.components_targets.push((component, acc));
            proof {
                assert(components_targets_view(a.components_targets@) =~= ct_before.push(
                    (component, targets_list_view(a.components_targets@.last().1@)),
                ));
            }
            return Ok(());
        }
        let ghost cur = pass_view(a, memo_view(memo@));
        proof {
            assert(entriesv.skip(ti as int)[0] == entriesv[ti as int]);
            assert(entriesv.skip(ti as int).drop_first() =~= entriesv.skip(ti as int + 1));
            assert(entriesv[ti as int] == (
                m.cmake_properties.imported_targets@[ti as int].0@,
                m.cmake_properties.imported_targets@[ti as int].1@,
            ));
        }
        let entry = &m.cmake_properties.imported_targets[ti];
        match &entry.1 {
            ManifestCMakeImportedTarget::Adjacent { .. } => {},
            ManifestCMakeImportedTarget::Inherent { inherent_target, .. } => {
                let ghost tc_before = targets_component_view(a.targets_component@);
                a.targets_component.push((str_to_string(entry.0.as_str()), component));
                proof {
                    assert(targets_component_view(a.targets_component@) =~= tc_before.push(
                        (entry.0@, component),
                    ));
                }
                match inherent_target {
                    ManifestCMakeInherentTarget::InterfaceLibrary {
                        interface_link_libraries,
                        ..
                    } => {
                        let node = ToolchainComponentDependencyNode::new(
                            component,
                            entry.0.as_str(),
                            inherent_target,
                        );
                        let src_id = a.dependencies.add_node(node);
                        match process_libs(a, memo, manifests, src_id, interface_link_libraries) {
                            Err(e) => {
                                return Err(e);
                            },
                            Ok(()) => {},
                        }
                    },
                    ManifestCMakeInherentTarget::StaticLibrary {
                        interface_link_libraries,
                        ..
                    } => {
                        let node = ToolchainComponentDependencyNode::new(
                            component,
                            entry.0.as_str(),
                            inherent_target,
                        );
                        let src_id = a.dependencies.add_node(node);
                        match process_libs(a, memo, manifests, src_id, interface_link_libraries) {
                            Err(e) => {
                                return Err(e);
                            },
                            Ok(()) => {},
                        }
                    },
                    _ => {},
                }
                let ghost acc_before = targets_list_view(acc@);
                acc.push((str_to_string(entry.0.as_str()), clone_inherent_target(inherent_target)));
                proof {
                    assert(targets_list_view(acc@) =~= acc_before.push(
                        (entry.0@, inherent_target@),
                    ));
                }
            },
        }
        ti = ti + 1;
    }
}

impl ToolchainAnalysis {
    /// Runs the dependency analysis pass over the loaded manifests, filling
    /// the empty analysis. Fails with `ComponentNotLoaded` when a component
    /// of the set has no manifest, and with `TargetNotInherentInManifests`
    /// when a referenced target is declared only as a placeholder.
    pub fn analyse_dependencies(
        &mut self,
        manifests: &Vec<(ToolchainComponent, ToolchainComponentManifest)>,
    ) -> (r: Result<(), Error>)
        requires
            crate::node::manifests_ordered(manifests@),
            old(self).dependencies.wf(),
            old(self).dependencies.node_views().len() == 0,
            old(self).dependencies.edge_views().len() == 0,
            old(self).components_targets@.len() == 0,
            old(self).targets_component@.len() == 0,
            old(self).external_targets@.len() == 0,
        ensures
            final(self).handle == old(self).handle,
            final(self).components@ == old(self).components@,
            final(self).dependencies.wf(),
            match spec_analysis_result(manifests_view(manifests@), old(self).components@) {
                Ok(st) => r is Ok && analysis_matches(final(self), st),
                Err(ev) => r matches Err(e) && err_matches(e, ev),
            },
    {
        let mut memo: Vec<(String, u64)> = Vec::new();
        let ghost ms = manifests_view(manifests@);
        let ghost comps = self.components@;
        proof {
            assert(memo_view(memo@) =~= Seq::<(Seq<char>, u64)>::empty());
            assert(pass_view(self, memo_view(memo@)).components_targets =~= Seq::<
                (ToolchainComponent, Seq<(Seq<char>, InherentTargetView)>),
            >::empty());
            assert(pass_view(self, memo_view(memo@)).targets_component =~= Seq::<
                (Seq<char>, ToolchainComponent),
            >::empty());
            assert(pass_view(self, memo_view(memo@)).external =~= Seq::<Seq<char>>::empty());
            assert(pass_view(self, memo_view(memo@)).nodes =~= Seq::<DependencyNodeView>::empty());
            assert(pass_view(self, memo_view(memo@)).edges =~= Seq::<(u64, u64)>::empty());
            assert(pass_view(self, memo_view(memo@)) == initial_pass());
            assert(comps.skip(0) =~= comps);
        }
        let mut ci: usize = 0;
        loop
            invariant
                crate::node::manifests_ordered(manifests@),
                ms == manifests_view(manifests@),
                comps == old(self).components@,
                ci <= self.components.len(),
                comps.len() == self.components@.len(),
                pass_wf(self, memo_view(memo@)),
                self.handle == old(self).handle,
                self.components@ == old(self).components@,
                spec_analysis_result(ms, comps) == spec_analyse(
                    ms,
                    pass_view(self, memo_view(memo@)),
                    comps.skip(ci as int),
                ),
            decreases self.components.len() - ci,
        {
            if ci == self.components.len() {
                proof {
                    assert(comps.skip(ci as int).len() == 0);
                }
                return Ok(());
            }
            proof {
                assert(comps.skip(ci as int)[0] == comps[ci as int]);
                assert(comps.skip(ci as int).drop_first() =~= comps.skip(ci as int + 1));
            }
            let component = self.components[ci];
            match process_component(self, &mut memo, manifests, component) {
                Err(e) => {
                    return Err(e);
                },
                Ok(()) => {},
            }
            ci = ci + 1;
        }
    }
}

/// Whether a finished analysis holds exactly the state the pass computed.
pub open spec fn analysis_matches(a: &ToolchainAnalysis, st: DependencyPassView) -> bool {
    &&& components_targets_view(a.components_targets@) == st.components_targets
    &&& targets_component_view(a.targets_component@) == st.targets_component
    &&& a.dependencies.node_views() == st.nodes
    &&& a.dependencies.edge_views() == st.edges
    &&& a.external_targets.deep_view() == st.external
}

/// Copies an inherent target; the copy holds the same character sequences.
pub fn clone_inherent_target(t: &ManifestCMakeInherentTarget) -> (r: ManifestCMakeInherentTarget)
    ensures
        r@ == t@,
{
    match t {
        ManifestCMakeInherentTarget::Executable {
            imported_configurations,
            interface_include_directories,
            interface_link_directories,
            interface_link_libraries,
            location,
            location_config,
            macosx_package_location,
            vs_deployment_location,
        } => ManifestCMakeInherentTarget::Executable {
            imported_configurations: crate::node::clone_string_vec(imported_configurations),
            interface_include_directories: crate::node::clone_string_vec(
                interface_include_directories,
            ),
            interface_link_directories: crate::node::clone_string_vec(interface_link_directories),
            interface_link_libraries: crate::node::clone_string_vec(interface_link_libraries),
            location: location.clone(),
            location_config: location_config.clone(),
            macosx_package_location: macosx_package_location.clone(),
            vs_deployment_location: vs_deployment_location.clone(),
        },
        ManifestCMakeInherentTarget::InterfaceLibrary {
            interface_include_directories,
            interface_link_directories,
            interface_link_libraries,
        } => ManifestCMakeInherentTarget::InterfaceLibrary {
            interface_include_directories: crate::node::clone_string_vec(
                interface_include_directories,
            ),
            interface_link_directories: crate::node::clone_string_vec(interface_link_directories),
            interface_link_libraries: crate::node::clone_string_vec(interface_link_libraries),
        },
        ManifestCMakeInherentTarget::SharedLibrary {
            framework,
            imported_configurations,
            interface_include_directories,
            interface_link_directories,
            interface_link_libraries,
            location,
            location_config,
            macosx_package_location,
            vs_deployment_location,
        } => ManifestCMakeInherentTarget::SharedLibrary {
            framework: *framework,
            imported_configurations: crate::node::clone_string_vec(imported_configurations),
            interface_include_directories: crate::node::clone_string_vec(
                interface_include_directories,
            ),
            interface_link_directories: crate::node::clone_string_vec(interface_link_directories),
            interface_link_libraries: crate::node::clone_string_vec(interface_link_libraries),
            location: location.clone(),
            location_config: location_config.clone(),
            macosx_package_location: macosx_package_location.clone(),
            vs_deployment_location: vs_deployment_location.clone(),
        },
        ManifestCMakeInherentTarget::StaticLibrary {
            framework,
            imported_configurations,
            interface_include_directories,
            interface_link_directories,
            interface_link_libraries,
            location,
            location_config,
            macosx_package_location,
            vs_deployment_location,
        } => ManifestCMakeInherentTarget::StaticLibrary {
            framework: *framework,
            imported_configurations: crate::node::clone_string_vec(imported_configurations),
            interface_include_directories: crate::node::clone_string_vec(
                interface_include_directories,
            ),
            interface_link_directories: crate::node::clone_string_vec(interface_link_directories),
            interface_link_libraries: crate::node::clone_string_vec(interface_link_libraries),
            location: location.clone(),
            location_config: location_config.clone(),
            macosx_package_location: macosx_package_location.clone(),
            vs_deployment_location: vs_deployment_location.clone(),
        },
    }
}

} // verus!
