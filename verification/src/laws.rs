//! The laws the library states across several functions.
//!
//! The external-exclusion law: a name recorded as an external target never
//! appears as a build-configuration option key, and never appears among an
//! option's plain dependency values. Its two halves are
//! [`lemma_option_keys_exclude_external`], which follows the analysis pass
//! — owned nodes are declared in some loaded manifest, external names are
//! exactly the references no loaded manifest declares — and
//! [`lemma_option_dependencies_exclude_external`], which follows the
//! generator's filter.
//!
//! The wrapper-unwrapping law: a `$<LINK_ONLY:...>`-wrapped reference is
//! treated exactly like the bare reference
//! ([`lemma_link_only_resolves_like_bare`], [`lemma_libs_unwrap_equal`]).
//!
//! Idempotence and determinism: resolution and the whole analysis pass are
//! functions of their inputs ([`lemma_classification_idempotent`],
//! [`lemma_analysis_deterministic`]).

use vstd::prelude::*;

use crate::component::ToolchainComponent;
use crate::dependencies::{
    initial_pass,
    manifest_for,
    memo_lookup,
    spec_analyse,
    spec_analysis_result,
    spec_process_component,
    spec_process_entries,
    spec_process_entry,
    spec_process_lib,
    spec_process_libs,
    DependencyPassView,
};
use crate::generation::{
    feature_insert,
    spec_deps_from_libs,
    spec_features_dirs_group,
};
use crate::manifest::{lookup_target, ImportedTargetView};
use crate::node::{
    find_declaration,
    spec_node_of_target,
    spec_resolve,
    DependencyNodeView,
};
use crate::strutil::{insert_sorted_unique, seq_contains_string};

verus! {

/// Whether some loaded manifest declares a target under `name`.
pub open spec fn declared_in(
    ms: Seq<(ToolchainComponent, Seq<(Seq<char>, ImportedTargetView)>)>,
    name: Seq<char>,
) -> bool {
    exists|j: int| 0 <= j < ms.len() && lookup_target(#[trigger] ms[j].1, name) is Some
}

/// A name some entry of a manifest is declared under is found by lookup.
proof fn lemma_lookup_target_exists(
    entries: Seq<(Seq<char>, ImportedTargetView)>,
    name: Seq<char>,
)
    requires
        exists|k: int| 0 <= k < entries.len() && (#[trigger] entries[k]).0 == name,
    ensures
        lookup_target(entries, name) is Some,
    decreases entries.len(),
{
    if entries[0].0 != name {
        let k = choose|k: int| 0 <= k < entries.len() && (#[trigger] entries[k]).0 == name;
        assert(entries.drop_first()[k - 1] == entries[k]);
        lemma_lookup_target_exists(entries.drop_first(), name);
    }
}

/// Declaration search succeeds exactly when some loaded manifest declares
/// the name.
proof fn lemma_find_declaration_iff(
    ms: Seq<(ToolchainComponent, Seq<(Seq<char>, ImportedTargetView)>)>,
    name: Seq<char>,
)
    ensures
        find_declaration(ms, name) is Some <==> declared_in(ms, name),
    decreases ms.len(),
{
    if ms.len() > 0 {
        lemma_find_declaration_iff(ms.drop_first(), name);
        if lookup_target(ms[0].1, name) is Some {
            assert(declared_in(ms, name));
        } else {
            if declared_in(ms.drop_first(), name) {
                let j = choose|j: int|
                    0 <= j < ms.drop_first().len() && lookup_target(
                        #[trigger] ms.drop_first()[j].1,
                        name,
                    ) is Some;
                assert(ms[j + 1] == ms.drop_first()[j]);
                assert(declared_in(ms, name));
            }
            if declared_in(ms, name) {
                let j = choose|j: int|
                    0 <= j < ms.len() && lookup_target(#[trigger] ms[j].1, name) is Some;
                assert(j != 0);
                assert(ms.drop_first()[j - 1] == ms[j]);
                assert(declared_in(ms.drop_first(), name));
            }
        }
    }
}

/// A resolved reference owns a component exactly when some loaded manifest
/// declares it.
proof fn lemma_resolve_component(
    ms: Seq<(ToolchainComponent, Seq<(Seq<char>, ImportedTargetView)>)>,
    name: Seq<char>,
    v: DependencyNodeView,
)
    requires
        spec_resolve(ms, name) == Ok::<DependencyNodeView, ()>(v),
    ensures
        v.component is Some ==> declared_in(ms, name),
        v.component is None ==> !declared_in(ms, name),
{
    lemma_find_declaration_iff(ms, name);
    match find_declaration(ms, name) {
        Some((c, tv)) => {
            match tv {
                ImportedTargetView::Inherent { inherent_target, .. } => {
                    assert(v == spec_node_of_target(c, name, inherent_target));
                },
                ImportedTargetView::Adjacent { .. } => {},
            }
        },
        None => {},
    }
}

/// Membership after sorted-unique insertion.
proof fn lemma_insert_sorted_unique_contains(s: Seq<Seq<char>>, x: Seq<char>, y: Seq<char>)
    ensures
        insert_sorted_unique(s, x).contains(y) <==> s.contains(y) || y == x,
    decreases s.len(),
{
    if s.len() == 0 {
        assert(insert_sorted_unique(s, x) == seq![x]);
        assert(insert_sorted_unique(s, x).contains(y) <==> y == x) by {
            if y == x {
                assert(insert_sorted_unique(s, x)[0] == x);
            }
        }
    } else if x == s[0] {
        if s.contains(y) || y == x {
            assert(insert_sorted_unique(s, x).contains(y));
        }
    } else if crate::strutil::lex_lt(x, s[0]) {
        let r = seq![x] + s;
        assert(insert_sorted_unique(s, x) == r);
        if s.contains(y) {
            let k = choose|k: int| 0 <= k < s.len() && s[k] == y;
            assert(r[k + 1] == y);
        }
        if y == x {
            assert(r[0] == y);
        }
        if r.contains(y) {
            let k = choose|k: int| 0 <= k < r.len() && r[k] == y;
            if k == 0 {
            } else {
                assert(s[k - 1] == y);
            }
        }
    } else {
        lemma_insert_sorted_unique_contains(s.drop_first(), x, y);
        let rest = insert_sorted_unique(s.drop_first(), x);
        let r = seq![s[0]] + rest;
        assert(insert_sorted_unique(s, x) == r);
        if r.contains(y) {
            let k = choose|k: int| 0 <= k < r.len() && r[k] == y;
            if k == 0 {
                assert(s[0] == y);
            } else {
                assert(rest[k - 1] == y);
                assert(rest.contains(y));
            }
        }
        if s.contains(y) {
            let k = choose|k: int| 0 <= k < s.len() && s[k] == y;
            if k == 0 {
                assert(r[0] == y);
            } else {
                assert(s.drop_first()[k - 1] == y);
                assert(s.drop_first().contains(y));
                let m = choose|m: int| 0 <= m < rest.len() && rest[m] == y;
                assert(r[m + 1] == y);
            }
        }
        if y == x {
            let m = choose|m: int| 0 <= m < rest.len() && rest[m] == y;
            assert(r[m + 1] == y);
        }
    }
}

/// The pass invariant: every owned node's name is declared in some loaded
/// manifest, and every external name resolves to an unowned node.
pub open spec fn pass_inv(
    ms: Seq<(ToolchainComponent, Seq<(Seq<char>, ImportedTargetView)>)>,
    st: DependencyPassView,
) -> bool {
    &&& forall|i: int|
        0 <= i < st.nodes.len() && (#[trigger] st.nodes[i]).component is Some ==> declared_in(
            ms,
            st.nodes[i].name,
        )
    &&& forall|x: Seq<char>|
        #[trigger] st.external.contains(x) ==> (spec_resolve(ms, x) matches Ok(v)
            && v.component is None)
}

proof fn lemma_process_lib_inv(
    ms: Seq<(ToolchainComponent, Seq<(Seq<char>, ImportedTargetView)>)>,
    st: DependencyPassView,
    src: u64,
    lib_raw: Seq<char>,
    st2: DependencyPassView,
)
    requires
        pass_inv(ms, st),
        spec_process_lib(ms, st, src, lib_raw) == Ok::<DependencyPassView, crate::dependencies::PassErrView>(st2),
    ensures
        pass_inv(ms, st2),
{
    let lib = crate::node::unwrap_link_only(lib_raw);
    match memo_lookup(st.memo, lib) {
        Some(_) => {},
        None => {
            let v = spec_resolve(ms, lib)->Ok_0;
            lemma_resolve_component(ms, lib, v);
            assert(forall|i: int|
                0 <= i < st2.nodes.len() && (#[trigger] st2.nodes[i]).component is Some
                    ==> declared_in(ms, st2.nodes[i].name)) by {
                assert(forall|i: int| 0 <= i < st.nodes.len() ==> st2.nodes[i] == st.nodes[i]);
            }
            if v.component is None {
                assert(forall|x: Seq<char>|
                    #[trigger] st2.external.contains(x) ==> (spec_resolve(ms, x) matches Ok(w)
                        && w.component is None)) by {
                    assert(st2.external == insert_sorted_unique(st.external, lib));
                    assert(forall|x: Seq<char>|
                        #[trigger] insert_sorted_unique(st.external, lib).contains(x)
                            ==> st.external.contains(x) || x == lib) by {
                        assert forall|x: Seq<char>|
                            #[trigger] insert_sorted_unique(st.external, lib).contains(x)
                                implies st.external.contains(x) || x == lib by {
                            lemma_insert_sorted_unique_contains(st.external, lib, x);
                        }
                    }
                }
            }
        },
    }
}

proof fn lemma_process_libs_inv(
    ms: Seq<(ToolchainComponent, Seq<(Seq<char>, ImportedTargetView)>)>,
    st: DependencyPassView,
    src: u64,
    libs: Seq<Seq<char>>,
    st2: DependencyPassView,
)
    requires
        pass_inv(ms, st),
        spec_process_libs(ms, st, src, libs) == Ok::<DependencyPassView, crate::dependencies::PassErrView>(st2),
    ensures
        pass_inv(ms, st2),
    decreases libs.len(),
{
    if libs.len() > 0 {
        let mid = spec_process_lib(ms, st, src, libs[0])->Ok_0;
        lemma_process_lib_inv(ms, st, src, libs[0], mid);
        lemma_process_libs_inv(ms, mid, src, libs.drop_first(), st2);
    }
}

proof fn lemma_process_entry_inv(
    ms: Seq<(ToolchainComponent, Seq<(Seq<char>, ImportedTargetView)>)>,
    st: DependencyPassView,
    component: ToolchainComponent,
    name: Seq<char>,
    tv: ImportedTargetView,
    acc: Seq<(Seq<char>, crate::manifest::InherentTargetView)>,
    st2: DependencyPassView,
    acc2: Seq<(Seq<char>, crate::manifest::InherentTargetView)>,
)
    requires
        pass_inv(ms, st),
        declared_in(ms, name),
        spec_process_entry(ms, st, component, name, tv, acc) == Ok::<
            (DependencyPassView, Seq<(Seq<char>, crate::manifest::InherentTargetView)>),
            crate::dependencies::PassErrView,
        >((st2, acc2)),
    ensures
        pass_inv(ms, st2),
{
    match tv {
        ImportedTargetView::Adjacent { .. } => {},
        ImportedTargetView::Inherent { inherent_target: t, .. } => {
            let st1 = DependencyPassView {
                targets_component: st.targets_component.push((name, component)),
                ..st
            };
            assert(pass_inv(ms, st1));
            if crate::dependencies::is_link_source(t) {
                let v = spec_node_of_target(component, name, t);
                let found = crate::analysis::spec_find_node(st1.nodes, v);
                let id: u64 = if found is Some {
                    found->0 as u64
                } else {
                    st1.nodes.len() as u64
                };
                let nodes2 = if found is Some {
                    st1.nodes
                } else {
                    st1.nodes.push(v)
                };
                let stn = DependencyPassView { nodes: nodes2, ..st1 };
                assert(pass_inv(ms, stn)) by {
                    assert(forall|i: int|
                        0 <= i < st1.nodes.len() ==> nodes2[i] == st1.nodes[i]);
                }
                lemma_process_libs_inv(
                    ms,
                    stn,
                    id,
                    crate::dependencies::link_libs_of(t),
                    st2,
                );
            }
        },
    }
}

proof fn lemma_process_entries_inv(
    ms: Seq<(ToolchainComponent, Seq<(Seq<char>, ImportedTargetView)>)>,
    st: DependencyPassView,
    component: ToolchainComponent,
    entries: Seq<(Seq<char>, ImportedTargetView)>,
    whole: Seq<(Seq<char>, ImportedTargetView)>,
    acc: Seq<(Seq<char>, crate::manifest::InherentTargetView)>,
    st2: DependencyPassView,
    acc2: Seq<(Seq<char>, crate::manifest::InherentTargetView)>,
)
    requires
        pass_inv(ms, st),
        exists|j: int| 0 <= j < ms.len() && (#[trigger] ms[j]).1 == whole,
        forall|k: int|
            #![trigger entries[k]]
            0 <= k < entries.len() ==> exists|m: int|
                0 <= m < whole.len() && (#[trigger] whole[m]) == entries[k],
        spec_process_entries(ms, st, component, entries, acc) == Ok::<
            (DependencyPassView, Seq<(Seq<char>, crate::manifest::InherentTargetView)>),
            crate::dependencies::PassErrView,
        >((st2, acc2)),
    ensures
        pass_inv(ms, st2),
    decreases entries.len(),
{
    if entries.len() > 0 {
        assert(declared_in(ms, entries[0].0)) by {
            let j = choose|j: int| 0 <= j < ms.len() && (#[trigger] ms[j]).1 == whole;
            assert(exists|m: int|
                0 <= m < whole.len() && (#[trigger] whole[m]) == entries[0]);
            lemma_lookup_target_exists(whole, entries[0].0);
            assert(lookup_target(ms[j].1, entries[0].0) is Some);
        }
        let step = spec_process_entry(ms, st, component, entries[0].0, entries[0].1, acc);
        let (stm, accm) = step->Ok_0;
        lemma_process_entry_inv(ms, st, component, entries[0].0, entries[0].1, acc, stm, accm);
        assert(forall|k: int|
            #![trigger entries.drop_first()[k]]
            0 <= k < entries.drop_first().len() ==> exists|m: int|
                0 <= m < whole.len() && (#[trigger] whole[m]) == entries.drop_first()[k]) by {
            assert(forall|k: int|
                0 <= k < entries.drop_first().len() ==> entries.drop_first()[k] == entries[k + 1]);
        }
        lemma_process_entries_inv(
            ms,
            stm,
            component,
            entries.drop_first(),
            whole,
            accm,
            st2,
            acc2,
        );
    }
}

proof fn lemma_manifest_for_member(
    ms: Seq<(ToolchainComponent, Seq<(Seq<char>, ImportedTargetView)>)>,
    c: ToolchainComponent,
)
    requires
        manifest_for(ms, c) is Some,
    ensures
        exists|j: int| 0 <= j < ms.len() && (#[trigger] ms[j]).1 == manifest_for(ms, c)->0,
    decreases ms.len(),
{
    if ms.len() > 0 && ms[0].0 != c {
        lemma_manifest_for_member(ms.drop_first(), c);
        let j = choose|j: int|
            0 <= j < ms.drop_first().len() && (#[trigger] ms.drop_first()[j]).1 == manifest_for(
                ms.drop_first(),
                c,
            )->0;
        assert(ms[j + 1] == ms.drop_first()[j]);
    }
}

proof fn lemma_process_component_inv(
    ms: Seq<(ToolchainComponent, Seq<(Seq<char>, ImportedTargetView)>)>,
    st: DependencyPassView,
    component: ToolchainComponent,
    st2: DependencyPassView,
)
    requires
        pass_inv(ms, st),
        spec_process_component(ms, st, component) == Ok::<DependencyPassView, crate::dependencies::PassErrView>(st2),
    ensures
        pass_inv(ms, st2),
{
    let entries = manifest_for(ms, component)->0;
    lemma_manifest_for_member(ms, component);
    assert(forall|k: int|
        #![trigger entries[k]]
        0 <= k < entries.len() ==> exists|m: int|
            0 <= m < entries.len() && (#[trigger] entries[m]) == entries[k]);
    let step = spec_process_entries(
        ms,
        st,
        component,
        entries,
        Seq::<(Seq<char>, crate::manifest::InherentTargetView)>::empty(),
    );
    let (stm, accm) = step->Ok_0;
    lemma_process_entries_inv(
        ms,
        st,
        component,
        entries,
        entries,
        Seq::empty(),
        stm,
        accm,
    );
}

proof fn lemma_analyse_inv(
    ms: Seq<(ToolchainComponent, Seq<(Seq<char>, ImportedTargetView)>)>,
    st: DependencyPassView,
    comps: Seq<ToolchainComponent>,
    st2: DependencyPassView,
)
    requires
        pass_inv(ms, st),
        spec_analyse(ms, st, comps) == Ok::<DependencyPassView, crate::dependencies::PassErrView>(st2),
    ensures
        pass_inv(ms, st2),
    decreases comps.len(),
{
    if comps.len() > 0 {
        let mid = spec_process_component(ms, st, comps[0])->Ok_0;
        lemma_process_component_inv(ms, st, comps[0], mid);
        lemma_analyse_inv(ms, mid, comps.drop_first(), st2);
    }
}

/// The analysis half of the external-exclusion law: in a completed
/// analysis, no owned node's name — the names that become option keys —
/// is recorded as an external target.
pub proof fn lemma_owned_names_not_external(
    ms: Seq<(ToolchainComponent, Seq<(Seq<char>, ImportedTargetView)>)>,
    comps: Seq<ToolchainComponent>,
    st: DependencyPassView,
)
    requires
        spec_analysis_result(ms, comps) == Ok::<DependencyPassView, crate::dependencies::PassErrView>(st),
    ensures
        forall|i: int|
            0 <= i < st.nodes.len() && (#[trigger] st.nodes[i]).component is Some
                ==> !st.external.contains(st.nodes[i].name),
{
    assert(pass_inv(ms, initial_pass()));
    lemma_analyse_inv(ms, initial_pass(), comps, st);
    assert forall|i: int|
        0 <= i < st.nodes.len() && (#[trigger] st.nodes[i]).component is Some
        implies !st.external.contains(st.nodes[i].name) by {
        let name = st.nodes[i].name;
        if st.external.contains(name) {
            let v = spec_resolve(ms, name)->Ok_0;
            lemma_resolve_component(ms, name, v);
        }
    }
}

/// The generator half of the external-exclusion law: the sorted,
/// deduplicated option dependencies drawn from a node's interface link
/// libraries never hold a name from the external set — the generator
/// filters them out.
pub proof fn lemma_option_dependencies_exclude_external(
    external: Seq<Seq<char>>,
    acc: Seq<Seq<char>>,
    libs: Seq<Seq<char>>,
)
    requires
        forall|x: Seq<char>| #[trigger] acc.contains(x) ==> !seq_contains_string(external, x),
    ensures
        forall|x: Seq<char>|
            #[trigger] spec_deps_from_libs(external, acc, libs).contains(x)
                ==> !seq_contains_string(external, x),
    decreases libs.len(),
{
    if libs.len() == 0 {
        assert(spec_deps_from_libs(external, acc, libs) == acc);
    } else {
        let lib = crate::node::unwrap_link_only(libs[0]);
        let acc2 = if seq_contains_string(external, lib) {
            acc
        } else {
            insert_sorted_unique(acc, lib)
        };
        assert(spec_deps_from_libs(external, acc, libs) == spec_deps_from_libs(
            external,
            acc2,
            libs.drop_first(),
        ));
        assert(forall|x: Seq<char>|
            #[trigger] acc2.contains(x) ==> !seq_contains_string(external, x)) by {
            if !seq_contains_string(external, lib) {
                assert forall|x: Seq<char>| #[trigger] acc2.contains(x) implies !seq_contains_string(
                    external,
                    x,
                ) by {
                    lemma_insert_sorted_unique_contains(acc, lib, x);
                }
            }
        }
        lemma_option_dependencies_exclude_external(external, acc2, libs.drop_first());
    }
}

/// Keys after an option-table insertion.
proof fn lemma_feature_insert_keys(
    s: Seq<(Seq<char>, Seq<Seq<char>>)>,
    k: Seq<char>,
    val: Seq<Seq<char>>,
    j: int,
)
    requires
        0 <= j < feature_insert(s, k, val).len(),
    ensures
        feature_insert(s, k, val)[j].0 == k || (exists|m: int|
            0 <= m < s.len() && (#[trigger] s[m]).0 == feature_insert(s, k, val)[j].0),
    decreases s.len(),
{
    let r = feature_insert(s, k, val);
    if s.len() == 0 {
    } else if k == s[0].0 {
        if j > 0 {
            assert(r[j] == s.drop_first()[j - 1]);
            assert(s[j] == s.drop_first()[j - 1]);
        }
    } else if crate::strutil::lex_lt(k, s[0].0) {
        if j > 0 {
            assert(r[j] == s[j - 1]);
        }
    } else {
        if j == 0 {
            assert(r[0] == s[0]);
        } else {
            let rest = feature_insert(s.drop_first(), k, val);
            assert(r[j] == rest[j - 1]);
            lemma_feature_insert_keys(s.drop_first(), k, val, j - 1);
            if rest[j - 1].0 != k {
                let m = choose|m: int|
                    0 <= m < s.drop_first().len() && (#[trigger] s.drop_first()[m]).0 == rest[j
                        - 1].0;
                assert(s[m + 1] == s.drop_first()[m]);
            }
        }
    }
}

/// Keys after folding one component group: each key was a key before, or
/// is the name of an owned node of the group.
pub proof fn lemma_features_group_keys(
    external: Seq<Seq<char>>,
    crate_deps: Seq<(ToolchainComponent, Seq<Seq<char>>)>,
    features: Seq<(Seq<char>, Seq<Seq<char>>)>,
    dirs: Seq<Seq<char>>,
    group: Seq<DependencyNodeView>,
    j: int,
)
    requires
        0 <= j < spec_features_dirs_group(external, crate_deps, features, dirs, group).0.len(),
    ensures
        ({
            let key = spec_features_dirs_group(external, crate_deps, features, dirs, group).0[j].0;
            (exists|m: int| 0 <= m < features.len() && (#[trigger] features[m]).0 == key)
                || (exists|g: int|
                0 <= g < group.len() && (#[trigger] group[g]).component is Some && group[g].name
                    == key)
        }),
    decreases group.len(),
{
    if group.len() == 0 {
        let key = spec_features_dirs_group(external, crate_deps, features, dirs, group).0[j].0;
        assert(spec_features_dirs_group(external, crate_deps, features, dirs, group).0
            == features);
        assert(features[j].0 == key);
    } else {
        let n = group[0];
        match n.component {
            None => {
                assert(spec_features_dirs_group(external, crate_deps, features, dirs, group)
                    == spec_features_dirs_group(
                    external,
                    crate_deps,
                    features,
                    dirs,
                    group.drop_first(),
                ));
                lemma_features_group_keys(
                    external,
                    crate_deps,
                    features,
                    dirs,
                    group.drop_first(),
                    j,
                );
                let key = spec_features_dirs_group(
                    external,
                    crate_deps,
                    features,
                    dirs,
                    group,
                ).0[j].0;
                if exists|g: int|
                    0 <= g < group.drop_first().len() && (
                    #[trigger] group.drop_first()[g]).component is Some
                        && group.drop_first()[g].name == key {
                    let g = choose|g: int|
                        0 <= g < group.drop_first().len() && (
                        #[trigger] group.drop_first()[g]).component is Some
                            && group.drop_first()[g].name == key;
                    assert(group[g + 1] == group.drop_first()[g]);
                }
            },
            Some(c) => {
                let f2 = feature_insert(
                    features,
                    n.name,
                    crate::generation::spec_node_feature_deps(external, crate_deps, c, n),
                );
                let d2 = crate::generation::insert_all_sorted_unique(
                    dirs,
                    n.interface_link_directories,
                );
                assert(spec_features_dirs_group(external, crate_deps, features, dirs, group)
                    == spec_features_dirs_group(
                    external,
                    crate_deps,
                    f2,
                    d2,
                    group.drop_first(),
                ));
                lemma_features_group_keys(
                    external,
                    crate_deps,
                    f2,
                    d2,
                    group.drop_first(),
                    j,
                );
                let key = spec_features_dirs_group(
                    external,
                    crate_deps,
                    features,
                    dirs,
                    group,
                ).0[j].0;
                if exists|m: int| 0 <= m < f2.len() && (#[trigger] f2[m]).0 == key {
                    let m = choose|m: int| 0 <= m < f2.len() && (#[trigger] f2[m]).0 == key;
                    lemma_feature_insert_keys(
                        features,
                        n.name,
                        crate::generation::spec_node_feature_deps(external, crate_deps, c, n),
                        m,
                    );
                } else {
                    let g = choose|g: int|
                        0 <= g < group.drop_first().len() && (
                        #[trigger] group.drop_first()[g]).component is Some
                            && group.drop_first()[g].name == key;
                    assert(group[g + 1] == group.drop_first()[g]);
                }
            },
        }
    }
}

/// The external-exclusion law, assembled: after a completed analysis whose
/// groups draw their nodes from the analysis node table, folding any group
/// starting from an empty option table yields only keys that are names of
/// owned nodes — names never recorded as external.
pub proof fn lemma_option_keys_exclude_external(
    ms: Seq<(ToolchainComponent, Seq<(Seq<char>, ImportedTargetView)>)>,
    comps: Seq<ToolchainComponent>,
    st: DependencyPassView,
    crate_deps: Seq<(ToolchainComponent, Seq<Seq<char>>)>,
    group: Seq<DependencyNodeView>,
)
    requires
        spec_analysis_result(ms, comps) == Ok::<DependencyPassView, crate::dependencies::PassErrView>(st),
        forall|g: int|
            0 <= g < group.len() ==> exists|k: int|
                0 <= k < st.nodes.len() && (#[trigger] group[g]) == st.nodes[k],
    ensures
        forall|j: int|
            0 <= j < spec_features_dirs_group(
                st.external,
                crate_deps,
                Seq::empty(),
                Seq::empty(),
                group,
            ).0.len() ==> !st.external.contains(
                #[trigger] spec_features_dirs_group(
                    st.external,
                    crate_deps,
                    Seq::empty(),
                    Seq::empty(),
                    group,
                ).0[j].0,
            ),
{
    lemma_owned_names_not_external(ms, comps, st);
    let result = spec_features_dirs_group(
        st.external,
        crate_deps,
        Seq::empty(),
        Seq::empty(),
        group,
    );
    assert forall|j: int| 0 <= j < result.0.len() implies !st.external.contains(
        result.0[j].0,
    ) by {
        lemma_features_group_keys(
            st.external,
            crate_deps,
            Seq::empty(),
            Seq::empty(),
            group,
            j,
        );
        let key = result.0[j].0;
        let g = choose|g: int|
            0 <= g < group.len() && (#[trigger] group[g]).component is Some && group[g].name
                == key;
        let k = choose|k: int| 0 <= k < st.nodes.len() && (#[trigger] group[g]) == st.nodes[k];
    }
}

/// A generator-expression wrapper around a reference unwraps to exactly
/// the wrapped text.
proof fn lemma_unwrap_of_wrapped(lib: Seq<char>)
    ensures
        crate::node::unwrap_link_only("$<LINK_ONLY:"@ + lib + ">"@) == lib,
{
    let p = "$<LINK_ONLY:"@;
    let suf = ">"@;
    let w = p + lib + suf;
    assert(w.take(p.len() as int) =~= p);
    assert(crate::strutil::has_prefix(w, p));
    let tail = w.skip(p.len() as int);
    assert(tail =~= lib + suf);
    assert(tail.skip(tail.len() - suf.len()) =~= suf);
    assert(crate::strutil::has_suffix(tail, suf));
    assert(tail.take(w.len() - p.len() - suf.len()) =~= lib);
}

/// The wrapper-unwrapping law, per reference: a link-library entry wrapped
/// in `$<LINK_ONLY:...>` is resolved, classified, interned, connected, and
/// recorded as external exactly as the bare entry is. (The target tables
/// and the source node's own recorded property lists keep the manifest
/// text as written, so the law is about the reference's treatment.)
pub proof fn lemma_link_only_resolves_like_bare(
    ms: Seq<(ToolchainComponent, Seq<(Seq<char>, ImportedTargetView)>)>,
    st: DependencyPassView,
    src: u64,
    lib: Seq<char>,
)
    requires
        crate::node::unwrap_link_only(lib) == lib,
    ensures
        spec_process_lib(ms, st, src, "$<LINK_ONLY:"@ + lib + ">"@) == spec_process_lib(
            ms,
            st,
            src,
            lib,
        ),
{
    lemma_unwrap_of_wrapped(lib);
}

/// The wrapper-unwrapping law, lifted over a source node's whole reference
/// list: two lists whose entries unwrap pairwise to the same references
/// are processed to the same state.
pub proof fn lemma_libs_unwrap_equal(
    ms: Seq<(ToolchainComponent, Seq<(Seq<char>, ImportedTargetView)>)>,
    st: DependencyPassView,
    src: u64,
    libs1: Seq<Seq<char>>,
    libs2: Seq<Seq<char>>,
)
    requires
        libs1.len() == libs2.len(),
        forall|k: int|
            0 <= k < libs1.len() ==> crate::node::unwrap_link_only(#[trigger] libs1[k])
                == crate::node::unwrap_link_only(libs2[k]),
    ensures
        spec_process_libs(ms, st, src, libs1) == spec_process_libs(ms, st, src, libs2),
    decreases libs1.len(),
{
    if libs1.len() > 0 {
        assert(spec_process_lib(ms, st, src, libs1[0]) == spec_process_lib(
            ms,
            st,
            src,
            libs2[0],
        ));
        match spec_process_lib(ms, st, src, libs1[0]) {
            Err(_) => {},
            Ok(st2) => {
                assert(forall|k: int|
                    0 <= k < libs1.drop_first().len() ==> crate::node::unwrap_link_only(
                        #[trigger] libs1.drop_first()[k],
                    ) == crate::node::unwrap_link_only(libs2.drop_first()[k])) by {
                    assert(forall|k: int|
                        0 <= k < libs1.drop_first().len() ==> libs1.drop_first()[k] == libs1[k + 1]
                            && libs2.drop_first()[k] == libs2[k + 1]);
                }
                lemma_libs_unwrap_equal(ms, st2, src, libs1.drop_first(), libs2.drop_first());
            },
        }
    }
}

/// Idempotent classification: resolving the same library reference twice
/// against the same loaded manifests yields the same node, and in
/// particular nodes equal under node identity. Resolution is a function of
/// the reference and the manifests alone, which is what the resolver's
/// contract pins its result to.
pub proof fn lemma_classification_idempotent(
    ms: Seq<(ToolchainComponent, Seq<(Seq<char>, ImportedTargetView)>)>,
    name: Seq<char>,
    v1: DependencyNodeView,
    v2: DependencyNodeView,
)
    requires
        spec_resolve(ms, name) == Ok::<DependencyNodeView, ()>(v1),
        spec_resolve(ms, name) == Ok::<DependencyNodeView, ()>(v2),
    ensures
        v1 == v2,
        crate::node::node_key_eq(v1, v2),
{
}

/// Determinism: the whole analysis pass is a function of the manifest set
/// and the component set — two passes over the same inputs produce the
/// identical node table, edge table, and external set. Each analysis run's
/// contract pins its result to this one function.
pub proof fn lemma_analysis_deterministic(
    ms: Seq<(ToolchainComponent, Seq<(Seq<char>, ImportedTargetView)>)>,
    comps: Seq<ToolchainComponent>,
    st1: DependencyPassView,
    st2: DependencyPassView,
)
    requires
        spec_analysis_result(ms, comps) == Ok::<
            DependencyPassView,
            crate::dependencies::PassErrView,
        >(st1),
        spec_analysis_result(ms, comps) == Ok::<
            DependencyPassView,
            crate::dependencies::PassErrView,
        >(st2),
    ensures
        st1.nodes == st2.nodes,
        st1.edges == st2.edges,
        st1.external == st2.external,
{
}

} // verus!
