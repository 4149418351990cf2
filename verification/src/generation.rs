//! Link-configuration generation: walks the dependency graph's strongly
//! connected components in dependency-first order and produces the build
//! configuration options and the ordered linker directives.
//!
//! Directives are pure data — a directive, a feature-gated directive, or a
//! bracketed cycle group — rendered to text by a separate serializer, so
//! the graph logic stays free of output-syntax concerns.

use vstd::prelude::*;

use crate::analysis::ToolchainAnalysis;
use crate::component::ToolchainComponent;
use crate::context::ToolchainContext;
use crate::directories::Directories;
use crate::node::{
    spec_expected_file_name,
    spec_linkage,
    unwrap_link_only,
    unwrap_link_only_exec,
    DependencyNodeView,
    Error,
    ToolchainComponentDependencyNode,
};
use crate::strutil::{
    insert_sorted_unique,
    path_file_name,
    path_parent,
    path_split,
    seq_contains_string,
    str_eq,
    str_to_string,
    vec_contains_string,
    vec_insert_sorted_unique,
};
use crate::system::ToolchainSys;

verus! {

/// One linker directive: the linkage kind, whether the exact on-disk file
/// name must be used, and the name or file name to link.
pub struct LinkDirective {
    pub linkage: String,
    pub verbatim: bool,
    pub name: String,
}

pub ghost struct LinkDirectiveView {
    pub linkage: Seq<char>,
    pub verbatim: bool,
    pub name: Seq<char>,
}

impl View for LinkDirective {
    type V = LinkDirectiveView;

    open spec fn view(&self) -> LinkDirectiveView {
        LinkDirectiveView { linkage: self.linkage@, verbatim: self.verbatim, name: self.name@ }
    }
}

/// A directive together with the build-configuration option that gates it,
/// when it is gated.
pub struct LinkInstruction {
    pub feature_gate: Option<String>,
    pub directive: LinkDirective,
}

pub ghost struct LinkInstructionView {
    pub feature_gate: Option<Seq<char>>,
    pub directive: LinkDirectiveView,
}

impl View for LinkInstruction {
    type V = LinkInstructionView;

    open spec fn view(&self) -> LinkInstructionView {
        LinkInstructionView {
            feature_gate: match &self.feature_gate {
                Some(f) => Some(f@),
                None => None,
            },
            directive: self.directive@,
        }
    }
}

/// How directive emission for one node fails.
pub ghost enum EmitErrView {
    FileNameNotFound,
    ParentDirNotInLinkDirectories,
}

/// What directive a node yields: a node whose kind
/// links nothing yields none; a node with no location links by name; a node
/// with a location must name its parent directory among its interface link
/// directories, and links verbatim — by the literal on-disk file name —
/// exactly when that file name differs from the platform-expected
/// `lib<name>.<extension>`.
pub open spec fn spec_emit(n: DependencyNodeView, feature_gate: bool, sys: ToolchainSys) -> Result<
    Option<LinkInstructionView>,
    EmitErrView,
> {
    match spec_linkage(n.kind) {
        None => Ok(None),
        Some(linkage) => {
            let fg = if feature_gate {
                Some(n.name)
            } else {
                None
            };
            match n.location {
                None => Ok(
                    Some(
                        LinkInstructionView {
                            feature_gate: fg,
                            directive: LinkDirectiveView { linkage, verbatim: false, name: n.name },
                        },
                    ),
                ),
                Some(l) => match path_file_name(l) {
                    None => Err(EmitErrView::FileNameNotFound),
                    Some(fname) => match spec_expected_file_name(n, sys) {
                        None => Ok(None),
                        Some(expected) => {
                            let parent_ok = match path_parent(l) {
                                Some(par) => seq_contains_string(
                                    n.interface_link_directories,
                                    par,
                                ),
                                None => true,
                            };
                            if !parent_ok {
                                Err(EmitErrView::ParentDirNotInLinkDirectories)
                            } else {
                                let verbatim = fname != expected;
                                Ok(
                                    Some(
                                        LinkInstructionView {
                                            feature_gate: fg,
                                            directive: LinkDirectiveView {
                                                linkage,
                                                verbatim,
                                                name: if verbatim {
                                                    fname
                                                } else {
                                                    n.name
                                                },
                                            },
                                        },
                                    ),
                                )
                            }
                        },
                    },
                },
            }
        },
    }
}

/// Whether an error value reports the emission failure for this node.
pub open spec fn emit_err_matches(e: Error, ev: EmitErrView, n: DependencyNodeView) -> bool {
    match ev {
        EmitErrView::FileNameNotFound => e matches Error::TargetFileNameNotFound { name } && name@
            == n.name,
        EmitErrView::ParentDirNotInLinkDirectories => e matches Error
            ::TargetLibraryParentDirNotContainedInLinkLibraries { name, link_libraries } && name@
            == n.name && link_libraries.deep_view() == n.interface_link_libraries,
    }
}

/// The verbatim law: an emitted directive for a located node carries the
/// verbatim modifier and the literal on-disk file name exactly when that
/// file name differs from the platform-expected `lib<name>.<extension>`;
/// otherwise it carries the bare target name.
pub proof fn lemma_verbatim_law(
    n: DependencyNodeView,
    feature_gate: bool,
    sys: ToolchainSys,
    v: LinkInstructionView,
)
    requires
        spec_emit(n, feature_gate, sys) == Ok::<Option<LinkInstructionView>, EmitErrView>(Some(v)),
        n.location is Some,
    ensures
        path_file_name(n.location->0) is Some,
        spec_expected_file_name(n, sys) is Some,
        v.directive.verbatim <==> path_file_name(n.location->0)->0 != spec_expected_file_name(
            n,
            sys,
        )->0,
        v.directive.name == if v.directive.verbatim {
            path_file_name(n.location->0)->0
        } else {
            n.name
        },
{
}

impl ToolchainComponentDependencyNode {
    /// Computes the linker directive for this node, gated on the node's own
    /// option when `feature_gate` is set. Nodes with no linkage yield
    /// nothing; so does a located node whose kind has no file extension on
    /// this system. A located node with no file name, or whose parent
    /// directory is missing from its interface link directories, is an
    /// error.
    pub fn emit_cargo_link_instruction(&self, feature_gate: bool, sys: ToolchainSys) -> (r: Result<
        Option<LinkInstruction>,
        Error,
    >)
        ensures
            match r {
                Ok(Some(x)) => spec_emit(self@, feature_gate, sys) == Ok::<
                    Option<LinkInstructionView>,
                    EmitErrView,
                >(Some(x@)),
                Ok(None) => spec_emit(self@, feature_gate, sys) == Ok::<
                    Option<LinkInstructionView>,
                    EmitErrView,
                >(None),
                Err(e) => spec_emit(self@, feature_gate, sys) is Err && emit_err_matches(
                    e,
                    spec_emit(self@, feature_gate, sys)->Err_0,
                    self@,
                ),
            },
    {
        let linkage = match self.rustc_link_lib_linkage() {
            Some(l) => l,
            None => {
                return Ok(None);
            },
        };
        let fg = if feature_gate {
            Some(self.name.clone())
        } else {
            None
        };
        let location = match &self.location {
            Some(l) => l,
            None => {
                return Ok(
                    Some(
                        LinkInstruction {
                            feature_gate: fg,
                            directive: LinkDirective {
                                linkage: str_to_string(linkage),
                                verbatim: false,
                                name: self.name.clone(),
                            },
                        },
                    ),
                );
            },
        };
        let (parent, file_name) = path_split(location.as_str());
        let file_name = match file_name {
            None => {
                return Err(Error::TargetFileNameNotFound { name: self.name.clone() });
            },
            Some(f) => f,
        };
        let expected = match self.expected_file_name(sys) {
            Some(e) => e,
            None => {
                return Ok(None);
            },
        };
        match parent {
            Some(par) => {
                if !vec_contains_string(&self.interface_link_directories, par) {
                    return Err(
                        Error::TargetLibraryParentDirNotContainedInLinkLibraries {
                            name: self.name.clone(),
                            link_libraries: crate::node::clone_string_vec(
                                &self.interface_link_libraries,
                            ),
                        },
                    );
                }
            },
            None => {},
        }
        let verbatim = !str_eq(file_name, expected.as_str());
        let name = if verbatim {
            str_to_string(file_name)
        } else {
            self.name.clone()
        };
        Ok(
            Some(
                LinkInstruction {
                    feature_gate: fg,
                    directive: LinkDirective { linkage: str_to_string(linkage), verbatim, name },
                },
            ),
        )
    }
}

/// One ordered build item: a feature-gated directive for a simple
/// dependency, or a bracketed group of directives for a true link cycle,
/// gated on any member's option.
pub enum CargoBuildItem {
    Single { instruction: LinkInstruction },
    Group { features: Vec<String>, instructions: Vec<LinkInstruction> },
}

pub ghost enum CargoBuildItemView {
    Single { instruction: LinkInstructionView },
    Group { features: Seq<Seq<char>>, instructions: Seq<LinkInstructionView> },
}

impl View for CargoBuildItem {
    type V = CargoBuildItemView;

    open spec fn view(&self) -> CargoBuildItemView {
        match self {
            CargoBuildItem::Single { instruction } => CargoBuildItemView::Single {
                instruction: instruction@,
            },
            CargoBuildItem::Group { features, instructions } => CargoBuildItemView::Group {
                features: features.deep_view(),
                instructions: Seq::new(instructions@.len(), |i: int| instructions@[i]@),
            },
        }
    }
}

/// The views of a group of nodes.
pub open spec fn node_group_view(v: Seq<ToolchainComponentDependencyNode>) -> Seq<
    DependencyNodeView,
> {
    Seq::new(v.len(), |i: int| v[i]@)
}

/// The views of the postorder component groups.
pub open spec fn sccs_view(v: Seq<Vec<ToolchainComponentDependencyNode>>) -> Seq<
    Seq<DependencyNodeView>,
> {
    Seq::new(v.len(), |i: int| node_group_view(v[i]@))
}

/// The view of the build-configuration option table.
pub open spec fn features_view(v: Seq<(String, Vec<String>)>) -> Seq<(Seq<char>, Seq<Seq<char>>)> {
    Seq::new(v.len(), |i: int| (v[i].0@, v[i].1.deep_view()))
}

/// The view of the build item list.
pub open spec fn items_view(v: Seq<CargoBuildItem>) -> Seq<CargoBuildItemView> {
    Seq::new(v.len(), |i: int| v[i]@)
}

/// The view of the per-component crate dependency table.
pub open spec fn crate_deps_view(v: Seq<(ToolchainComponent, Vec<String>)>) -> Seq<
    (ToolchainComponent, Seq<Seq<char>>),
> {
    Seq::new(v.len(), |i: int| (v[i].0, v[i].1.deep_view()))
}

/// Inserting an option into the sorted option table, replacing the value of
/// an option already present.
pub open spec fn feature_insert(
    s: Seq<(Seq<char>, Seq<Seq<char>>)>,
    k: Seq<char>,
    val: Seq<Seq<char>>,
) -> Seq<(Seq<char>, Seq<Seq<char>>)>
    decreases s.len(),
{
    if s.len() == 0 {
        seq![(k, val)]
    } else if k == s[0].0 {
        seq![(k, val)] + s.drop_first()
    } else if crate::strutil::lex_lt(k, s[0].0) {
        seq![(k, val)] + s
    } else {
        seq![s[0]] + feature_insert(s.drop_first(), k, val)
    }
}

/// Inserting each of `add` into a sorted duplicate-free sequence.
pub open spec fn insert_all_sorted_unique(dirs: Seq<Seq<char>>, add: Seq<Seq<char>>) -> Seq<
    Seq<char>,
>
    decreases add.len(),
{
    if add.len() == 0 {
        dirs
    } else {
        insert_all_sorted_unique(insert_sorted_unique(dirs, add[0]), add.drop_first())
    }
}

/// The sorted, deduplicated non-external option dependencies among a
/// node's interface link libraries: each entry is unwrapped, and entries
/// named in the external set are excluded — external libraries surface as
/// link directives, never as configuration options.
pub open spec fn spec_deps_from_libs(
    external: Seq<Seq<char>>,
    acc: Seq<Seq<char>>,
    libs: Seq<Seq<char>>,
) -> Seq<Seq<char>>
    decreases libs.len(),
{
    if libs.len() == 0 {
        acc
    } else {
        let lib = unwrap_link_only(libs[0]);
        let acc2 = if seq_contains_string(external, lib) {
            acc
        } else {
            insert_sorted_unique(acc, lib)
        };
        spec_deps_from_libs(external, acc2, libs.drop_first())
    }
}

/// The configured crate dependencies of a component.
pub open spec fn crate_deps_for(
    m: Seq<(ToolchainComponent, Seq<Seq<char>>)>,
    c: ToolchainComponent,
) -> Seq<Seq<char>>
    decreases m.len(),
{
    if m.len() == 0 {
        Seq::empty()
    } else if m[0].0 == c {
        m[0].1
    } else {
        crate_deps_for(m.drop_first(), c)
    }
}

/// The forwarding references `<declared-option>/<name>` for a node.
pub open spec fn forward_refs(deps: Seq<Seq<char>>, name: Seq<char>) -> Seq<Seq<char>> {
    Seq::new(deps.len(), |i: int| deps[i] + "/"@ + name)
}

/// The option dependencies stored for one owned node.
pub open spec fn spec_node_feature_deps(
    external: Seq<Seq<char>>,
    crate_deps: Seq<(ToolchainComponent, Seq<Seq<char>>)>,
    c: ToolchainComponent,
    n: DependencyNodeView,
) -> Seq<Seq<char>> {
    spec_deps_from_libs(external, Seq::empty(), n.interface_link_libraries) + forward_refs(
        crate_deps_for(crate_deps, c),
        n.name,
    )
}

/// Folding one component group into the option table and the link
/// directory set: nodes with no owning component contribute nothing.
pub open spec fn spec_features_dirs_group(
    external: Seq<Seq<char>>,
    crate_deps: Seq<(ToolchainComponent, Seq<Seq<char>>)>,
    features: Seq<(Seq<char>, Seq<Seq<char>>)>,
    dirs: Seq<Seq<char>>,
    group: Seq<DependencyNodeView>,
) -> (Seq<(Seq<char>, Seq<Seq<char>>)>, Seq<Seq<char>>)
    decreases group.len(),
{
    if group.len() == 0 {
        (features, dirs)
    } else {
        let n = group[0];
        match n.component {
            None => spec_features_dirs_group(external, crate_deps, features, dirs, group.drop_first()),
            Some(c) => spec_features_dirs_group(
                external,
                crate_deps,
                feature_insert(features, n.name, spec_node_feature_deps(external, crate_deps, c, n)),
                insert_all_sorted_unique(dirs, n.interface_link_directories),
                group.drop_first(),
            ),
        }
    }
}

/// The ungated directives of a cycle group's members, in group order,
/// skipping members with nothing to link.
pub open spec fn spec_group_instructions(group: Seq<DependencyNodeView>, sys: ToolchainSys) -> Result<
    Seq<LinkInstructionView>,
    (),
>
    decreases group.len(),
{
    if group.len() == 0 {
        Ok(Seq::empty())
    } else {
        match spec_emit(group[0], false, sys) {
            Err(_) => Err(()),
            Ok(None) => spec_group_instructions(group.drop_first(), sys),
            Ok(Some(v)) => match spec_group_instructions(group.drop_first(), sys) {
                Err(e) => Err(e),
                Ok(s) => Ok(seq![v] + s),
            },
        }
    }
}

/// The member names of a group, in group order.
pub open spec fn spec_group_features(group: Seq<DependencyNodeView>) -> Seq<Seq<char>> {
    Seq::new(group.len(), |i: int| group[i].name)
}

/// The build items one component group yields: nothing for an empty group,
/// one feature-gated directive for a singleton with linkage, and one
/// bracketed group — gated on any member's option, members ungated — for a
/// true cycle.
pub open spec fn spec_link_items_group(group: Seq<DependencyNodeView>, sys: ToolchainSys) -> Result<
    Seq<CargoBuildItemView>,
    (),
> {
    if group.len() == 0 {
        Ok(Seq::empty())
    } else if group.len() == 1 {
        match spec_emit(group[0], true, sys) {
            Err(_) => Err(()),
            Ok(None) => Ok(Seq::empty()),
            Ok(Some(v)) => Ok(seq![CargoBuildItemView::Single { instruction: v }]),
        }
    } else {
        match spec_group_instructions(group, sys) {
            Err(e) => Err(e),
            Ok(ins) => Ok(
                seq![
                    CargoBuildItemView::Group {
                        features: spec_group_features(group),
                        instructions: ins,
                    },
                ],
            ),
        }
    }
}

/// Folding the postorder groups into the three outputs.
pub open spec fn spec_generate(
    external: Seq<Seq<char>>,
    crate_deps: Seq<(ToolchainComponent, Seq<Seq<char>>)>,
    features: Seq<(Seq<char>, Seq<Seq<char>>)>,
    dirs: Seq<Seq<char>>,
    items: Seq<CargoBuildItemView>,
    sccs: Seq<Seq<DependencyNodeView>>,
    sys: ToolchainSys,
) -> Result<(Seq<(Seq<char>, Seq<Seq<char>>)>, Seq<Seq<char>>, Seq<CargoBuildItemView>), ()>
    decreases sccs.len(),
{
    if sccs.len() == 0 {
        Ok((features, dirs, items))
    } else {
        let (f2, d2) = spec_features_dirs_group(external, crate_deps, features, dirs, sccs[0]);
        match spec_link_items_group(sccs[0], sys) {
            Err(e) => Err(e),
            Ok(its) => spec_generate(
                external,
                crate_deps,
                f2,
                d2,
                items + its,
                sccs.drop_first(),
                sys,
            ),
        }
    }
}

proof fn lemma_feature_insert_shift(
    s: Seq<(Seq<char>, Seq<Seq<char>>)>,
    k: Seq<char>,
    val: Seq<Seq<char>>,
    i: int,
)
    requires
        0 <= i < s.len(),
        k != s[i].0,
        !crate::strutil::lex_lt(k, s[i].0),
        feature_insert(s, k, val) == s.take(i) + feature_insert(s.skip(i), k, val),
    ensures
        feature_insert(s, k, val) == s.take(i + 1) + feature_insert(s.skip(i + 1), k, val),
{
    let rest = s.skip(i);
    assert(rest[0] == s[i]);
    assert(rest.drop_first() =~= s.skip(i + 1));
    assert(feature_insert(rest, k, val) == seq![s[i]] + feature_insert(s.skip(i + 1), k, val));
    assert(s.take(i) + (seq![s[i]] + feature_insert(s.skip(i + 1), k, val)) =~= s.take(i + 1)
        + feature_insert(s.skip(i + 1), k, val));
}

/// Inserts an option into the sorted option table, replacing the value of
/// an option already present.
fn vec_insert_feature(v: &mut Vec<(String, Vec<String>)>, k: String, val: Vec<String>)
    ensures
        features_view(final(v)@) == feature_insert(features_view(old(v)@), k@, val.deep_view()),
{
    let ghost orig = features_view(v@);
    let mut i: usize = 0;
    proof {
        assert(orig.skip(0) =~= orig);
        assert(orig.take(0) + feature_insert(orig, k@, val.deep_view()) =~= feature_insert(
            orig,
            k@,
            val.deep_view(),
        ));
    }
    loop
        invariant
            orig == features_view(old(v)@),
            i <= v.len(),
            features_view(v@) == orig,
            orig.len() == v@.len(),
            feature_insert(orig, k@, val.deep_view()) == orig.take(i as int) + feature_insert(
                orig.skip(i as int),
                k@,
                val.deep_view(),
            ),
        decreases v.len() - i,
    {
        if i == v.len() {
            proof {
                assert(orig.skip(i as int).len() == 0);
                assert(orig.take(i as int) =~= orig);
                assert(orig + seq![(k@, val.deep_view())] =~= orig.push((k@, val.deep_view())));
            }
            v.push((k, val));
            proof {
                assert(features_view(v@) =~= orig.push(
                    (v@.last().0@, v@.last().1.deep_view()),
                ));
            }
            return ;
        }
        proof {
            assert(orig.skip(i as int)[0] == orig[i as int]);
            assert(orig[i as int] == (v@[i as int].0@, v@[i as int].1.deep_view()));
        }
        if str_eq(v[i].0.as_str(), k.as_str()) {
            proof {
                assert(feature_insert(orig.skip(i as int), k@, val.deep_view()) == seq![
                    (k@, val.deep_view()),
                ] + orig.skip(i as int).drop_first());
                assert(orig.skip(i as int).drop_first() =~= orig.skip(i as int + 1));
                assert(orig.take(i as int) + (seq![(k@, val.deep_view())] + orig.skip(i as int + 1))
                    =~= orig.update(i as int, (k@, val.deep_view())));
            }
            v.set(i, (k, val));
            proof {
                assert(features_view(v@) =~= orig.update(i as int, (k@, val.deep_view())));
            }
            return ;
        }
        if crate::strutil::str_lt(k.as_str(), v[i].0.as_str()) {
            proof {
                assert(feature_insert(orig.skip(i as int), k@, val.deep_view()) == seq![
                    (k@, val.deep_view()),
                ] + orig.skip(i as int));
                assert(orig.take(i as int) + (seq![(k@, val.deep_view())] + orig.skip(i as int))
                    =~= orig.insert(i as int, (k@, val.deep_view())));
            }
            v.insert(i, (k, val));
            proof {
                assert(features_view(v@) =~= orig.insert(i as int, (k@, val.deep_view())));
            }
            return ;
        }
        proof {
            lemma_feature_insert_shift(orig, k@, val.deep_view(), i as int);
        }
        i = i + 1;
    }
}

proof fn lemma_crate_deps_for_shift(
    m: Seq<(ToolchainComponent, Seq<Seq<char>>)>,
    c: ToolchainComponent,
    i: int,
)
    requires
        0 <= i < m.len(),
        m[i].0 != c,
        crate_deps_for(m, c) == crate_deps_for(m.skip(i), c),
    ensures
        crate_deps_for(m, c) == crate_deps_for(m.skip(i + 1), c),
{
    assert(m.skip(i)[0] == m[i]);
    assert(m.skip(i).drop_first() =~= m.skip(i + 1));
}

/// Finds the configured crate dependencies of a component.
fn crate_deps_find<'a>(m: &'a Vec<(ToolchainComponent, Vec<String>)>, c: ToolchainComponent) -> (r:
    Option<&'a Vec<String>>)
    ensures
        match r {
            Some(d) => crate_deps_for(crate_deps_view(m@), c) == d.deep_view(),
            None => crate_deps_for(crate_deps_view(m@), c) == Seq::<Seq<char>>::empty(),
        },
{
    let ghost mv = crate_deps_view(m@);
    let mut i: usize = 0;
    proof {
        assert(mv.skip(0) =~= mv);
    }
    loop
        invariant
            mv == crate_deps_view(m@),
            i <= m.len(),
            mv.len() == m@.len(),
            crate_deps_for(mv, c) == crate_deps_for(mv.skip(i as int), c),
        decreases m.len() - i,
    {
        if i == m.len() {
            proof {
                assert(mv.skip(i as int).len() == 0);
            }
            return None;
        }
        proof {
            assert(mv.skip(i as int)[0] == mv[i as int]);
        }
        if m[i].0 == c {
            return Some(&m[i].1);
        }
        proof {
            lemma_crate_deps_for_shift(mv, c, i as int);
        }
        i = i + 1;
    }
}

/// The link-configuration generator: the context, the installation
/// directories, the external target names, the postorder component groups,
/// and the configured per-component crate dependency forwards.
pub struct ToolchainConfigGenerator {
    pub context: ToolchainContext,
    pub directories: Directories,
    pub external_targets: Vec<String>,
    pub toolchain_dependencies_postorder_sccs: Vec<Vec<ToolchainComponentDependencyNode>>,
    pub toolchain_components_crate_dependencies: Vec<(ToolchainComponent, Vec<String>)>,
}

impl ToolchainConfigGenerator {
    pub fn new(
        context: ToolchainContext,
        directories: Directories,
        external_targets: Vec<String>,
        toolchain_dependencies_postorder_sccs: Vec<Vec<ToolchainComponentDependencyNode>>,
        toolchain_components_crate_dependencies: Vec<(ToolchainComponent, Vec<String>)>,
    ) -> (r: Self)
        ensures
            r.context == context,
            r.directories == directories,
            r.external_targets == external_targets,
            r.toolchain_dependencies_postorder_sccs == toolchain_dependencies_postorder_sccs,
            r.toolchain_components_crate_dependencies == toolchain_components_crate_dependencies,
    {
        Self {
            context,
            directories,
            external_targets,
            toolchain_dependencies_postorder_sccs,
            toolchain_components_crate_dependencies,
        }
    }

    /// Folds one component group into the option table and the link
    /// directory set: for each owned node, its link directories join the
    /// sorted set, and its option maps to its sorted, deduplicated
    /// non-external dependencies followed by the configured forwards.
    /// External names never enter the table.
    pub fn compute_cargo_features_and_build_link_dirs(
        &self,
        target_sccs: &Vec<ToolchainComponentDependencyNode>,
        cargo_features: &mut Vec<(String, Vec<String>)>,
        build_link_dirs: &mut Vec<String>,
    ) -> (r: Result<(), Error>)
        ensures
            r is Ok,
            ({
                let (f2, d2) = spec_features_dirs_group(
                    self.external_targets.deep_view(),
                    crate_deps_view(self.toolchain_components_crate_dependencies@),
                    features_view(old(cargo_features)@),
                    old(build_link_dirs).deep_view(),
                    node_group_view(target_sccs@),
                );
                features_view(final(cargo_features)@) == f2 && final(build_link_dirs).deep_view()
                    == d2
            }),
    {
        let ghost ext = self.external_targets.deep_view();
        let ghost cd = crate_deps_view(self.toolchain_components_crate_dependencies@);
        let ghost f0 = features_view(cargo_features@);
        let ghost d0 = build_link_dirs.deep_view();
        let ghost groupv = node_group_view(target_sccs@);
        let mut i: usize = 0;
        proof {
            assert(groupv.skip(0) =~= groupv);
        }
        loop
            invariant
                ext == self.external_targets.deep_view(),
                cd == crate_deps_view(self.toolchain_components_crate_dependencies@),
                f0 == features_view(old(cargo_features)@),
                d0 == old(build_link_dirs).deep_view(),
                groupv == node_group_view(target_sccs@),
                groupv.len() == target_sccs@.len(),
                i <= target_sccs.len(),
                spec_features_dirs_group(ext, cd, f0, d0, groupv) == spec_features_dirs_group(
                    ext,
                    cd,
                    features_view(cargo_features@),
                    build_link_dirs.deep_view(),
                    groupv.skip(i as int),
                ),
            decreases target_sccs.len() - i,
        {
            if i == target_sccs.len() {
                proof {
                    assert(groupv.skip(i as int).len() == 0);
                }
                return Ok(());
            }
            proof {
                assert(groupv.skip(i as int)[0] == groupv[i as int]);
                assert(groupv.skip(i as int).drop_first() =~= groupv.skip(i as int + 1));
                assert(groupv[i as int] == target_sccs@[i as int]@);
            }
            let node = &target_sccs[i];
            let component = match &node.component {
                None => {
                    proof {
                        assert(spec_features_dirs_group(
                            ext,
                            cd,
                            features_view(cargo_features@),
                            build_link_dirs.deep_view(),
                            groupv.skip(i as int),
                        ) == spec_features_dirs_group(
                            ext,
                            cd,
                            features_view(cargo_features@),
                            build_link_dirs.deep_view(),
                            groupv.skip(i as int + 1),
                        ));
                    }
                    i = i + 1;
                    continue ;
                },
                Some(c) => *c,
            };
            // The node's link directories join the sorted set.
            let ghost f_before = features_view(cargo_features@);
            let ghost d_before = build_link_dirs.deep_view();
            let ghost addv = node.interface_link_directories.deep_view();
            let mut j: usize = 0;
            proof {
                assert(addv.skip(0) =~= addv);
            }
            while j < node.interface_link_directories.len()
                invariant
                    addv == node.interface_link_directories.deep_view(),
                    addv.len() == node.interface_link_directories@.len(),
                    j <= node.interface_link_directories.len(),
                    insert_all_sorted_unique(d_before, addv) == insert_all_sorted_unique(
                        build_link_dirs.deep_view(),
                        addv.skip(j as int),
                    ),
                decreases node.interface_link_directories.len() - j,
            {
                proof {
                    assert(addv.skip(j as int)[0] == addv[j as int]);
                    assert(addv.skip(j as int).drop_first() =~= addv.skip(j as int + 1));
                    assert(addv[j as int] == node.interface_link_directories@[j as int]@);
                }
                vec_insert_sorted_unique(
                    build_link_dirs,
                    node.interface_link_directories[j].clone(),
                );
                j = j + 1;
            }
            proof {
                assert(addv.skip(j as int).len() == 0);
            }
            // The sorted, deduplicated non-external option dependencies.
            let mut deps: Vec<String> = Vec::new();
            let ghost libsv = node.interface_link_libraries.deep_view();
            let mut k: usize = 0;
            proof {
                assert(libsv.skip(0) =~= libsv);
                assert(deps.deep_view() =~= Seq::<Seq<char>>::empty());
            }
            while k < node.interface_link_libraries.len()
                invariant
                    ext == self.external_targets.deep_view(),
                    libsv == node.interface_link_libraries.deep_view(),
                    libsv.len() == node.interface_link_libraries@.len(),
                    k <= node.interface_link_libraries.len(),
                    spec_deps_from_libs(ext, Seq::<Seq<char>>::empty(), libsv)
                        == spec_deps_from_libs(ext, deps.deep_view(), libsv.skip(k as int)),
                decreases node.interface_link_libraries.len() - k,
            {
                proof {
                    assert(libsv.skip(k as int)[0] == libsv[k as int]);
                    assert(libsv.skip(k as int).drop_first() =~= libsv.skip(k as int + 1));
                    assert(libsv[k as int] == node.interface_link_libraries@[k as int]@);
                }
                let lib = unwrap_link_only_exec(node.interface_link_libraries[k].as_str());
                if !vec_contains_string(&self.external_targets, lib) {
                    vec_insert_sorted_unique(&mut deps, str_to_string(lib));
                }
                k = k + 1;
            }
            proof {
                assert(libsv.skip(k as int).len() == 0);
            }
            // The configured forwarding references, in declaration order.
            let ghost base = deps.deep_view();
            match crate_deps_find(&self.toolchain_components_crate_dependencies, component) {
                None => {
                    proof {
                        assert(base + forward_refs(crate_deps_for(cd, component), node@.name)
                            =~= base);
                    }
                },
                Some(cds) => {
                    let ghost cdv = cds.deep_view();
                    let mut l: usize = 0;
                    proof {
                        assert(forward_refs(cdv.take(0), node@.name) =~= Seq::<Seq<char>>::empty());
                        assert(base + forward_refs(cdv.take(0), node@.name) =~= base);
                    }
                    while l < cds.len()
                        invariant
                            cdv == cds.deep_view(),
                            cdv.len() == cds@.len(),
                            l <= cds.len(),
                            deps.deep_view() == base + forward_refs(
                                cdv.take(l as int),
                                node@.name,
                            ),
                        decreases cds.len() - l,
                    {
                        proof {
                            assert(cdv[l as int] == cds@[l as int]@);
                        }
                        let mut s = cds[l].clone();
                        s.append("/");
                        s.append(node.name.as_str());
                        let ghost dbefore = deps.deep_view();
                        let ghost sv = s@;
                        deps.push(s);
                        proof {
                            assert(deps.deep_view() =~= dbefore.push(sv));
                            assert(sv == cdv[l as int] + "/"@ + node@.name);
                            assert(forward_refs(cdv.take(l as int + 1), node@.name)
                                =~= forward_refs(cdv.take(l as int), node@.name).push(
                                cdv[l as int] + "/"@ + node@.name,
                            ));
                            assert(deps.deep_view() =~= base + forward_refs(
                                cdv.take(l as int + 1),
                                node@.name,
                            ));
                        }
                        l = l + 1;
                    }
                    proof {
                        assert(cdv.take(l as int) =~= cdv);
                    }
                },
            }
            proof {
                assert(deps.deep_view() == spec_node_feature_deps(ext, cd, component, node@));
            }
            vec_insert_feature(cargo_features, node.name.clone(), deps);
            proof {
                assert(spec_features_dirs_group(ext, cd, f_before, d_before, groupv.skip(i as int))
                    == spec_features_dirs_group(
                    ext,
                    cd,
                    features_view(cargo_features@),
                    build_link_dirs.deep_view(),
                    groupv.skip(i as int + 1),
                ));
            }
            i = i + 1;
        }
    }
}

impl ToolchainConfigGenerator {
    /// Computes one component group's build items: nothing for an empty
    /// group, one feature-gated directive for a singleton with linkage, and
    /// one bracketed group for a true cycle, gated on any member's option.
    pub fn compute_cargo_build_link_items(
        &self,
        target_sccs: &Vec<ToolchainComponentDependencyNode>,
        cargo_features_build_link_items: &mut Vec<CargoBuildItem>,
        sys: ToolchainSys,
    ) -> (r: Result<(), Error>)
        ensures
            match spec_link_items_group(node_group_view(target_sccs@), sys) {
                Ok(its) => r is Ok && items_view(final(cargo_features_build_link_items)@)
                    == items_view(old(cargo_features_build_link_items)@) + its,
                Err(_) => r is Err && (exists|i: int|
                    0 <= i < target_sccs@.len() && spec_emit(
                        #[trigger] target_sccs@[i]@,
                        target_sccs@.len() == 1,
                        sys,
                    ) is Err && emit_err_matches(
                        r->Err_0,
                        spec_emit(target_sccs@[i]@, target_sccs@.len() == 1, sys)->Err_0,
                        target_sccs@[i]@,
                    )),
            },
    {
        let ghost groupv = node_group_view(target_sccs@);
        let ghost items0 = items_view(cargo_features_build_link_items@);
        if target_sccs.len() == 0 {
            proof {
                assert(items0 + Seq::<CargoBuildItemView>::empty() =~= items0);
            }
            return Ok(());
        }
        if target_sccs.len() == 1 {
            match target_sccs[0].emit_cargo_link_instruction(true, sys) {
                Err(e) => {
                    proof {
                        assert(groupv[0] == target_sccs@[0]@);
                    }
                    return Err(e);
                },
                Ok(None) => {
                    proof {
                        assert(items0 + Seq::<CargoBuildItemView>::empty() =~= items0);
                    }
                    return Ok(());
                },
                Ok(Some(instr)) => {
                    let ghost iv = instr@;
                    cargo_features_build_link_items.push(
                        CargoBuildItem::Single { instruction: instr },
                    );
                    proof {
                        assert(groupv[0] == target_sccs@[0]@);
                        assert(items_view(cargo_features_build_link_items@) =~= items0.push(
                            CargoBuildItemView::Single { instruction: iv },
                        ));
                        assert(items0.push(CargoBuildItemView::Single { instruction: iv })
                            =~= items0 + seq![
                            CargoBuildItemView::Single { instruction: iv },
                        ]);
                    }
                    return Ok(());
                },
            }
        }
        // A true cycle: collect every member's option, then each member's
        // ungated directive in group order.
        let mut features: Vec<String> = Vec::new();
        let mut fi: usize = 0;
        while fi < target_sccs.len()
            invariant
                groupv == node_group_view(target_sccs@),
                groupv.len() == target_sccs@.len(),
                fi <= target_sccs.len(),
                features.deep_view() =~= spec_group_features(groupv).take(fi as int),
            decreases target_sccs.len() - fi,
        {
            proof {
                assert(groupv[fi as int] == target_sccs@[fi as int]@);
            }
            let ghost f_before = features.deep_view();
            features.push(target_sccs[fi].name.clone());
            proof {
                assert(features.deep_view() =~= f_before.push(features@.last()@));
                assert(features.deep_view() =~= spec_group_features(groupv).take(fi as int + 1));
            }
            fi = fi + 1;
        }
        proof {
            assert(spec_group_features(groupv).take(fi as int) =~= spec_group_features(groupv));
        }
        let mut instructions: Vec<LinkInstruction> = Vec::new();
        let mut gi: usize = 0;
        proof {
            assert(groupv.skip(0) =~= groupv);
            assert(Seq::<LinkInstructionView>::empty() + spec_group_instructions(groupv, sys)->Ok_0
                =~= spec_group_instructions(groupv, sys)->Ok_0);
        }
        while gi < target_sccs.len()
            invariant
                groupv == node_group_view(target_sccs@),
                groupv.len() == target_sccs@.len(),
                gi <= target_sccs.len(),
                match spec_group_instructions(groupv, sys) {
                    Err(_) => spec_group_instructions(groupv.skip(gi as int), sys) is Err,
                    Ok(s) => spec_group_instructions(groupv.skip(gi as int), sys) is Ok && s
                        == Seq::new(instructions@.len(), |x: int| instructions@[x]@)
                        + spec_group_instructions(groupv.skip(gi as int), sys)->Ok_0,
                },
            decreases target_sccs.len() - gi,
        {
            proof {
                assert(groupv.skip(gi as int)[0] == groupv[gi as int]);
                assert(groupv.skip(gi as int).drop_first() =~= groupv.skip(gi as int + 1));
                assert(groupv[gi as int] == target_sccs@[gi as int]@);
            }
            match target_sccs[gi].emit_cargo_link_instruction(false, sys) {
                Err(e) => {
                    return Err(e);
                },
                Ok(None) => {},
                Ok(Some(instr)) => {
                    let ghost iv = instr@;
                    let ghost ins_before = Seq::new(
                        instructions@.len(),
                        |x: int| instructions@[x]@,
                    );
                    instructions.push(instr);
                    proof {
                        assert(Seq::new(instructions@.len(), |x: int| instructions@[x]@)
                            =~= ins_before.push(iv));
                        if spec_group_instructions(groupv, sys) is Ok {
                            assert(ins_before.push(iv) + spec_group_instructions(
                                groupv.skip(gi as int + 1),
                                sys,
                            )->Ok_0 =~= ins_before + (seq![iv] + spec_group_instructions(
                                groupv.skip(gi as int + 1),
                                sys,
                            )->Ok_0));
                        }
                    }
                },
            }
            gi = gi + 1;
        }
        proof {
            assert(groupv.skip(gi as int).len() == 0);
        }
        let ghost insv = Seq::new(instructions@.len(), |x: int| instructions@[x]@);
        let ghost featv = features.deep_view();
        cargo_features_build_link_items.push(CargoBuildItem::Group { features, instructions });
        proof {
            assert(insv + Seq::<LinkInstructionView>::empty() =~= insv);
            assert(items_view(cargo_features_build_link_items@) =~= items0.push(
                CargoBuildItemView::Group { features: featv, instructions: insv },
            ));
            assert(items0.push(CargoBuildItemView::Group { features: featv, instructions: insv })
                =~= items0 + seq![
                CargoBuildItemView::Group { features: featv, instructions: insv },
            ]);
        }
        Ok(())
    }

    /// Walks the postorder component groups once, accumulating the build
    /// configuration option table, the link search directory set, and the
    /// ordered build items.
    pub fn generate_cargo_config(&self, sys: ToolchainSys) -> (r: Result<CargoConfig, Error>)
        ensures
            match spec_generate(
                self.external_targets.deep_view(),
                crate_deps_view(self.toolchain_components_crate_dependencies@),
                Seq::empty(),
                Seq::empty(),
                Seq::empty(),
                sccs_view(self.toolchain_dependencies_postorder_sccs@),
                sys,
            ) {
                Ok((f, d, it)) => r matches Ok(cfg) && cfg.context == self.context
                    && cfg.directories.root@ == self.directories.root@ && (self.directories.wf()
                    ==> cfg.directories.wf()) && features_view(
                    cfg.cargo_features@,
                ) == f && cfg.build_link_dirs.deep_view() == d && items_view(cfg.build_link_items@)
                    == it,
                Err(_) => r matches Err(e) && (exists|g: int, i: int|
                    {
                        &&& 0 <= g < sccs_view(self.toolchain_dependencies_postorder_sccs@).len()
                        &&& 0 <= i < sccs_view(self.toolchain_dependencies_postorder_sccs@)[g].len()
                        &&& spec_emit(
                            #[trigger] sccs_view(self.toolchain_dependencies_postorder_sccs@)[g][i],
                            sccs_view(self.toolchain_dependencies_postorder_sccs@)[g].len() == 1,
                            sys,
                        ) is Err
                        &&& emit_err_matches(
                            e,
                            spec_emit(
                                sccs_view(self.toolchain_dependencies_postorder_sccs@)[g][i],
                                sccs_view(self.toolchain_dependencies_postorder_sccs@)[g].len()
                                    == 1,
                                sys,
                            )->Err_0,
                            sccs_view(self.toolchain_dependencies_postorder_sccs@)[g][i],
                        )
                    }),
            },
    {
        let ghost ext = self.external_targets.deep_view();
        let ghost cd = crate_deps_view(self.toolchain_components_crate_dependencies@);
        let ghost sccsv = sccs_view(self.toolchain_dependencies_postorder_sccs@);
        let mut build_link_dirs: Vec<String> = Vec::new();
        let mut build_link_items: Vec<CargoBuildItem> = Vec::new();
        let mut cargo_features: Vec<(String, Vec<String>)> = Vec::new();
        let mut i: usize = 0;
        proof {
            assert(sccsv.skip(0) =~= sccsv);
            assert(features_view(cargo_features@) =~= Seq::<(Seq<char>, Seq<Seq<char>>)>::empty());
            assert(build_link_dirs.deep_view() =~= Seq::<Seq<char>>::empty());
            assert(items_view(build_link_items@) =~= Seq::<CargoBuildItemView>::empty());
        }
        while i < self.toolchain_dependencies_postorder_sccs.len()
            invariant
                ext == self.external_targets.deep_view(),
                cd == crate_deps_view(self.toolchain_components_crate_dependencies@),
                sccsv == sccs_view(self.toolchain_dependencies_postorder_sccs@),
                sccsv.len() == self.toolchain_dependencies_postorder_sccs@.len(),
                i <= self.toolchain_dependencies_postorder_sccs.len(),
                spec_generate(ext, cd, Seq::empty(), Seq::empty(), Seq::empty(), sccsv, sys)
                    == spec_generate(
                    ext,
                    cd,
                    features_view(cargo_features@),
                    build_link_dirs.deep_view(),
                    items_view(build_link_items@),
                    sccsv.skip(i as int),
                    sys,
                ),
            decreases self.toolchain_dependencies_postorder_sccs.len() - i,
        {
            proof {
                assert(sccsv.skip(i as int)[0] == sccsv[i as int]);
                assert(sccsv.skip(i as int).drop_first() =~= sccsv.skip(i as int + 1));
                assert(sccsv[i as int] == node_group_view(
                    self.toolchain_dependencies_postorder_sccs@[i as int]@,
                ));
            }
            let group = &self.toolchain_dependencies_postorder_sccs[i];
            match self.compute_cargo_features_and_build_link_dirs(
                group,
                &mut cargo_features,
                &mut build_link_dirs,
            ) {
                Ok(()) => {},
                Err(e) => {
                    return Err(e);
                },
            }
            match self.compute_cargo_build_link_items(group, &mut build_link_items, sys) {
                Ok(()) => {},
                Err(e) => {
                    proof {
                        let k = choose|k: int|
                            0 <= k < group@.len() && spec_emit(
                                #[trigger] group@[k]@,
                                group@.len() == 1,
                                sys,
                            ) is Err && emit_err_matches(
                                e,
                                spec_emit(group@[k]@, group@.len() == 1, sys)->Err_0,
                                group@[k]@,
                            );
                        assert(sccsv[i as int][k] == group@[k]@);
                        assert(sccsv[i as int].len() == group@.len());
                    }
                    return Err(e);
                },
            }
            i = i + 1;
        }
        proof {
            assert(sccsv.skip(i as int).len() == 0);
        }
        Ok(
            CargoConfig {
                context: self.context,
                directories: self.directories.duplicate(),
                build_link_dirs,
                build_link_items,
                cargo_features,
            },
        )
    }
}

/// The generated configuration: the link search directory set, the ordered
/// build items, and the build configuration option table, ready for the
/// serializer.
pub struct CargoConfig {
    pub context: ToolchainContext,
    pub directories: Directories,
    pub build_link_dirs: Vec<String>,
    pub build_link_items: Vec<CargoBuildItem>,
    pub cargo_features: Vec<(String, Vec<String>)>,
}

/// How generator construction fails.
#[derive(Debug)]
pub enum GenerationError {
    ToolchainAnalysisNotPerformedForComponent { component: ToolchainComponent },
}

/// Builds the generator for a crate's component set: every requested
/// component must have been analysed; the generator then carries the
/// analysis' postorder component groups — exactly the strongly connected
/// components of the analysis graph, dependencies first — and its external
/// target names.
pub fn generator(
    context: ToolchainContext,
    directories: Directories,
    analysis: &ToolchainAnalysis,
    toolchain_components_crate: &Vec<ToolchainComponent>,
    toolchain_components_crate_dependencies: Vec<(ToolchainComponent, Vec<String>)>,
) -> (r: Result<ToolchainConfigGenerator, GenerationError>)
    requires
        analysis.dependencies.wf(),
    ensures
        r is Ok <==> (forall|i: int|
            0 <= i < toolchain_components_crate@.len() ==> analysis.components@.contains(
                #[trigger] toolchain_components_crate@[i],
            )),
        r matches Ok(g) ==> {
            &&& g.context == context
            &&& g.directories == directories
            &&& g.external_targets.deep_view() == analysis.external_targets.deep_view()
            &&& sccs_view(g.toolchain_dependencies_postorder_sccs@)
                == crate::analysis::spec_postorder_groups(analysis)
            &&& crate_deps_view(g.toolchain_components_crate_dependencies@) == crate_deps_view(
                toolchain_components_crate_dependencies@,
            )
        },
        r matches Err(e) ==> e matches GenerationError::ToolchainAnalysisNotPerformedForComponent {
            component,
        } && !analysis.components@.contains(component),
{
    let mut i: usize = 0;
    while i < toolchain_components_crate.len()
        invariant
            i <= toolchain_components_crate@.len(),
            forall|k: int|
                0 <= k < i ==> analysis.components@.contains(
                    #[trigger] toolchain_components_crate@[k],
                ),
        decreases toolchain_components_crate.len() - i,
    {
        let c = toolchain_components_crate[i];
        if !crate::toolchain::component_set_contains(&analysis.components, c) {
            return Err(
                GenerationError::ToolchainAnalysisNotPerformedForComponent { component: c },
            );
        }
        i = i + 1;
    }
    let sccs = analysis.dependencies_postorder_sccs();
    Ok(
        ToolchainConfigGenerator {
            context,
            directories,
            external_targets: crate::node::clone_string_vec(&analysis.external_targets),
            toolchain_dependencies_postorder_sccs: sccs,
            toolchain_components_crate_dependencies,
        },
    )
}

/// A double-quoted string.
pub open spec fn quoted(s: Seq<char>) -> Seq<char> {
    "\""@ + s + "\""@
}

/// The `, `-separated continuation of an option's value list.
pub open spec fn feature_value_tail(deps: Seq<Seq<char>>) -> Seq<char>
    decreases deps.len(),
{
    if deps.len() == 0 {
        Seq::<char>::empty()
    } else {
        ", "@ + quoted(deps[0]) + feature_value_tail(deps.drop_first())
    }
}

/// An option's quoted, comma-separated value list.
pub open spec fn feature_value_text(deps: Seq<Seq<char>>) -> Seq<char> {
    if deps.len() == 0 {
        Seq::<char>::empty()
    } else {
        quoted(deps[0]) + feature_value_tail(deps.drop_first())
    }
}

/// One option line: `name = [values]` and a newline.
pub open spec fn feature_line_text(e: (Seq<char>, Seq<Seq<char>>)) -> Seq<char> {
    e.0 + " = ["@ + feature_value_text(e.1) + "]\n"@
}

/// The whole option table section, one line per option.
pub open spec fn features_text(fs: Seq<(Seq<char>, Seq<Seq<char>>)>) -> Seq<char>
    decreases fs.len(),
{
    if fs.len() == 0 {
        Seq::<char>::empty()
    } else {
        feature_line_text(fs[0]) + features_text(fs.drop_first())
    }
}

proof fn lemma_feature_value_tail_snoc(deps: Seq<Seq<char>>, x: Seq<char>)
    ensures
        feature_value_tail(deps.push(x)) == feature_value_tail(deps) + (", "@ + quoted(x)),
    decreases deps.len(),
{
    if deps.len() == 0 {
        assert(deps.push(x)[0] == x);
        assert(deps.push(x).drop_first() =~= Seq::<Seq<char>>::empty());
        assert(feature_value_tail(deps.push(x)) == ", "@ + quoted(x) + feature_value_tail(
            Seq::<Seq<char>>::empty(),
        ));
        assert(", "@ + quoted(x) + Seq::<char>::empty() =~= ", "@ + quoted(x));
        assert(Seq::<char>::empty() + (", "@ + quoted(x)) =~= ", "@ + quoted(x));
        assert(feature_value_tail(deps.push(x)) =~= feature_value_tail(deps) + (", "@ + quoted(
            x,
        )));
    } else {
        assert(deps.push(x)[0] == deps[0]);
        assert(deps.push(x).drop_first() =~= deps.drop_first().push(x));
        lemma_feature_value_tail_snoc(deps.drop_first(), x);
        assert(", "@ + quoted(deps[0]) + (feature_value_tail(deps.drop_first()) + (", "@ + quoted(
            x,
        ))) =~= (", "@ + quoted(deps[0]) + feature_value_tail(deps.drop_first())) + (", "@
            + quoted(x)));
    }
}

proof fn lemma_feature_value_snoc(deps: Seq<Seq<char>>, x: Seq<char>)
    requires
        deps.len() > 0,
    ensures
        feature_value_text(deps.push(x)) == feature_value_text(deps) + (", "@ + quoted(x)),
{
    assert(deps.push(x)[0] == deps[0]);
    assert(deps.push(x).drop_first() =~= deps.drop_first().push(x));
    lemma_feature_value_tail_snoc(deps.drop_first(), x);
    assert(quoted(deps[0]) + (feature_value_tail(deps.drop_first()) + (", "@ + quoted(x)))
        =~= (quoted(deps[0]) + feature_value_tail(deps.drop_first())) + (", "@ + quoted(x)));
}

proof fn lemma_features_text_snoc(fs: Seq<(Seq<char>, Seq<Seq<char>>)>, e: (Seq<char>, Seq<Seq<char>>))
    ensures
        features_text(fs.push(e)) == features_text(fs) + feature_line_text(e),
    decreases fs.len(),
{
    if fs.len() == 0 {
        assert(fs.push(e)[0] == e);
        assert(fs.push(e).drop_first() =~= Seq::<(Seq<char>, Seq<Seq<char>>)>::empty());
        assert(features_text(fs.push(e)) == feature_line_text(e) + features_text(
            Seq::<(Seq<char>, Seq<Seq<char>>)>::empty(),
        ));
        assert(feature_line_text(e) + Seq::<char>::empty() =~= feature_line_text(e));
        assert(Seq::<char>::empty() + feature_line_text(e) =~= feature_line_text(e));
        assert(features_text(fs.push(e)) =~= features_text(fs) + feature_line_text(e));
    } else {
        assert(fs.push(e)[0] == fs[0]);
        assert(fs.push(e).drop_first() =~= fs.drop_first().push(e));
        lemma_features_text_snoc(fs.drop_first(), e);
        assert(feature_line_text(fs[0]) + (features_text(fs.drop_first()) + feature_line_text(e))
            =~= (feature_line_text(fs[0]) + features_text(fs.drop_first())) + feature_line_text(
            e,
        ));
    }
}

/// The text of one link-library directive:
/// `cargo:rustc-link-lib=<linkage>[:+verbatim]=<name>`.
pub open spec fn directive_line(d: LinkDirectiveView) -> Seq<char> {
    "cargo:rustc-link-lib="@ + d.linkage + (if d.verbatim {
        ":+verbatim"@
    } else {
        Seq::<char>::empty()
    }) + "="@ + d.name
}

/// The text of one link search directive:
/// `cargo:rustc-link-search=native=<root>/<dir>`.
pub open spec fn link_search_line(root: Seq<char>, dir: Seq<char>) -> Seq<char> {
    "cargo:rustc-link-search=native="@ + root + "/"@ + dir
}

/// The directive that opens a link group.
pub open spec fn start_group_line() -> Seq<char> {
    "cargo:rustc-link-arg=-Wl,--start-group"@
}

/// The directive that closes a link group.
pub open spec fn end_group_line() -> Seq<char> {
    "cargo:rustc-link-arg=-Wl,--end-group"@
}

impl LinkDirective {
    /// Renders the directive to its line.
    pub fn render_line(&self) -> (r: String)
        ensures
            r@ == directive_line(self@),
    {
        let mut s = str_to_string("cargo:rustc-link-lib=");
        s.append(self.linkage.as_str());
        if self.verbatim {
            s.append(":+verbatim");
        }
        s.append("=");
        s.append(self.name.as_str());
        proof {
            assert(s@ =~= directive_line(self@));
        }
        s
    }
}

impl CargoConfig {
    /// Renders the link search directive lines, one per directory, in the
    /// sorted set order, each resolved under the toolchain's root.
    pub fn render_link_search_lines(&self) -> (r: Vec<String>)
        requires
            self.directories.wf(),
        ensures
            r.deep_view() == Seq::new(
                self.build_link_dirs.deep_view().len(),
                |i: int|
                    link_search_line(
                        crate::directories::toolchain_root_path_of(
                            self.directories.spec_root(),
                            self.context,
                        ),
                        self.build_link_dirs.deep_view()[i],
                    ),
            ),
    {
        let root = self.directories.toolchain_root_path(&self.context);
        let mut out: Vec<String> = Vec::new();
        let mut i: usize = 0;
        while i < self.build_link_dirs.len()
            invariant
                root@ == crate::directories::toolchain_root_path_of(
                    self.directories.spec_root(),
                    self.context,
                ),
                self.build_link_dirs.deep_view().len() == self.build_link_dirs@.len(),
                i <= self.build_link_dirs.len(),
                out@.len() == i,
                forall|k: int|
                    0 <= k < i ==> (#[trigger] out@[k])@ == link_search_line(
                        root@,
                        self.build_link_dirs.deep_view()[k],
                    ),
            decreases self.build_link_dirs.len() - i,
        {
            let mut s = str_to_string("cargo:rustc-link-search=native=");
            s.append(root.as_str());
            s.append("/");
            s.append(self.build_link_dirs[i].as_str());
            proof {
                assert(self.build_link_dirs.deep_view()[i as int]
                    == self.build_link_dirs@[i as int]@);
                assert(s@ =~= link_search_line(root@, self.build_link_dirs.deep_view()[i as int]));
            }
            out.push(s);
            i = i + 1;
        }
        proof {
            assert(out.deep_view() =~= Seq::new(
                self.build_link_dirs.deep_view().len(),
                |i: int|
                    link_search_line(
                        crate::directories::toolchain_root_path_of(
                            self.directories.spec_root(),
                            self.context,
                        ),
                        self.build_link_dirs.deep_view()[i],
                    ),
            ));
        }
        out
    }

    /// Renders the option table as the delimited configuration section:
    /// one line per option, `name = ["dep", ...]`.
    pub fn render_cargo_features(&self) -> (r: String)
        ensures
            r@ == features_text(features_view(self.cargo_features@)),
    {
        let ghost ftv = features_view(self.cargo_features@);
        let mut out = String::new();
        let mut i: usize = 0;
        proof {
            assert(ftv.take(0).len() == 0);
            assert(out@ =~= features_text(ftv.take(0)));
        }
        while i < self.cargo_features.len()
            invariant
                ftv == features_view(self.cargo_features@),
                ftv.len() == self.cargo_features@.len(),
                i <= self.cargo_features.len(),
                out@ == features_text(ftv.take(i as int)),
            decreases self.cargo_features.len() - i,
        {
            let entry = &self.cargo_features[i];
            proof {
                assert(ftv[i as int] == (entry.0@, entry.1.deep_view()));
            }
            let ghost line_start = out@;
            out.append(entry.0.as_str());
            out.append(" = [");
            let ghost depsv = entry.1.deep_view();
            let mut j: usize = 0;
            proof {
                assert(depsv.take(0).len() == 0);
                assert(out@ =~= line_start + entry.0@ + " = ["@ + feature_value_text(
                    depsv.take(0),
                ));
            }
            while j < entry.1.len()
                invariant
                    depsv == entry.1.deep_view(),
                    depsv.len() == entry.1@.len(),
                    j <= entry.1.len(),
                    out@ == line_start + entry.0@ + " = ["@ + feature_value_text(
                        depsv.take(j as int),
                    ),
                decreases entry.1.len() - j,
            {
                proof {
                    assert(depsv[j as int] == entry.1@[j as int]@);
                }
                if j > 0 {
                    out.append(", ");
                }
                out.append("\"");
                out.append(entry.1[j].as_str());
                out.append("\"");
                proof {
                    assert(depsv.take(j as int).push(depsv[j as int]) =~= depsv.take(j as int + 1));
                    if j == 0 {
                        assert(depsv.take(1)[0] == depsv[0]);
                        assert(depsv.take(1).drop_first() =~= Seq::<Seq<char>>::empty());
                        assert(feature_value_text(depsv.take(1)) =~= quoted(depsv[0]));
                    } else {
                        lemma_feature_value_snoc(depsv.take(j as int), depsv[j as int]);
                    }
                    assert(out@ =~= line_start + entry.0@ + " = ["@ + feature_value_text(
                        depsv.take(j as int + 1),
                    ));
                }
                j = j + 1;
            }
            out.append("]\n");
            proof {
                assert(depsv.take(j as int) =~= depsv);
                lemma_features_text_snoc(ftv.take(i as int), ftv[i as int]);
                assert(ftv.take(i as int).push(ftv[i as int]) =~= ftv.take(i as int + 1));
                assert(out@ =~= features_text(ftv.take(i as int + 1)));
            }
            i = i + 1;
        }
        proof {
            assert(ftv.take(i as int) =~= ftv);
        }
        out
    }

    /// Renders the lines that open and close a link group.
    pub fn render_group_markers() -> (r: (String, String))
        ensures
            r.0@ == start_group_line(),
            r.1@ == end_group_line(),
    {
        (
            str_to_string("cargo:rustc-link-arg=-Wl,--start-group"),
            str_to_string("cargo:rustc-link-arg=-Wl,--end-group"),
        )
    }
}

} // verus!
