//! Dependency nodes: the units of the link dependency graph.
//!
//! A node is the immutable identity of one build target, taken from a
//! manifest entry or synthesized from a bare library reference. Two nodes
//! are the same when they agree on name, interface include directories,
//! interface link libraries, and location; the owning component and the
//! target kind deliberately do not take part, so one physical library
//! referenced from two manifests collapses to one node.

use vstd::prelude::*;

use crate::component::ToolchainComponent;
use crate::manifest::{
    lookup_target,
    ImportedTargetView,
    InherentTargetView,
    ManifestCMakeImportedTarget,
    ManifestCMakeInherentTarget,
    ToolchainComponentManifest,
};
use crate::strutil::{has_prefix, has_suffix, str_strip_prefix, str_strip_suffix, str_to_string};
use crate::system::ToolchainSys;

verus! {

#[derive(Clone, Copy, Debug, Eq, PartialEq, Structural)]
pub enum ToolchainComponentDependencyNodeKind {
    Executable,
    Interface,
    Module,
    Object,
    Shared { framework: bool },
    Static { framework: bool },
}

pub struct ToolchainComponentDependencyNode {
    pub component: Option<ToolchainComponent>,
    pub name: String,
    pub kind: ToolchainComponentDependencyNodeKind,
    pub interface_include_directories: Vec<String>,
    pub interface_link_directories: Vec<String>,
    pub interface_link_libraries: Vec<String>,
    pub location: Option<String>,
}

/// The mathematical shape of a dependency node.
pub ghost struct DependencyNodeView {
    pub component: Option<ToolchainComponent>,
    pub name: Seq<char>,
    pub kind: ToolchainComponentDependencyNodeKind,
    pub interface_include_directories: Seq<Seq<char>>,
    pub interface_link_directories: Seq<Seq<char>>,
    pub interface_link_libraries: Seq<Seq<char>>,
    pub location: Option<Seq<char>>,
}

impl View for ToolchainComponentDependencyNode {
    type V = DependencyNodeView;

    open spec fn view(&self) -> DependencyNodeView {
        DependencyNodeView {
            component: self.component,
            name: self.name@,
            kind: self.kind,
            interface_include_directories: self.interface_include_directories.deep_view(),
            interface_link_directories: self.interface_link_directories.deep_view(),
            interface_link_libraries: self.interface_link_libraries.deep_view(),
            location: self.location.deep_view(),
        }
    }
}

/// Node identity: name, interface include directories, interface link
/// libraries, and location — owning component and kind excluded.
pub open spec fn node_key_eq(a: DependencyNodeView, b: DependencyNodeView) -> bool {
    &&& a.name == b.name
    &&& a.interface_include_directories == b.interface_include_directories
    &&& a.interface_link_libraries == b.interface_link_libraries
    &&& a.location == b.location
}

impl PartialEq for ToolchainComponentDependencyNode {
    fn eq(&self, other: &Self) -> (r: bool) {
        let name_eq = crate::strutil::str_eq(self.name.as_str(), other.name.as_str());
        let includes_eq = string_vec_eq(
            &self.interface_include_directories,
            &other.interface_include_directories,
        );
        let libs_eq = string_vec_eq(
            &self.interface_link_libraries,
            &other.interface_link_libraries,
        );
        let location_eq = match (&self.location, &other.location) {
            (None, None) => true,
            (Some(a), Some(b)) => crate::strutil::str_eq(a.as_str(), b.as_str()),
            _ => false,
        };
        name_eq && includes_eq && libs_eq && location_eq
    }
}

impl vstd::std_specs::cmp::PartialEqSpecImpl for ToolchainComponentDependencyNode {
    open spec fn obeys_eq_spec() -> bool {
        true
    }

    open spec fn eq_spec(&self, other: &Self) -> bool {
        node_key_eq(self@, other@)
    }
}

/// Whether two string vectors hold the same character sequences.
pub fn string_vec_eq(a: &Vec<String>, b: &Vec<String>) -> (r: bool)
    ensures
        r == (a.deep_view() == b.deep_view()),
{
    if a.len() != b.len() {
        assert(a.deep_view().len() != b.deep_view().len());
        return false;
    }
    let mut i: usize = 0;
    while i < a.len()
        invariant
            a.len() == b.len(),
            i <= a.len(),
            forall|k: int| 0 <= k < i ==> a.deep_view()[k] == b.deep_view()[k],
        decreases a.len() - i,
    {
        if !crate::strutil::str_eq(a[i].as_str(), b[i].as_str()) {
            assert(a.deep_view()[i as int] != b.deep_view()[i as int]);
            return false;
        }
        i = i + 1;
    }
    proof {
        assert(a.deep_view() =~= b.deep_view());
    }
    true
}

/// The bare reference with an optional `lib` prefix removed.
pub open spec fn classify_base(name: Seq<char>) -> Seq<char> {
    if has_prefix(name, "lib"@) {
        name.skip("lib"@.len() as int)
    } else {
        name
    }
}

/// The name a bare library reference stands for, by the classification
/// chain: a platform-framework marker, then a static-archive suffix, then a
/// shared-object suffix, then the reference as it is.
pub open spec fn classify_name(name: Seq<char>) -> Seq<char> {
    if has_prefix(name, "-framework "@) {
        name.skip("-framework "@.len() as int)
    } else if has_suffix(classify_base(name), ".a"@) {
        classify_base(name).take(classify_base(name).len() - ".a"@.len())
    } else if has_suffix(classify_base(name), ".so"@) {
        classify_base(name).take(classify_base(name).len() - ".so"@.len())
    } else {
        name
    }
}

/// The target kind a bare library reference is classified as. A reference
/// with an unknown suffix counts as a plain shared library — a heuristic
/// default, since nothing distinguishes it from an unknown static archive.
pub open spec fn classify_kind(name: Seq<char>) -> ToolchainComponentDependencyNodeKind {
    if has_prefix(name, "-framework "@) {
        ToolchainComponentDependencyNodeKind::Shared { framework: true }
    } else if has_suffix(classify_base(name), ".a"@) {
        ToolchainComponentDependencyNodeKind::Static { framework: false }
    } else if has_suffix(classify_base(name), ".so"@) {
        ToolchainComponentDependencyNodeKind::Shared { framework: false }
    } else {
        ToolchainComponentDependencyNodeKind::Shared { framework: false }
    }
}

/// The node a bare library reference synthesizes to: classified name and
/// kind, no owning component, no properties, no location.
pub open spec fn spec_node_from_name(name: Seq<char>) -> DependencyNodeView {
    DependencyNodeView {
        component: None,
        name: classify_name(name),
        kind: classify_kind(name),
        interface_include_directories: Seq::<Seq<char>>::empty(),
        interface_link_directories: Seq::<Seq<char>>::empty(),
        interface_link_libraries: Seq::<Seq<char>>::empty(),
        location: None,
    }
}

/// The node a manifest-declared target maps to.
pub open spec fn spec_node_of_target(
    component: ToolchainComponent,
    name: Seq<char>,
    t: InherentTargetView,
) -> DependencyNodeView {
    match t {
        InherentTargetView::Executable {
            interface_include_directories,
            interface_link_directories,
            interface_link_libraries,
            location,
            ..
        } => DependencyNodeView {
            component: Some(component),
            name: name,
            kind: ToolchainComponentDependencyNodeKind::Executable,
            interface_include_directories,
            interface_link_directories,
            interface_link_libraries,
            location: Some(location),
        },
        InherentTargetView::SharedLibrary {
            framework,
            interface_include_directories,
            interface_link_directories,
            interface_link_libraries,
            location,
            ..
        } => DependencyNodeView {
            component: Some(component),
            name: name,
            kind: ToolchainComponentDependencyNodeKind::Shared { framework },
            interface_include_directories,
            interface_link_directories,
            interface_link_libraries,
            location: Some(location),
        },
        InherentTargetView::StaticLibrary {
            framework,
            interface_include_directories,
            interface_link_directories,
            interface_link_libraries,
            location,
            ..
        } => DependencyNodeView {
            component: Some(component),
            name: name,
            kind: ToolchainComponentDependencyNodeKind::Static { framework },
            interface_include_directories,
            interface_link_directories,
            interface_link_libraries,
            location: Some(location),
        },
        InherentTargetView::InterfaceLibrary {
            interface_include_directories,
            interface_link_directories,
            interface_link_libraries,
        } => DependencyNodeView {
            component: Some(component),
            name: name,
            kind: ToolchainComponentDependencyNodeKind::Interface,
            interface_include_directories,
            interface_link_directories,
            interface_link_libraries,
            location: None,
        },
    }
}

#[derive(Debug)]
pub enum Error {
    TargetFileNameNotFound { name: String },
    TargetLibraryParentDirNotContainedInLinkLibraries {
        name: String,
        link_libraries: Vec<String>,
    },
    TargetNotFoundInManifests { name: String },
    TargetNotInherentInManifests { name: String },
    ComponentNotLoaded { component: ToolchainComponent },
}

/// The manifest map is handed over as a vector of component-keyed entries;
/// it stands for an ordered map, so its components must ascend strictly in
/// the component order. First-match lookup then finds the least component.
pub open spec fn manifests_ordered(
    ms: Seq<(ToolchainComponent, crate::manifest::ToolchainComponentManifest)>,
) -> bool {
    forall|i: int, j: int|
        0 <= i < j < ms.len() ==> crate::component::spec_component_cmp(
            (#[trigger] ms[i]).0,
            (#[trigger] ms[j]).0,
        ) is Less
}

/// The manifest map's mathematical shape: component-keyed manifest views in
/// map order.
pub open spec fn manifests_view(
    ms: Seq<(ToolchainComponent, ToolchainComponentManifest)>,
) -> Seq<(ToolchainComponent, Seq<(Seq<char>, ImportedTargetView)>)> {
    Seq::new(ms.len(), |i: int| (ms[i].0, ms[i].1@))
}

/// The first component whose manifest declares `name`, with the declaring
/// entry.
pub open spec fn find_declaration(
    ms: Seq<(ToolchainComponent, Seq<(Seq<char>, ImportedTargetView)>)>,
    name: Seq<char>,
) -> Option<(ToolchainComponent, ImportedTargetView)>
    decreases ms.len(),
{
    if ms.len() == 0 {
        None
    } else {
        match lookup_target(ms[0].1, name) {
            Some(t) => Some((ms[0].0, t)),
            None => find_declaration(ms.drop_first(), name),
        }
    }
}

/// Resolution of a library reference, by precedence: a
/// manifest-declared inherent target yields its manifest node; a declared
/// but placeholder-only target is an error; an undeclared reference is
/// classified heuristically and has no owning component. The first
/// declaring entry of the manifest map wins — the least component, since
/// the map is ordered by component.
pub open spec fn spec_resolve(
    ms: Seq<(ToolchainComponent, Seq<(Seq<char>, ImportedTargetView)>)>,
    name: Seq<char>,
) -> Result<DependencyNodeView, ()> {
    match find_declaration(ms, name) {
        Some((component, t)) => match t {
            ImportedTargetView::Inherent { inherent_target, .. } => Ok(
                spec_node_of_target(component, name, inherent_target),
            ),
            ImportedTargetView::Adjacent { .. } => Err(()),
        },
        None => Ok(spec_node_from_name(name)),
    }
}

impl ToolchainComponentDependencyNode {
    /// Builds the node for a manifest-declared target.
    pub fn new(
        component: ToolchainComponent,
        name: &str,
        target: &ManifestCMakeInherentTarget,
    ) -> (r: Self)
        ensures
            r@ == spec_node_of_target(component, name@, target@),
    {
        match target {
            ManifestCMakeInherentTarget::Executable {
                interface_include_directories,
                interface_link_directories,
                interface_link_libraries,
                location,
                ..
            } => Self {
                component: Some(component),
                name: str_to_string(name),
                kind: ToolchainComponentDependencyNodeKind::Executable,
                interface_include_directories: clone_string_vec(interface_include_directories),
                interface_link_directories: clone_string_vec(interface_link_directories),
                interface_link_libraries: clone_string_vec(interface_link_libraries),
                location: Some(str_to_string(location.as_str())),
            },
            ManifestCMakeInherentTarget::SharedLibrary {
                framework,
                interface_include_directories,
                interface_link_directories,
                interface_link_libraries,
                location,
                ..
            } => Self {
                component: Some(component),
                name: str_to_string(name),
                kind: ToolchainComponentDependencyNodeKind::Shared { framework: *framework },
                interface_include_directories: clone_string_vec(interface_include_directories),
                interface_link_directories: clone_string_vec(interface_link_directories),
                interface_link_libraries: clone_string_vec(interface_link_libraries),
                location: Some(str_to_string(location.as_str())),
            },
            ManifestCMakeInherentTarget::StaticLibrary {
                framework,
                interface_include_directories,
                interface_link_directories,
                interface_link_libraries,
                location,
                ..
            } => Self {
                component: Some(component),
                name: str_to_string(name),
                kind: ToolchainComponentDependencyNodeKind::Static { framework: *framework },
                interface_include_directories: clone_string_vec(interface_include_directories),
                interface_link_directories: clone_string_vec(interface_link_directories),
                interface_link_libraries: clone_string_vec(interface_link_libraries),
                location: Some(str_to_string(location.as_str())),
            },
            ManifestCMakeInherentTarget::InterfaceLibrary {
                interface_include_directories,
                interface_link_directories,
                interface_link_libraries,
            } => Self {
                component: Some(component),
                name: str_to_string(name),
                kind: ToolchainComponentDependencyNodeKind::Interface,
                interface_include_directories: clone_string_vec(interface_include_directories),
                interface_link_directories: clone_string_vec(interface_link_directories),
                interface_link_libraries: clone_string_vec(interface_link_libraries),
                location: None,
            },
        }
    }

    /// Synthesizes the node for a bare library reference, classifying it by
    /// the precedence chain of [`classify_name`]. Resolving the same
    /// reference twice yields the same node.
    pub fn from_name(name: &str) -> (r: Self)
        ensures
            r@ == spec_node_from_name(name@),
    {
        let (short, kind) = classify_reference(name);
        let interface_include_directories: Vec<String> = Vec::new();
        let interface_link_directories: Vec<String> = Vec::new();
        let interface_link_libraries: Vec<String> = Vec::new();
        proof {
            assert(interface_include_directories.deep_view() =~= Seq::<Seq<char>>::empty());
            assert(interface_link_directories.deep_view() =~= Seq::<Seq<char>>::empty());
            assert(interface_link_libraries.deep_view() =~= Seq::<Seq<char>>::empty());
        }
        Self {
            component: None,
            name: short,
            kind,
            interface_include_directories,
            interface_link_directories,
            interface_link_libraries,
            location: None,
        }
    }

    /// Resolves `name` against the loaded manifests: the least component
    /// whose manifest declares it wins; an inherent declaration yields its
    /// manifest node; a placeholder declaration is refused; an undeclared
    /// name falls back to heuristic classification.
    pub fn from_manifests(
        name: &str,
        manifests: &Vec<(ToolchainComponent, ToolchainComponentManifest)>,
    ) -> (r: Result<Self, Error>)
        requires
            manifests_ordered(manifests@),
        ensures
            match r {
                Ok(node) => spec_resolve(manifests_view(manifests@), name@) == Ok::<
                    DependencyNodeView,
                    (),
                >(node@),
                Err(e) => spec_resolve(manifests_view(manifests@), name@) is Err && (e matches Error
                    ::TargetNotInherentInManifests { name: n } && n@ == name@),
            },
    {
        let ghost ms = manifests_view(manifests@);
        let mut i: usize = 0;
        proof {
            assert(ms.skip(0) =~= ms);
        }
        loop
            invariant
                ms == manifests_view(manifests@),
                i <= manifests.len(),
                ms.len() == manifests@.len(),
                find_declaration(ms, name@) == find_declaration(ms.skip(i as int), name@),
            decreases manifests.len() - i,
        {
            if i == manifests.len() {
                proof {
                    assert(ms.skip(i as int).len() == 0);
                }
                return Ok(Self::from_name(name));
            }
            proof {
                assert(ms.skip(i as int)[0] == ms[i as int]);
                assert(ms.skip(i as int).drop_first() =~= ms.skip(i as int + 1));
            }
            let entry = &manifests[i];
            match entry.1.cmake_properties.get_imported_target(name) {
                Some(target) => {
                    match target {
                        ManifestCMakeImportedTarget::Inherent { inherent_target, .. } => {
                            return Ok(Self::new(entry.0, name, inherent_target));
                        },
                        ManifestCMakeImportedTarget::Adjacent { .. } => {
                            return Err(
                                Error::TargetNotInherentInManifests { name: str_to_string(name) },
                            );
                        },
                    }
                },
                None => {
                    i = i + 1;
                },
            }
        }
    }

    /// Whether the node is a platform framework bundle.
    pub fn is_framework(&self) -> (r: bool)
        ensures
            r == spec_is_framework(self@.kind),
    {
        match self.kind {
            ToolchainComponentDependencyNodeKind::Shared { framework } => framework,
            ToolchainComponentDependencyNodeKind::Static { framework } => framework,
            _ => false,
        }
    }

    /// The file extension the platform expects for this node's linkage, when
    /// the kind has one there.
    pub fn expected_extension(&self, sys: ToolchainSys) -> (r: Option<&'static str>)
        ensures
            match r {
                Some(e) => spec_expected_extension(self@.kind, sys) == Some(e@),
                None => spec_expected_extension(self@.kind, sys) is None,
            },
    {
        if self.is_framework() {
            return Some("framework");
        }
        match self.kind {
            ToolchainComponentDependencyNodeKind::Shared { .. } => match sys {
                ToolchainSys::Linux => Some("so"),
                ToolchainSys::Macos => Some("dylib"),
                ToolchainSys::Windows => Some("dll"),
            },
            ToolchainComponentDependencyNodeKind::Static { .. } => match sys {
                ToolchainSys::Linux => Some("a"),
                ToolchainSys::Macos => Some("a"),
                ToolchainSys::Windows => Some("lib"),
            },
            _ => None,
        }
    }

    /// The file name the platform expects: `lib<name>.<extension>`.
    pub fn expected_file_name(&self, sys: ToolchainSys) -> (r: Option<String>)
        ensures
            match r {
                Some(f) => spec_expected_file_name(self@, sys) == Some(f@),
                None => spec_expected_file_name(self@, sys) is None,
            },
    {
        match self.expected_extension(sys) {
            Some(ext) => {
                let mut s = str_to_string("lib");
                s.append(self.name.as_str());
                s.append(".");
                s.append(ext);
                proof {
                    assert(s@ =~= "lib"@ + self@.name + "."@ + spec_expected_extension(
                        self@.kind,
                        sys,
                    )->0);
                }
                Some(s)
            },
            None => None,
        }
    }

    /// The linkage directive a node of this kind takes: `framework` for
    /// framework bundles, `dylib` for shared libraries, `static` for static
    /// libraries; executables and interface-only targets link nothing.
    pub fn rustc_link_lib_linkage(&self) -> (r: Option<&'static str>)
        ensures
            match r {
                Some(l) => spec_linkage(self@.kind) == Some(l@),
                None => spec_linkage(self@.kind) is None,
            },
    {
        match self.kind {
            ToolchainComponentDependencyNodeKind::Shared { framework } => {
                if framework {
                    Some("framework")
                } else {
                    Some("dylib")
                }
            },
            ToolchainComponentDependencyNodeKind::Static { framework } => {
                if framework {
                    Some("framework")
                } else {
                    Some("static")
                }
            },
            _ => None,
        }
    }
}

/// Whether a kind is a framework bundle.
pub open spec fn spec_is_framework(kind: ToolchainComponentDependencyNodeKind) -> bool {
    match kind {
        ToolchainComponentDependencyNodeKind::Shared { framework } => framework,
        ToolchainComponentDependencyNodeKind::Static { framework } => framework,
        _ => false,
    }
}

/// The platform-expected file extension per kind and system.
pub open spec fn spec_expected_extension(
    kind: ToolchainComponentDependencyNodeKind,
    sys: ToolchainSys,
) -> Option<Seq<char>> {
    if spec_is_framework(kind) {
        Some("framework"@)
    } else {
        match kind {
            ToolchainComponentDependencyNodeKind::Shared { .. } => match sys {
                ToolchainSys::Linux => Some("so"@),
                ToolchainSys::Macos => Some("dylib"@),
                ToolchainSys::Windows => Some("dll"@),
            },
            ToolchainComponentDependencyNodeKind::Static { .. } => match sys {
                ToolchainSys::Linux => Some("a"@),
                ToolchainSys::Macos => Some("a"@),
                ToolchainSys::Windows => Some("lib"@),
            },
            _ => None,
        }
    }
}

/// The platform-expected file name `lib<name>.<extension>`, when the kind
/// has an extension on the system.
pub open spec fn spec_expected_file_name(n: DependencyNodeView, sys: ToolchainSys) -> Option<
    Seq<char>,
> {
    match spec_expected_extension(n.kind, sys) {
        Some(ext) => Some("lib"@ + n.name + "."@ + ext),
        None => None,
    }
}

/// The linkage directive per kind.
pub open spec fn spec_linkage(kind: ToolchainComponentDependencyNodeKind) -> Option<Seq<char>> {
    match kind {
        ToolchainComponentDependencyNodeKind::Shared { framework } => {
            if framework {
                Some("framework"@)
            } else {
                Some("dylib"@)
            }
        },
        ToolchainComponentDependencyNodeKind::Static { framework } => {
            if framework {
                Some("framework"@)
            } else {
                Some("static"@)
            }
        },
        _ => None,
    }
}

/// A link-library entry with a generator-expression `$<LINK_ONLY:...>`
/// wrapper removed; an unwrapped entry stays as it is.
pub open spec fn unwrap_link_only(s: Seq<char>) -> Seq<char> {
    if has_prefix(s, "$<LINK_ONLY:"@) && has_suffix(
        s.skip("$<LINK_ONLY:"@.len() as int),
        ">"@,
    ) {
        s.skip("$<LINK_ONLY:"@.len() as int).take(
            s.len() - "$<LINK_ONLY:"@.len() - ">"@.len(),
        )
    } else {
        s
    }
}

/// Strips a `$<LINK_ONLY:...>` wrapper from a link-library entry.
pub fn unwrap_link_only_exec(s: &str) -> (r: &str)
    ensures
        r@ == unwrap_link_only(s@),
{
    match str_strip_prefix(s, "$<LINK_ONLY:") {
        Some(rest) => match str_strip_suffix(rest, ">") {
            Some(inner) => inner,
            None => s,
        },
        None => s,
    }
}

/// Classifies a bare reference: the name it stands for and its kind.
fn classify_reference(name: &str) -> (r: (String, ToolchainComponentDependencyNodeKind))
    ensures
        r.0@ == classify_name(name@),
        r.1 == classify_kind(name@),
{
    match str_strip_prefix(name, "-framework ") {
        Some(rest) => {
            return (
                str_to_string(rest),
                ToolchainComponentDependencyNodeKind::Shared { framework: true },
            );
        },
        None => {},
    }
    let base = match str_strip_prefix(name, "lib") {
        Some(rest) => rest,
        None => name,
    };
    match str_strip_suffix(base, ".a") {
        Some(short) => {
            return (
                str_to_string(short),
                ToolchainComponentDependencyNodeKind::Static { framework: false },
            );
        },
        None => {},
    }
    match str_strip_suffix(base, ".so") {
        Some(short) => {
            return (
                str_to_string(short),
                ToolchainComponentDependencyNodeKind::Shared { framework: false },
            );
        },
        None => {},
    }
    (str_to_string(name), ToolchainComponentDependencyNodeKind::Shared { framework: false })
}

/// Copies a string vector; the copy holds the same character sequences.
pub fn clone_string_vec(v: &Vec<String>) -> (r: Vec<String>)
    ensures
        r.deep_view() == v.deep_view(),
{
    let mut out: Vec<String> = Vec::new();
    let mut i: usize = 0;
    while i < v.len()
        invariant
            i <= v.len(),
            out.len() == i,
            forall|k: int| 0 <= k < i ==> out.deep_view()[k] == v.deep_view()[k],
        decreases v.len() - i,
    {
        out.push(v[i].clone());
        i = i + 1;
    }
    proof {
        assert(out.deep_view() =~= v.deep_view());
    }
    out
}

} // verus!
