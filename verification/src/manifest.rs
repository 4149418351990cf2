//! The structured form of one component's exported-target manifest.
//!
//! A manifest lists imported targets by name, in the order the manifest
//! declares them. An `Inherent` entry carries the target's full build
//! properties; an `Adjacent` entry is a placeholder that names the
//! distribution the target really belongs to.

use vstd::prelude::*;

use crate::component::ToolchainComponent;

verus! {

#[derive(Clone, Copy, Debug, Eq, Hash, PartialEq, Structural)]
pub enum ManifestDistribution {
    Clang,
    Llvm,
    Mlir,
    Swift,
    ToolClang,
    ToolLld,
}

/// The component a distribution tag stands for.
pub open spec fn component_of_distribution(d: ManifestDistribution) -> ToolchainComponent {
    match d {
        ManifestDistribution::Clang => ToolchainComponent::Clang,
        ManifestDistribution::Llvm => ToolchainComponent::Llvm,
        ManifestDistribution::Mlir => ToolchainComponent::Mlir,
        ManifestDistribution::Swift => ToolchainComponent::Swift,
        ManifestDistribution::ToolClang => ToolchainComponent::ToolClang,
        ManifestDistribution::ToolLld => ToolchainComponent::ToolLld,
    }
}

impl From<ManifestDistribution> for ToolchainComponent {
    fn from(distribution: ManifestDistribution) -> (r: Self) {
        match distribution {
            ManifestDistribution::Clang => Self::Clang,
            ManifestDistribution::Llvm => Self::Llvm,
            ManifestDistribution::Mlir => Self::Mlir,
            ManifestDistribution::Swift => Self::Swift,
            ManifestDistribution::ToolClang => Self::ToolClang,
            ManifestDistribution::ToolLld => Self::ToolLld,
        }
    }
}

impl vstd::std_specs::convert::FromSpecImpl<ManifestDistribution> for ToolchainComponent {
    open spec fn obeys_from_spec() -> bool {
        true
    }

    open spec fn from_spec(d: ManifestDistribution) -> Self {
        component_of_distribution(d)
    }
}

/// Parses a CMake boolean string: `TRUE` and `ON` are true, `FALSE` and
/// `OFF` are false, anything else is not a CMake boolean.
pub fn parse_cmake_bool(s: &str) -> (r: Option<bool>)
    ensures
        r == Some(true) <==> (s@ == "TRUE"@ || s@ == "ON"@),
        r == Some(false) <==> (s@ == "FALSE"@ || s@ == "OFF"@),
{
    proof {
        reveal_strlit("TRUE");
        reveal_strlit("ON");
        reveal_strlit("FALSE");
        reveal_strlit("OFF");
        assert("TRUE"@.len() == 4);
        assert("ON"@.len() == 2);
        assert("FALSE"@.len() == 5);
        assert("OFF"@.len() == 3);
    }
    if crate::strutil::str_eq(s, "TRUE") || crate::strutil::str_eq(s, "ON") {
        Some(true)
    } else if crate::strutil::str_eq(s, "FALSE") || crate::strutil::str_eq(s, "OFF") {
        Some(false)
    } else {
        None
    }
}

/// One imported target's full build properties.
pub enum ManifestCMakeInherentTarget {
    Executable {
        imported_configurations: Vec<String>,
        interface_include_directories: Vec<String>,
        interface_link_directories: Vec<String>,
        interface_link_libraries: Vec<String>,
        location: String,
        location_config: String,
        macosx_package_location: String,
        vs_deployment_location: String,
    },
    InterfaceLibrary {
        interface_include_directories: Vec<String>,
        interface_link_directories: Vec<String>,
        interface_link_libraries: Vec<String>,
    },
    SharedLibrary {
        framework: bool,
        imported_configurations: Vec<String>,
        interface_include_directories: Vec<String>,
        interface_link_directories: Vec<String>,
        interface_link_libraries: Vec<String>,
        location: String,
        location_config: String,
        macosx_package_location: String,
        vs_deployment_location: String,
    },
    StaticLibrary {
        framework: bool,
        imported_configurations: Vec<String>,
        interface_include_directories: Vec<String>,
        interface_link_directories: Vec<String>,
        interface_link_libraries: Vec<String>,
        location: String,
        location_config: String,
        macosx_package_location: String,
        vs_deployment_location: String,
    },
}

/// The mathematical shape of an inherent target: its strings as character
/// sequences.
pub ghost enum InherentTargetView {
    Executable {
        imported_configurations: Seq<Seq<char>>,
        interface_include_directories: Seq<Seq<char>>,
        interface_link_directories: Seq<Seq<char>>,
        interface_link_libraries: Seq<Seq<char>>,
        location: Seq<char>,
        location_config: Seq<char>,
        macosx_package_location: Seq<char>,
        vs_deployment_location: Seq<char>,
    },
    InterfaceLibrary {
        interface_include_directories: Seq<Seq<char>>,
        interface_link_directories: Seq<Seq<char>>,
        interface_link_libraries: Seq<Seq<char>>,
    },
    SharedLibrary {
        framework: bool,
        imported_configurations: Seq<Seq<char>>,
        interface_include_directories: Seq<Seq<char>>,
        interface_link_directories: Seq<Seq<char>>,
        interface_link_libraries: Seq<Seq<char>>,
        location: Seq<char>,
        location_config: Seq<char>,
        macosx_package_location: Seq<char>,
        vs_deployment_location: Seq<char>,
    },
    StaticLibrary {
        framework: bool,
        imported_configurations: Seq<Seq<char>>,
        interface_include_directories: Seq<Seq<char>>,
        interface_link_directories: Seq<Seq<char>>,
        interface_link_libraries: Seq<Seq<char>>,
        location: Seq<char>,
        location_config: Seq<char>,
        macosx_package_location: Seq<char>,
        vs_deployment_location: Seq<char>,
    },
}

impl View for ManifestCMakeInherentTarget {
    type V = InherentTargetView;

    open spec fn view(&self) -> InherentTargetView {
        match self {
            ManifestCMakeInherentTarget::Executable {
                imported_configurations,
                interface_include_directories,
                interface_link_directories,
                interface_link_libraries,
                location,
                location_config,
                macosx_package_location,
                vs_deployment_location,
            } => InherentTargetView::Executable {
                imported_configurations: imported_configurations.deep_view(),
                interface_include_directories: interface_include_directories.deep_view(),
                interface_link_directories: interface_link_directories.deep_view(),
                interface_link_libraries: interface_link_libraries.deep_view(),
                location: location@,
                location_config: location_config@,
                macosx_package_location: macosx_package_location@,
                vs_deployment_location: vs_deployment_location@,
            },
            ManifestCMakeInherentTarget::InterfaceLibrary {
                interface_include_directories,
                interface_link_directories,
                interface_link_libraries,
            } => InherentTargetView::InterfaceLibrary {
                interface_include_directories: interface_include_directories.deep_view(),
                interface_link_directories: interface_link_directories.deep_view(),
                interface_link_libraries: interface_link_libraries.deep_view(),
            },
            ManifestCMakeInherentTarget::SharedLibrary {
                framework,
                imported_configurations,
                interface_include_directories,
                interface_link_directories,
                interface_link_libraries,
                location,
                location_config,
                macosx_package_location,
                vs_deployment_location,
            } => InherentTargetView::SharedLibrary {
                framework: *framework,
                imported_configurations: imported_configurations.deep_view(),
                interface_include_directories: interface_include_directories.deep_view(),
                interface_link_directories: interface_link_directories.deep_view(),
                interface_link_libraries: interface_link_libraries.deep_view(),
                location: location@,
                location_config: location_config@,
                macosx_package_location: macosx_package_location@,
                vs_deployment_location: vs_deployment_location@,
            },
            ManifestCMakeInherentTarget::StaticLibrary {
                framework,
                imported_configurations,
                interface_include_directories,
                interface_link_directories,
                interface_link_libraries,
                location,
                location_config,
                macosx_package_location,
                vs_deployment_location,
            } => InherentTargetView::StaticLibrary {
                framework: *framework,
                imported_configurations: imported_configurations.deep_view(),
                interface_include_directories: interface_include_directories.deep_view(),
                interface_link_directories: interface_link_directories.deep_view(),
                interface_link_libraries: interface_link_libraries.deep_view(),
                location: location@,
                location_config: location_config@,
                macosx_package_location: macosx_package_location@,
                vs_deployment_location: vs_deployment_location@,
            },
        }
    }
}

/// One imported-target entry: a placeholder or a full declaration.
pub enum ManifestCMakeImportedTarget {
    Adjacent { distribution: ManifestDistribution },
    Inherent {
        imported: bool,
        name: String,
        system: bool,
        inherent_target: ManifestCMakeInherentTarget,
    },
}

pub ghost enum ImportedTargetView {
    Adjacent { distribution: ManifestDistribution },
    Inherent { imported: bool, name: Seq<char>, system: bool, inherent_target: InherentTargetView },
}

impl View for ManifestCMakeImportedTarget {
    type V = ImportedTargetView;

    open spec fn view(&self) -> ImportedTargetView {
        match self {
            ManifestCMakeImportedTarget::Adjacent { distribution } => ImportedTargetView::Adjacent {
                distribution: *distribution,
            },
            ManifestCMakeImportedTarget::Inherent {
                imported,
                name,
                system,
                inherent_target,
            } => ImportedTargetView::Inherent {
                imported: *imported,
                name: name@,
                system: *system,
                inherent_target: inherent_target@,
            },
        }
    }
}

/// The CMake properties of one manifest: its imported targets by name, in
/// declaration order.
pub struct ManifestCMakeProperties {
    pub imported_targets: Vec<(String, ManifestCMakeImportedTarget)>,
}

impl View for ManifestCMakeProperties {
    type V = Seq<(Seq<char>, ImportedTargetView)>;

    open spec fn view(&self) -> Seq<(Seq<char>, ImportedTargetView)> {
        Seq::new(
            self.imported_targets@.len(),
            |i: int| (self.imported_targets@[i].0@, self.imported_targets@[i].1@),
        )
    }
}

/// One component's manifest.
pub struct ToolchainComponentManifest {
    pub cmake_properties: ManifestCMakeProperties,
}

impl View for ToolchainComponentManifest {
    type V = Seq<(Seq<char>, ImportedTargetView)>;

    open spec fn view(&self) -> Seq<(Seq<char>, ImportedTargetView)> {
        self.cmake_properties@
    }
}

/// The first target declared under `name`, if any.
pub open spec fn lookup_target(
    targets: Seq<(Seq<char>, ImportedTargetView)>,
    name: Seq<char>,
) -> Option<ImportedTargetView>
    decreases targets.len(),
{
    if targets.len() == 0 {
        None
    } else if targets[0].0 == name {
        Some(targets[0].1)
    } else {
        lookup_target(targets.drop_first(), name)
    }
}

proof fn lemma_lookup_target_shift(
    targets: Seq<(Seq<char>, ImportedTargetView)>,
    name: Seq<char>,
    i: int,
)
    requires
        0 <= i < targets.len(),
        targets[i].0 != name,
        lookup_target(targets, name) == lookup_target(targets.skip(i), name),
    ensures
        lookup_target(targets, name) == lookup_target(targets.skip(i + 1), name),
{
    assert(targets.skip(i)[0] == targets[i]);
    assert(targets.skip(i).drop_first() =~= targets.skip(i + 1));
}

impl ManifestCMakeProperties {
    /// Finds the first imported target declared under `name`.
    pub fn get_imported_target(&self, name: &str) -> (r: Option<&ManifestCMakeImportedTarget>)
        ensures
            match r {
                Some(t) => lookup_target(self@, name@) == Some(t@),
                None => lookup_target(self@, name@) is None,
            },
    {
        let ghost whole = self@;
        let mut i: usize = 0;
        proof {
            assert(whole.skip(0) =~= whole);
        }
        loop
            invariant
                whole == self@,
                i <= self.imported_targets.len(),
                whole.len() == self.imported_targets@.len(),
                lookup_target(whole, name@) == lookup_target(whole.skip(i as int), name@),
            decreases self.imported_targets.len() - i,
        {
            if i == self.imported_targets.len() {
                proof {
                    assert(whole.skip(i as int).len() == 0);
                }
                return None;
            }
            proof {
                assert(whole.skip(i as int)[0] == whole[i as int]);
            }
            if crate::strutil::str_eq(self.imported_targets[i].0.as_str(), name) {
                return Some(&self.imported_targets[i].1);
            }
            proof {
                lemma_lookup_target_shift(whole, name@, i as int);
            }
            i = i + 1;
        }
    }

    /// Whether some imported target is declared under `name`.
    pub fn contains_target(&self, name: &str) -> (r: bool)
        ensures
            r == (lookup_target(self@, name@) is Some),
    {
        match self.get_imported_target(name) {
            Some(_) => true,
            None => false,
        }
    }
}

} // verus!
