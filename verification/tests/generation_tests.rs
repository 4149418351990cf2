use llvmup::analysis::ToolchainAnalysis;
use llvmup::component::ToolchainComponent;
use llvmup::context::ToolchainContext;
use llvmup::directories::Directories;
use llvmup::generation::{generator, CargoBuildItem, CargoConfig, LinkDirective};
use llvmup::manifest::{
    ManifestCMakeImportedTarget,
    ManifestCMakeInherentTarget,
    ManifestCMakeProperties,
    ToolchainComponentManifest,
};
use llvmup::node::{Error, ToolchainComponentDependencyNode, ToolchainComponentDependencyNodeKind};
use llvmup::platform::ToolchainPlatform;
use llvmup::release::ToolchainRelease;
use llvmup::revision::ToolchainRevision;
use llvmup::system::ToolchainSys;
use llvmup::toolchain::ToolchainHandle;
use llvmup::variant::ToolchainVariant;

fn to_strings(xs: &[&str]) -> Vec<String> {
    xs.iter().map(|s| s.to_string()).collect()
}

fn shared_node(
    name: &str,
    link_dirs: &[&str],
    location: Option<&str>,
) -> ToolchainComponentDependencyNode {
    ToolchainComponentDependencyNode {
        component: Some(ToolchainComponent::Llvm),
        name: name.to_string(),
        kind: ToolchainComponentDependencyNodeKind::Shared { framework: false },
        interface_include_directories: Vec::new(),
        interface_link_directories: to_strings(link_dirs),
        interface_link_libraries: Vec::new(),
        location: location.map(|l| l.to_string()),
    }
}

fn context() -> ToolchainContext {
    ToolchainContext::new(
        ToolchainVariant::Llvmorg,
        ToolchainRelease::new(17, 0, Some(2)),
        ToolchainRevision::new(None),
        ToolchainPlatform::X86_64_LINUX_GNU,
    )
}

fn static_target(libs: &[&str], dirs: &[&str], location: &str) -> ManifestCMakeInherentTarget {
    ManifestCMakeInherentTarget::StaticLibrary {
        framework: false,
        imported_configurations: Vec::new(),
        interface_include_directories: Vec::new(),
        interface_link_directories: to_strings(dirs),
        interface_link_libraries: to_strings(libs),
        location: location.to_string(),
        location_config: String::new(),
        macosx_package_location: String::new(),
        vs_deployment_location: String::new(),
    }
}

fn inherent(name: &str, t: ManifestCMakeInherentTarget) -> (String, ManifestCMakeImportedTarget) {
    (
        name.to_string(),
        ManifestCMakeImportedTarget::Inherent {
            imported: true,
            name: name.to_string(),
            system: false,
            inherent_target: t,
        },
    )
}

fn generate(
    entries: Vec<(String, ManifestCMakeImportedTarget)>,
) -> CargoConfig {
    let manifests = vec![(
        ToolchainComponent::Llvm,
        ToolchainComponentManifest {
            cmake_properties: ManifestCMakeProperties { imported_targets: entries },
        },
    )];
    let components = vec![ToolchainComponent::Llvm];
    let analysis =
        ToolchainAnalysis::new(ToolchainHandle { hash: 1 }, &components, &manifests).unwrap();
    let gen = generator(
        context(),
        Directories::new("/opt/tc".to_string()),
        &analysis,
        &components,
        Vec::new(),
    )
    .unwrap();
    gen.generate_cargo_config(ToolchainSys::Linux).unwrap()
}

#[test]
fn scenario_matching_file_name_links_by_name() {
    // Expected name libfoo.so on Linux, actual file name the same:
    // non-verbatim, the directive uses the bare name.
    let node = shared_node("foo", &["/toolchain/lib"], Some("/toolchain/lib/libfoo.so"));
    let instr = node
        .emit_cargo_link_instruction(true, ToolchainSys::Linux)
        .unwrap()
        .unwrap();
    assert_eq!(instr.feature_gate.as_deref(), Some("foo"));
    assert!(!instr.directive.verbatim);
    assert_eq!(instr.directive.linkage, "dylib");
    assert_eq!(instr.directive.name, "foo");
    assert_eq!(instr.directive.render_line(), "cargo:rustc-link-lib=dylib=foo");
}

#[test]
fn scenario_differing_file_name_links_verbatim() {
    // Actual file name libfoo-1.0.so differs from the expected libfoo.so:
    // verbatim, the directive carries the literal file name.
    let node = shared_node(
        "foo",
        &["/toolchain/lib"],
        Some("/toolchain/lib/libfoo-1.0.so"),
    );
    let instr = node
        .emit_cargo_link_instruction(true, ToolchainSys::Linux)
        .unwrap()
        .unwrap();
    assert!(instr.directive.verbatim);
    assert_eq!(instr.directive.name, "libfoo-1.0.so");
    assert_eq!(
        instr.directive.render_line(),
        "cargo:rustc-link-lib=dylib:+verbatim=libfoo-1.0.so"
    );
}

#[test]
fn locationless_node_links_by_name_without_path() {
    let node = shared_node("m", &[], None);
    let instr = node
        .emit_cargo_link_instruction(true, ToolchainSys::Linux)
        .unwrap()
        .unwrap();
    assert!(!instr.directive.verbatim);
    assert_eq!(instr.directive.name, "m");
    assert_eq!(instr.directive.linkage, "dylib");
}

#[test]
fn executable_node_links_nothing() {
    let node = ToolchainComponentDependencyNode {
        component: Some(ToolchainComponent::Llvm),
        name: "tool".to_string(),
        kind: ToolchainComponentDependencyNodeKind::Executable,
        interface_include_directories: Vec::new(),
        interface_link_directories: Vec::new(),
        interface_link_libraries: Vec::new(),
        location: Some("/bin/tool".to_string()),
    };
    let r = node.emit_cargo_link_instruction(true, ToolchainSys::Linux).unwrap();
    assert!(r.is_none());
}

#[test]
fn missing_file_name_is_an_error() {
    let node = shared_node("foo", &["/t"], Some("/t/"));
    let r = node.emit_cargo_link_instruction(true, ToolchainSys::Linux);
    assert!(matches!(r, Err(Error::TargetFileNameNotFound { .. })));
}

#[test]
fn parent_outside_link_directories_is_an_error() {
    let node = shared_node("foo", &["/other"], Some("/toolchain/lib/libfoo.so"));
    let r = node.emit_cargo_link_instruction(true, ToolchainSys::Linux);
    match r {
        Err(Error::TargetLibraryParentDirNotContainedInLinkLibraries { name, .. }) => {
            assert_eq!(name, "foo");
        }
        _ => panic!("expected parent-directory error"),
    }
}

#[test]
fn framework_kind_has_framework_linkage_everywhere() {
    let node = ToolchainComponentDependencyNode {
        component: None,
        name: "Cocoa".to_string(),
        kind: ToolchainComponentDependencyNodeKind::Shared { framework: true },
        interface_include_directories: Vec::new(),
        interface_link_directories: Vec::new(),
        interface_link_libraries: Vec::new(),
        location: None,
    };
    let instr = node
        .emit_cargo_link_instruction(false, ToolchainSys::Macos)
        .unwrap()
        .unwrap();
    assert!(instr.feature_gate.is_none());
    assert_eq!(instr.directive.linkage, "framework");
}

#[test]
fn generated_config_excludes_external_names_from_features() {
    // `lib` links the undeclared `m`: the option table holds `lib` with no
    // dependencies, and `m` is not a key.
    let cfg = generate(vec![inherent(
        "lib",
        static_target(&["m"], &["/toolchain/lib"], "/toolchain/lib/liblib.a"),
    )]);
    assert_eq!(cfg.cargo_features.len(), 1);
    assert_eq!(cfg.cargo_features[0].0, "lib");
    assert!(cfg.cargo_features[0].1.is_empty());
    assert_eq!(cfg.build_link_dirs, vec!["/toolchain/lib".to_string()]);
}

#[test]
fn generated_items_gate_singletons_and_bracket_cycles() {
    let cfg = generate(vec![
        inherent("a", static_target(&["b"], &["/t"], "/t/liba.a")),
        inherent("b", static_target(&["a"], &["/t"], "/t/libb.a")),
    ]);
    // One cycle group of both static libraries.
    assert_eq!(cfg.build_link_items.len(), 1);
    match &cfg.build_link_items[0] {
        CargoBuildItem::Group { features, instructions } => {
            assert_eq!(features.len(), 2);
            assert!(features.contains(&"a".to_string()));
            assert!(features.contains(&"b".to_string()));
            assert_eq!(instructions.len(), 2);
            for instr in instructions {
                assert!(instr.feature_gate.is_none());
                assert_eq!(instr.directive.linkage, "static");
            }
        }
        _ => panic!("expected a cycle group"),
    }
    // Non-external option dependencies stay: a depends on b and vice versa.
    let a_deps = &cfg
        .cargo_features
        .iter()
        .find(|(k, _)| k == "a")
        .unwrap()
        .1;
    assert_eq!(a_deps, &vec!["b".to_string()]);
}

#[test]
fn feature_dependencies_are_sorted_and_deduplicated() {
    let cfg = generate(vec![
        inherent(
            "top",
            static_target(&["zeta", "alpha", "zeta"], &["/t"], "/t/libtop.a"),
        ),
        inherent("zeta", static_target(&[], &["/t"], "/t/libzeta.a")),
        inherent("alpha", static_target(&[], &["/t"], "/t/libalpha.a")),
    ]);
    let top_deps = &cfg
        .cargo_features
        .iter()
        .find(|(k, _)| k == "top")
        .unwrap()
        .1;
    assert_eq!(top_deps, &to_strings(&["alpha", "zeta"]));
    // The option table itself is sorted by key.
    let keys: Vec<&str> = cfg.cargo_features.iter().map(|(k, _)| k.as_str()).collect();
    assert_eq!(keys, vec!["alpha", "top", "zeta"]);
}

#[test]
fn crate_dependency_forwards_follow_plain_dependencies() {
    let manifests = vec![(
        ToolchainComponent::Llvm,
        ToolchainComponentManifest {
            cmake_properties: ManifestCMakeProperties {
                imported_targets: vec![inherent(
                    "lib",
                    static_target(&[], &["/t"], "/t/liblib.a"),
                )],
            },
        },
    )];
    let components = vec![ToolchainComponent::Llvm];
    let analysis =
        ToolchainAnalysis::new(ToolchainHandle { hash: 1 }, &components, &manifests).unwrap();
    let gen = generator(
        context(),
        Directories::new("/opt/tc".to_string()),
        &analysis,
        &components,
        vec![(ToolchainComponent::Llvm, to_strings(&["llvm-sys"]))],
    )
    .unwrap();
    let cfg = gen.generate_cargo_config(ToolchainSys::Linux).unwrap();
    assert_eq!(cfg.cargo_features[0].0, "lib");
    assert_eq!(cfg.cargo_features[0].1, vec!["llvm-sys/lib".to_string()]);
}

#[test]
fn generator_refuses_unanalysed_components() {
    let manifests = vec![(
        ToolchainComponent::Llvm,
        ToolchainComponentManifest {
            cmake_properties: ManifestCMakeProperties { imported_targets: Vec::new() },
        },
    )];
    let analysed = vec![ToolchainComponent::Llvm];
    let analysis =
        ToolchainAnalysis::new(ToolchainHandle { hash: 1 }, &analysed, &manifests).unwrap();
    let requested = vec![ToolchainComponent::Clang];
    let r = generator(
        context(),
        Directories::new("/opt/tc".to_string()),
        &analysis,
        &requested,
        Vec::new(),
    );
    assert!(matches!(
        r,
        Err(llvmup::generation::GenerationError::ToolchainAnalysisNotPerformedForComponent {
            component: ToolchainComponent::Clang,
        })
    ));
}

#[test]
fn link_search_lines_resolve_under_the_toolchain_root() {
    let cfg = generate(vec![inherent(
        "lib",
        static_target(&[], &["lib/x86_64"], "lib/x86_64/liblib.a"),
    )]);
    let lines = cfg.render_link_search_lines();
    assert_eq!(lines.len(), 1);
    assert_eq!(
        lines[0],
        "cargo:rustc-link-search=native=/opt/tc/trees/llvmorg-17.0.2/x86_64-linux-gnu/lib/x86_64"
    );
}

#[test]
fn feature_section_renders_one_line_per_option() {
    let cfg = generate(vec![
        inherent("top", static_target(&["base", "m"], &["/t"], "/t/libtop.a")),
        inherent("base", static_target(&[], &["/t"], "/t/libbase.a")),
    ]);
    assert_eq!(
        cfg.render_cargo_features(),
        "base = []\ntop = [\"base\"]\n"
    );
}

#[test]
fn group_marker_lines_bracket_cycles() {
    let (start, end) = CargoConfig::render_group_markers();
    assert_eq!(start, "cargo:rustc-link-arg=-Wl,--start-group");
    assert_eq!(end, "cargo:rustc-link-arg=-Wl,--end-group");
}

#[test]
fn windows_static_extension_changes_expected_name() {
    let node = ToolchainComponentDependencyNode {
        component: Some(ToolchainComponent::Llvm),
        name: "foo".to_string(),
        kind: ToolchainComponentDependencyNodeKind::Static { framework: false },
        interface_include_directories: Vec::new(),
        interface_link_directories: to_strings(&["/t"]),
        interface_link_libraries: Vec::new(),
        location: Some("/t/libfoo.lib".to_string()),
    };
    let instr = node
        .emit_cargo_link_instruction(true, ToolchainSys::Windows)
        .unwrap()
        .unwrap();
    assert!(!instr.directive.verbatim);
    let same_on_linux = node
        .emit_cargo_link_instruction(true, ToolchainSys::Linux)
        .unwrap()
        .unwrap();
    assert!(same_on_linux.directive.verbatim);
    assert_eq!(same_on_linux.directive.name, "libfoo.lib");
}
