use llvmup::analysis::ToolchainAnalysis;
use llvmup::component::ToolchainComponent;
use llvmup::manifest::{
    ManifestCMakeImportedTarget,
    ManifestCMakeInherentTarget,
    ManifestCMakeProperties,
    ManifestDistribution,
    ToolchainComponentManifest,
};
use llvmup::node::ToolchainComponentDependencyNode;
use llvmup::toolchain::ToolchainHandle;

fn to_strings(xs: &[&str]) -> Vec<String> {
    xs.iter().map(|s| s.to_string()).collect()
}

fn static_target(libs: &[&str], dirs: &[&str], location: &str) -> ManifestCMakeInherentTarget {
    ManifestCMakeInherentTarget::StaticLibrary {
        framework: false,
        imported_configurations: Vec::new(),
        interface_include_directories: Vec::new(),
        interface_link_directories: to_strings(dirs),
        interface_link_libraries: to_strings(libs),
        location: location.to_string(),
        location_config: String::new(),
        macosx_package_location: String::new(),
        vs_deployment_location: String::new(),
    }
}

fn inherent(name: &str, t: ManifestCMakeInherentTarget) -> (String, ManifestCMakeImportedTarget) {
    (
        name.to_string(),
        ManifestCMakeImportedTarget::Inherent {
            imported: true,
            name: name.to_string(),
            system: false,
            inherent_target: t,
        },
    )
}

fn manifest(
    entries: Vec<(String, ManifestCMakeImportedTarget)>,
) -> ToolchainComponentManifest {
    ToolchainComponentManifest {
        cmake_properties: ManifestCMakeProperties { imported_targets: entries },
    }
}

fn handle() -> ToolchainHandle {
    ToolchainHandle { hash: 7 }
}

fn node_names(analysis: &ToolchainAnalysis) -> Vec<String> {
    let mut names = Vec::new();
    let mut i = 0;
    while i < analysis.dependencies.node_count() {
        names.push(analysis.dependencies.node_at(i).name.clone());
        i += 1;
    }
    names
}

fn find_node_id(analysis: &ToolchainAnalysis, name: &str) -> u64 {
    let mut i = 0;
    while i < analysis.dependencies.node_count() {
        if analysis.dependencies.node_at(i).name == name {
            return i as u64;
        }
        i += 1;
    }
    panic!("node {} not found", name);
}

#[test]
fn scenario_static_lib_with_external_reference() {
    // A static library `lib` interface-links `m`, which no manifest
    // declares: the graph gets the edge lib -> m and `m` is external.
    let manifests = vec![(
        ToolchainComponent::Llvm,
        manifest(vec![inherent(
            "lib",
            static_target(&["m"], &["/toolchain/lib"], "/toolchain/lib/liblib.a"),
        )]),
    )];
    let components = vec![ToolchainComponent::Llvm];
    let analysis = ToolchainAnalysis::new(handle(), &components, &manifests).unwrap();

    assert_eq!(analysis.dependencies.node_count(), 2);
    let lib = find_node_id(&analysis, "lib");
    let m = find_node_id(&analysis, "m");
    assert!(analysis.dependencies.contains_edge(lib, m));
    assert!(!analysis.dependencies.contains_edge(m, lib));
    assert_eq!(analysis.external_targets, vec!["m".to_string()]);
    let m_node = analysis.dependencies.node_at(m as usize);
    assert!(m_node.component.is_none());
    assert!(m_node.location.is_none());
}

#[test]
fn scenario_two_static_libraries_form_one_cycle_group() {
    // `a` and `b` list each other: one strongly connected component of
    // size two.
    let manifests = vec![(
        ToolchainComponent::Llvm,
        manifest(vec![
            inherent("a", static_target(&["b"], &["/t"], "/t/liba.a")),
            inherent("b", static_target(&["a"], &["/t"], "/t/libb.a")),
        ]),
    )];
    let components = vec![ToolchainComponent::Llvm];
    let analysis = ToolchainAnalysis::new(handle(), &components, &manifests).unwrap();

    let sccs = analysis.dependencies_postorder_sccs();
    assert_eq!(sccs.len(), 1);
    assert_eq!(sccs[0].len(), 2);
    let names: Vec<&str> = sccs[0].iter().map(|n| n.name.as_str()).collect();
    assert!(names.contains(&"a"));
    assert!(names.contains(&"b"));
}

#[test]
fn scenario_link_only_wrapper_resolves_like_bare_reference() {
    // `$<LINK_ONLY:bar>` resolves and classifies exactly like `bar`: both
    // references collapse to one node.
    let manifests = vec![(
        ToolchainComponent::Llvm,
        manifest(vec![
            inherent("s1", static_target(&["$<LINK_ONLY:bar>"], &["/t"], "/t/libs1.a")),
            inherent("s2", static_target(&["bar"], &["/t"], "/t/libs2.a")),
        ]),
    )];
    let components = vec![ToolchainComponent::Llvm];
    let analysis = ToolchainAnalysis::new(handle(), &components, &manifests).unwrap();

    // s1, s2, and one shared node for bar.
    assert_eq!(analysis.dependencies.node_count(), 3);
    let s1 = find_node_id(&analysis, "s1");
    let s2 = find_node_id(&analysis, "s2");
    let bar = find_node_id(&analysis, "bar");
    assert!(analysis.dependencies.contains_edge(s1, bar));
    assert!(analysis.dependencies.contains_edge(s2, bar));
    assert_eq!(analysis.external_targets, vec!["bar".to_string()]);
}

#[test]
fn scc_order_puts_dependencies_first() {
    // lib depends on dep: dep's group must come no later than lib's.
    let manifests = vec![(
        ToolchainComponent::Llvm,
        manifest(vec![
            inherent("toplib", static_target(&["dep"], &["/t"], "/t/libtoplib.a")),
            inherent("dep", static_target(&[], &["/t"], "/t/libdep.a")),
        ]),
    )];
    let components = vec![ToolchainComponent::Llvm];
    let analysis = ToolchainAnalysis::new(handle(), &components, &manifests).unwrap();

    let sccs = analysis.dependencies_postorder_sccs();
    assert_eq!(sccs.len(), 2);
    let pos = |name: &str| {
        sccs.iter()
            .position(|g| g.iter().any(|n| n.name == name))
            .unwrap()
    };
    assert!(pos("dep") <= pos("toplib"));
}

#[test]
fn analysis_is_deterministic() {
    let build = || {
        let manifests = vec![(
            ToolchainComponent::Llvm,
            manifest(vec![
                inherent("a", static_target(&["b", "m"], &["/t"], "/t/liba.a")),
                inherent("b", static_target(&["a"], &["/t"], "/t/libb.a")),
            ]),
        )];
        let components = vec![ToolchainComponent::Llvm];
        ToolchainAnalysis::new(handle(), &components, &manifests).unwrap()
    };
    let first = build();
    let second = build();
    assert_eq!(node_names(&first), node_names(&second));
    assert_eq!(first.external_targets, second.external_targets);
    let firsts = first.dependencies_postorder_sccs();
    let seconds = second.dependencies_postorder_sccs();
    assert_eq!(firsts.len(), seconds.len());
    for (g1, g2) in firsts.iter().zip(seconds.iter()) {
        let n1: Vec<&str> = g1.iter().map(|n| n.name.as_str()).collect();
        let n2: Vec<&str> = g2.iter().map(|n| n.name.as_str()).collect();
        assert_eq!(n1, n2);
    }
}

#[test]
fn classification_is_idempotent_and_follows_precedence() {
    let framework = ToolchainComponentDependencyNode::from_name("-framework Cocoa");
    assert_eq!(framework.name, "Cocoa");
    let archive = ToolchainComponentDependencyNode::from_name("libfoo.a");
    assert_eq!(archive.name, "foo");
    let bare_archive = ToolchainComponentDependencyNode::from_name("foo.a");
    assert_eq!(bare_archive.name, "foo");
    let shared = ToolchainComponentDependencyNode::from_name("libbar.so");
    assert_eq!(shared.name, "bar");
    let fallback = ToolchainComponentDependencyNode::from_name("m");
    assert_eq!(fallback.name, "m");
    // Same reference twice: node-identical results.
    let once = ToolchainComponentDependencyNode::from_name("libz.so");
    let twice = ToolchainComponentDependencyNode::from_name("libz.so");
    assert!(once == twice);
}

#[test]
fn component_not_loaded_is_reported() {
    let manifests: Vec<(ToolchainComponent, ToolchainComponentManifest)> = Vec::new();
    let components = vec![ToolchainComponent::Llvm];
    let r = ToolchainAnalysis::new(handle(), &components, &manifests);
    assert!(matches!(
        r,
        Err(llvmup::node::Error::ComponentNotLoaded { component: ToolchainComponent::Llvm })
    ));
}

#[test]
fn adjacent_only_reference_is_refused() {
    // `ref` is declared only as a placeholder: resolving it must fail.
    let manifests = vec![(
        ToolchainComponent::Llvm,
        manifest(vec![
            inherent("s", static_target(&["adj"], &["/t"], "/t/libs.a")),
            (
                "adj".to_string(),
                ManifestCMakeImportedTarget::Adjacent {
                    distribution: ManifestDistribution::Clang,
                },
            ),
        ]),
    )];
    let components = vec![ToolchainComponent::Llvm];
    let r = ToolchainAnalysis::new(handle(), &components, &manifests);
    match r {
        Err(llvmup::node::Error::TargetNotInherentInManifests { name }) => {
            assert_eq!(name, "adj");
        }
        _ => panic!("expected TargetNotInherentInManifests"),
    }
}

#[test]
fn resolution_picks_the_least_declaring_component() {
    // Both loaded manifests declare `dep`; the reference resolves against
    // the least component in the ordered manifest map.
    let manifests = vec![
        (
            ToolchainComponent::Llvm,
            manifest(vec![inherent(
                "dep",
                static_target(&[], &["/llvm"], "/llvm/libdep.a"),
            )]),
        ),
        (
            ToolchainComponent::Mlir,
            manifest(vec![
                inherent("dep", static_target(&[], &["/mlir"], "/mlir/libdep.a")),
                inherent("user", static_target(&["dep"], &["/mlir"], "/mlir/libuser.a")),
            ]),
        ),
    ];
    let components = vec![ToolchainComponent::Llvm, ToolchainComponent::Mlir];
    let analysis = ToolchainAnalysis::new(handle(), &components, &manifests).unwrap();
    let user = find_node_id(&analysis, "user");
    // The edge target is the Llvm-owned node interned for Llvm's entry.
    let mut llvm_dep = None;
    let mut i = 0;
    while i < analysis.dependencies.node_count() {
        let n = analysis.dependencies.node_at(i);
        if n.name == "dep" && n.component == Some(ToolchainComponent::Llvm) {
            llvm_dep = Some(i as u64);
        }
        i += 1;
    }
    assert!(analysis.dependencies.contains_edge(user, llvm_dep.unwrap()));
    // The reverse index keeps the last writer: Mlir declared `dep` after Llvm.
    assert_eq!(
        analysis.target_component("dep"),
        Some(ToolchainComponent::Mlir)
    );
    assert_eq!(
        analysis.target_component("user"),
        Some(ToolchainComponent::Mlir)
    );
    assert_eq!(analysis.target_component("absent"), None);
}

#[test]
fn declared_reference_takes_manifest_properties() {
    // `dep` is declared in another loaded component: the reference resolves
    // to the manifest node, owned by that component.
    let manifests = vec![
        (
            ToolchainComponent::Llvm,
            manifest(vec![inherent(
                "dep",
                static_target(&[], &["/t"], "/t/libdep.a"),
            )]),
        ),
        (
            ToolchainComponent::Mlir,
            manifest(vec![inherent(
                "user",
                static_target(&["dep"], &["/t"], "/t/libuser.a"),
            )]),
        ),
    ];
    let components = vec![ToolchainComponent::Mlir, ToolchainComponent::Llvm];
    let analysis = ToolchainAnalysis::new(handle(), &components, &manifests).unwrap();
    let dep = find_node_id(&analysis, "dep");
    let dep_node = analysis.dependencies.node_at(dep as usize);
    assert_eq!(dep_node.component, Some(ToolchainComponent::Llvm));
    assert!(analysis.external_targets.is_empty());
    // Components iterate in component order: Llvm sorts before Mlir.
    assert_eq!(
        analysis.components,
        vec![ToolchainComponent::Llvm, ToolchainComponent::Mlir]
    );
}
