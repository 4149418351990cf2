use llvmup::architecture::ToolchainArch;
use llvmup::component::ToolchainComponent;
use llvmup::context::ToolchainContext;
use llvmup::directories::Directories;
use llvmup::platform::ToolchainPlatform;
use llvmup::release::ToolchainRelease;
use llvmup::revision::ToolchainRevision;
use llvmup::system::ToolchainSys;
use llvmup::toolchain::{Error, Toolchain};
use llvmup::variant::ToolchainVariant;

use std::cmp::Ordering;

fn context_on(platform: ToolchainPlatform, variant: ToolchainVariant) -> ToolchainContext {
    ToolchainContext::new(
        variant,
        ToolchainRelease::new(17, 0, Some(2)),
        ToolchainRevision::new(None),
        platform,
    )
}

#[test]
fn component_order_is_total_and_by_kind_then_fields() {
    let llvm = ToolchainComponent::Llvm;
    let clang = ToolchainComponent::Clang;
    assert_eq!(llvm.cmp(&clang), Ordering::Less);
    assert_eq!(clang.cmp(&llvm), Ordering::Greater);
    assert_eq!(llvm.cmp(&llvm), Ordering::Equal);

    let mold_a = ToolchainComponent::ToolMold {
        platform: ToolchainPlatform::AARCH64_LINUX_GNU,
        release: ToolchainRelease::new(2, 3, None),
    };
    let mold_b = ToolchainComponent::ToolMold {
        platform: ToolchainPlatform::AARCH64_LINUX_GNU,
        release: ToolchainRelease::new(2, 4, None),
    };
    let mold_c = ToolchainComponent::ToolMold {
        platform: ToolchainPlatform::X86_64_LINUX_GNU,
        release: ToolchainRelease::new(1, 0, None),
    };
    assert_eq!(mold_a.cmp(&mold_b), Ordering::Less);
    assert_eq!(mold_a.cmp(&mold_c), Ordering::Less);
    assert_eq!(ToolchainComponent::ToolLld.cmp(&mold_a), Ordering::Less);
    // The lld linker tool sorts before the clang tools.
    assert_eq!(
        ToolchainComponent::ToolLld.cmp(&ToolchainComponent::ToolClang),
        Ordering::Less
    );
    assert_eq!(
        ToolchainComponent::ToolClang.cmp(&ToolchainComponent::ToolLld),
        Ordering::Greater
    );
    assert_eq!(
        ToolchainComponent::Swift.cmp(&ToolchainComponent::ToolLld),
        Ordering::Less
    );
    // An absent patch sorts before any present one.
    let unpatched = ToolchainComponent::ToolMold {
        platform: ToolchainPlatform::AARCH64_LINUX_GNU,
        release: ToolchainRelease::new(2, 3, Some(0)),
    };
    assert_eq!(mold_a.cmp(&unpatched), Ordering::Less);
}

#[test]
fn toolchain_new_sorts_and_deduplicates() {
    let t = Toolchain::new(
        context_on(ToolchainPlatform::X86_64_LINUX_GNU, ToolchainVariant::Llvmorg),
        &vec![
            ToolchainComponent::Clang,
            ToolchainComponent::Llvm,
            ToolchainComponent::Clang,
        ],
    )
    .unwrap();
    assert_eq!(
        t.components,
        vec![ToolchainComponent::Llvm, ToolchainComponent::Clang]
    );
}

#[test]
fn validation_requires_base_infrastructure() {
    let r = Toolchain::new(
        context_on(ToolchainPlatform::X86_64_LINUX_GNU, ToolchainVariant::Llvmorg),
        &vec![ToolchainComponent::Mlir],
    );
    assert!(matches!(
        r,
        Err(Error::ToolchainComponentRequiresDependency {
            component: ToolchainComponent::Mlir,
            dependency: ToolchainComponent::Llvm,
        })
    ));
}

#[test]
fn validation_requires_matching_variant_for_runtime_front_end() {
    let r = Toolchain::new(
        context_on(ToolchainPlatform::X86_64_LINUX_GNU, ToolchainVariant::Llvmorg),
        &vec![
            ToolchainComponent::Swift,
            ToolchainComponent::Llvm,
            ToolchainComponent::Clang,
        ],
    );
    assert!(matches!(
        r,
        Err(Error::ToolchainComponentRequiresVariant { .. })
    ));
    let ok = Toolchain::new(
        context_on(ToolchainPlatform::X86_64_LINUX_GNU, ToolchainVariant::Swift),
        &vec![
            ToolchainComponent::Swift,
            ToolchainComponent::Llvm,
            ToolchainComponent::Clang,
        ],
    );
    assert!(ok.is_ok());
}

#[test]
fn validation_refuses_mold_off_linux() {
    let mold = ToolchainComponent::ToolMold {
        platform: ToolchainPlatform::X86_64_LINUX_GNU,
        release: ToolchainRelease::new(2, 3, None),
    };
    let r = Toolchain::new(
        context_on(ToolchainPlatform::X86_64_MACOS, ToolchainVariant::Llvmorg),
        &vec![mold],
    );
    assert!(matches!(
        r,
        Err(Error::ToolchainComponentUnsupportedPlatform { .. })
    ));
    let i686 = Toolchain::new(
        context_on(ToolchainPlatform::I686_LINUX_GNU, ToolchainVariant::Llvmorg),
        &vec![mold],
    );
    assert!(i686.is_err());
}

#[test]
fn platform_detection_maps_host_pairs() {
    assert_eq!(
        ToolchainPlatform::detect(ToolchainSys::Linux, ToolchainArch::X86_64),
        Some(ToolchainPlatform::X86_64_LINUX_GNU)
    );
    assert_eq!(
        ToolchainPlatform::detect(ToolchainSys::Macos, ToolchainArch::Aarch64),
        Some(ToolchainPlatform::ARM64_MACOS)
    );
    assert_eq!(
        ToolchainPlatform::detect(ToolchainSys::Windows, ToolchainArch::S390X),
        None
    );
    let p = ToolchainPlatform::detect(ToolchainSys::Linux, ToolchainArch::RiscV64).unwrap();
    assert_eq!(p.sys(), ToolchainSys::Linux);
    assert_eq!(p.arch(), ToolchainArch::RiscV64);
}

#[test]
fn architectures_with_two_spellings_compare_equal() {
    assert_eq!(ToolchainArch::Aarch64, ToolchainArch::Arm64);
    assert_eq!(ToolchainArch::Arm64, ToolchainArch::Aarch64);
    assert_ne!(ToolchainArch::Aarch64, ToolchainArch::X86_64);
}

#[test]
fn labels_render_names() {
    assert_eq!(ToolchainPlatform::AARCH64_LINUX_GNU.label(), "aarch64-linux-gnu");
    assert_eq!(ToolchainSys::Macos.label(), "macos");
    assert_eq!(ToolchainArch::PowerPc64Le.label(), "powerpc64le");
    assert_eq!(ToolchainVariant::Swift.label(), "swift");
    assert_eq!(ToolchainComponent::ToolClang.label(), "tool_clang");
    assert_eq!(ToolchainRelease::new(17, 0, Some(2)).label(), "17.0.2");
    assert_eq!(ToolchainRelease::new(5, 10, None).label(), "5.10");
    assert_eq!(ToolchainRevision::new(Some(3)).label(), "+rev3");
    assert_eq!(ToolchainRevision::new(None).label(), "");
}

#[test]
fn release_fragment_includes_revision() {
    let c = ToolchainContext::new(
        ToolchainVariant::Llvmorg,
        ToolchainRelease::new(17, 0, Some(2)),
        ToolchainRevision::new(Some(1)),
        ToolchainPlatform::X86_64_LINUX_GNU,
    );
    assert_eq!(c.release_fragment_string(), "llvmorg-17.0.2+rev1");
}

#[test]
fn directories_lay_out_the_installation_root() {
    let d = Directories::new("/home/user/.llvmup".to_string());
    assert_eq!(d.root(), "/home/user/.llvmup");
    assert_eq!(d.downloads(), "/home/user/.llvmup/downloads");
    assert_eq!(d.toolchains(), "/home/user/.llvmup/toolchains");
    assert_eq!(d.trees(), "/home/user/.llvmup/trees");
    let c = context_on(ToolchainPlatform::X86_64_LINUX_GNU, ToolchainVariant::Llvmorg);
    assert_eq!(
        d.toolchain_root_path(&c),
        "/home/user/.llvmup/trees/llvmorg-17.0.2/x86_64-linux-gnu"
    );
    assert_eq!(
        d.manifest_path(&c, ToolchainComponent::Clang),
        "/home/user/.llvmup/trees/llvmorg-17.0.2/x86_64-linux-gnu/share/clang/llvmup.json"
    );
}

#[test]
fn mold_tree_name_uses_short_architecture_names() {
    assert_eq!(
        ToolchainComponent::tree_name_mold(
            &ToolchainPlatform::POWERPC64LE_LINUX_GNU,
            &ToolchainRelease::new(2, 3, None)
        ),
        "mold-2.3-ppc64le-linux"
    );
    assert_eq!(
        ToolchainComponent::tree_name_mold(
            &ToolchainPlatform::X86_64_LINUX_GNU,
            &ToolchainRelease::new(2, 30, Some(1))
        ),
        "mold-2.30.1-x86_64-linux"
    );
}

#[test]
fn asset_url_strings_follow_release_layout() {
    let c = ToolchainContext::new(
        ToolchainVariant::Llvmorg,
        ToolchainRelease::new(17, 0, Some(2)),
        ToolchainRevision::new(Some(1)),
        ToolchainPlatform::X86_64_LINUX_GNU,
    );
    assert_eq!(
        ToolchainComponent::Clang.asset_url_other_string(&c),
        "https://github.com/llvmup/toolchains/releases/download/llvmorg-17.0.2%2Brev1/clang-llvmorg-17.0.2-x86_64-linux-gnu+rev1.tar.xz"
    );
    assert_eq!(
        ToolchainComponent::asset_url_mold_string(&c, &ToolchainRelease::new(2, 3, None)),
        "https://github.com/rui314/mold/releases/download/v2.3/mold-2.3-x86_64-linux.tar.gz"
    );
}

#[test]
fn asset_bundle_builds_one_asset_per_component() {
    let t = Toolchain::new(
        context_on(ToolchainPlatform::X86_64_LINUX_GNU, ToolchainVariant::Llvmorg),
        &vec![ToolchainComponent::Clang, ToolchainComponent::Llvm],
    )
    .unwrap();
    let bundle = t.asset_bundle().unwrap();
    assert_eq!(bundle.assets.len(), 2);
    assert_eq!(bundle.assets[0].component, ToolchainComponent::Llvm);
    assert_eq!(bundle.assets[1].component, ToolchainComponent::Clang);
    assert_eq!(
        bundle.checksums.as_str(),
        "https://github.com/llvmup/toolchains/releases/download/llvmorg-17.0.2/llvmorg-17.0.2-x86_64-linux-gnu.sha512"
    );
    assert_eq!(
        bundle.assets[0].uri.as_str(),
        "https://github.com/llvmup/toolchains/releases/download/llvmorg-17.0.2/llvm-llvmorg-17.0.2-x86_64-linux-gnu.tar.xz"
    );
}
