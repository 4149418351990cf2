//! A registered toolchain: its context and its component set.

use vstd::prelude::*;

use crate::architecture::ToolchainArch;
use crate::component::{
    asset_url_label,
    insert_component_sorted_unique,
    vec_insert_component_sorted_unique,
    ToolchainComponent,
};
use crate::context::{release_fragment, ToolchainContext};
use crate::platform::{platform_arch, platform_label, platform_sys};
use crate::release::release_label;
use crate::revision::revision_label;
use crate::strutil::{encode_plus, percent_encode_plus, str_to_string};
use crate::system::ToolchainSys;
use crate::urls::{parse_url, url_parse_ok};
use crate::variant::{variant_label, ToolchainVariant};
use url::Url;

verus! {

/// An opaque handle for a registered toolchain.
#[derive(Clone, Copy, Debug, Eq, Hash, PartialEq, Structural)]
pub struct ToolchainHandle {
    pub hash: u64,
}

/// Choices for one installation run; an absent choice means the default
/// skip-if-present behaviour.
#[derive(Clone, Copy, Debug, Default)]
pub struct ToolchainInstallOptions {
    pub download: Option<bool>,
    pub extract: Option<bool>,
    pub checksum: Option<bool>,
}

#[derive(Debug)]
pub enum Error {
    UrlParse { source: url::ParseError },
    ToolchainComponentRequiresDependency {
        component: ToolchainComponent,
        dependency: ToolchainComponent,
    },
    ToolchainComponentRequiresVariant {
        component: ToolchainComponent,
        variant: ToolchainVariant,
    },
    ToolchainComponentUnsupportedPlatform {
        component: ToolchainComponent,
        platform: crate::platform::ToolchainPlatform,
    },
}

/// A toolchain: the context it is resolved in and its components, kept
/// sorted and duplicate-free.
pub struct Toolchain {
    pub context: ToolchainContext,
    pub components: Vec<ToolchainComponent>,
}

/// Sorting a component sequence: fold of sorted-unique insertion.
pub open spec fn sort_components(s: Seq<ToolchainComponent>) -> Seq<ToolchainComponent>
    decreases s.len(),
{
    if s.len() == 0 {
        Seq::<ToolchainComponent>::empty()
    } else {
        insert_component_sorted_unique(sort_components(s.drop_last()), s.last())
    }
}

/// Sorts and deduplicates a component list into the component order.
pub fn sorted_component_set(components: &Vec<ToolchainComponent>) -> (r: Vec<ToolchainComponent>)
    ensures
        r@ == sort_components(components@),
{
    let mut out: Vec<ToolchainComponent> = Vec::new();
    let mut i: usize = 0;
    proof {
        assert(components@.take(0) =~= Seq::<ToolchainComponent>::empty());
    }
    while i < components.len()
        invariant
            i <= components.len(),
            out@ == sort_components(components@.take(i as int)),
        decreases components.len() - i,
    {
        proof {
            let pre = components@.take(i as int + 1);
            assert(pre.drop_last() =~= components@.take(i as int));
            assert(pre.last() == components@[i as int]);
        }
        vec_insert_component_sorted_unique(&mut out, components[i]);
        i = i + 1;
    }
    proof {
        assert(components@.take(components@.len() as int) =~= components@);
    }
    out
}

/// Whether a sorted component set satisfies every component's requirements:
/// the IR layer and the front-end compiler need the base compiler
/// infrastructure; the language runtime front-end needs its own variant and
/// both of those; the mold linker tool needs a non-i686 Linux platform.
pub open spec fn components_valid(
    context: ToolchainContext,
    components: Seq<ToolchainComponent>,
) -> bool {
    forall|i: int| 0 <= i < components.len() ==> component_valid(context, components, #[trigger] components[i])
}

/// One component's requirement against the whole set.
pub open spec fn component_valid(
    context: ToolchainContext,
    components: Seq<ToolchainComponent>,
    c: ToolchainComponent,
) -> bool {
    match c {
        ToolchainComponent::Llvm => true,
        ToolchainComponent::Mlir => components.contains(ToolchainComponent::Llvm),
        ToolchainComponent::Clang => components.contains(ToolchainComponent::Llvm),
        ToolchainComponent::Swift => context.variant is Swift && components.contains(
            ToolchainComponent::Llvm,
        ) && components.contains(ToolchainComponent::Clang),
        ToolchainComponent::ToolClang => true,
        ToolchainComponent::ToolLld => true,
        ToolchainComponent::ToolMold { .. } => platform_sys(context.platform) is Linux
            && !(platform_arch(context.platform) is I686),
    }
}

/// Whether `k` indexes the first component of the list that fails its
/// requirement.
pub open spec fn first_invalid_at(
    context: ToolchainContext,
    components: Seq<ToolchainComponent>,
    k: int,
) -> bool {
    &&& 0 <= k < components.len()
    &&& !component_valid(context, components, components[k])
    &&& forall|m: int| 0 <= m < k ==> component_valid(context, components, #[trigger] components[m])
}

/// The error a failing component is reported with: the missing dependency,
/// the missing variant, or the unsupported platform — for the language
/// runtime front-end, the variant is checked first, then the base
/// infrastructure, then the front-end compiler.
pub open spec fn validation_err_for(
    context: ToolchainContext,
    components: Seq<ToolchainComponent>,
    c: ToolchainComponent,
    e: Error,
) -> bool {
    match c {
        ToolchainComponent::Mlir => e matches Error::ToolchainComponentRequiresDependency {
            component: ToolchainComponent::Mlir,
            dependency: ToolchainComponent::Llvm,
        },
        ToolchainComponent::Clang => e matches Error::ToolchainComponentRequiresDependency {
            component: ToolchainComponent::Clang,
            dependency: ToolchainComponent::Llvm,
        },
        ToolchainComponent::Swift => {
            if !(context.variant is Swift) {
                e matches Error::ToolchainComponentRequiresVariant {
                    component: ToolchainComponent::Swift,
                    variant: ToolchainVariant::Swift,
                }
            } else if !components.contains(ToolchainComponent::Llvm) {
                e matches Error::ToolchainComponentRequiresDependency {
                    component: ToolchainComponent::Swift,
                    dependency: ToolchainComponent::Llvm,
                }
            } else {
                e matches Error::ToolchainComponentRequiresDependency {
                    component: ToolchainComponent::Swift,
                    dependency: ToolchainComponent::Clang,
                }
            }
        },
        ToolchainComponent::ToolMold { .. } => (e matches Error
            ::ToolchainComponentUnsupportedPlatform { component, platform } && component == c
            && platform == context.platform),
        _ => false,
    }
}

impl Toolchain {
    /// Checks every component's requirements. Returns the first failure in
    /// component order, reported with the variant that names what is
    /// missing, and succeeds exactly when the whole set is valid.
    pub fn validate_components(toolchain: &Toolchain) -> (r: Result<(), Error>)
        ensures
            r is Ok <==> components_valid(toolchain.context, toolchain.components@),
            r matches Err(e) ==> exists|k: int|
                #![auto]
                first_invalid_at(toolchain.context, toolchain.components@, k)
                    && validation_err_for(
                    toolchain.context,
                    toolchain.components@,
                    toolchain.components@[k],
                    e,
                ),
    {
        let mut i: usize = 0;
        while i < toolchain.components.len()
            invariant
                i <= toolchain.components.len(),
                forall|k: int|
                    0 <= k < i ==> component_valid(
                        toolchain.context,
                        toolchain.components@,
                        #[trigger] toolchain.components@[k],
                    ),
            decreases toolchain.components.len() - i,
        {
            let c = toolchain.components[i];
            match c {
                ToolchainComponent::Llvm => {},
                ToolchainComponent::Mlir => {
                    if !component_set_contains(&toolchain.components, ToolchainComponent::Llvm) {
                    proof {
                        assert(first_invalid_at(toolchain.context, toolchain.components@, i as int));
                    }
                        return Err(
                            Error::ToolchainComponentRequiresDependency {
                                component: ToolchainComponent::Mlir,
                                dependency: ToolchainComponent::Llvm,
                            },
                        );
                    }
                },
                ToolchainComponent::Clang => {
                    if !component_set_contains(&toolchain.components, ToolchainComponent::Llvm) {
                    proof {
                        assert(first_invalid_at(toolchain.context, toolchain.components@, i as int));
                    }
                        return Err(
                            Error::ToolchainComponentRequiresDependency {
                                component: ToolchainComponent::Clang,
                                dependency: ToolchainComponent::Llvm,
                            },
                        );
                    }
                },
                ToolchainComponent::Swift => {
                    let variant_ok = match toolchain.context.variant {
                        ToolchainVariant::Swift => true,
                        _ => false,
                    };
                    if !variant_ok {
                    proof {
                        assert(first_invalid_at(toolchain.context, toolchain.components@, i as int));
                    }
                        return Err(
                            Error::ToolchainComponentRequiresVariant {
                                component: ToolchainComponent::Swift,
                                variant: ToolchainVariant::Swift,
                            },
                        );
                    }
                    if !component_set_contains(&toolchain.components, ToolchainComponent::Llvm) {
                    proof {
                        assert(first_invalid_at(toolchain.context, toolchain.components@, i as int));
                    }
                        return Err(
                            Error::ToolchainComponentRequiresDependency {
                                component: ToolchainComponent::Swift,
                                dependency: ToolchainComponent::Llvm,
                            },
                        );
                    }
                    if !component_set_contains(&toolchain.components, ToolchainComponent::Clang)
                        {
                    proof {
                        assert(first_invalid_at(toolchain.context, toolchain.components@, i as int));
                    }
                        return Err(
                            Error::ToolchainComponentRequiresDependency {
                                component: ToolchainComponent::Swift,
                                dependency: ToolchainComponent::Clang,
                            },
                        );
                    }
                },
                ToolchainComponent::ToolClang => {},
                ToolchainComponent::ToolLld => {},
                ToolchainComponent::ToolMold { .. } => {
                    let sys = toolchain.context.platform.sys();
                    let arch = toolchain.context.platform.arch();
                    let sys_ok = match sys {
                        ToolchainSys::Linux => true,
                        _ => false,
                    };
                    let arch_bad = match arch {
                        ToolchainArch::I686 => true,
                        _ => false,
                    };
                    if !sys_ok || arch_bad {
                    proof {
                        assert(first_invalid_at(toolchain.context, toolchain.components@, i as int));
                    }
                        return Err(
                            Error::ToolchainComponentUnsupportedPlatform {
                                component: c,
                                platform: toolchain.context.platform,
                            },
                        );
                    }
                },
            }
            i = i + 1;
        }
        Ok(())
    }

    /// Builds a toolchain from a context and a component list: the list is
    /// sorted and deduplicated, then every component's requirements are
    /// checked.
    pub fn new(context: ToolchainContext, components: &Vec<ToolchainComponent>) -> (r: Result<
        Self,
        Error,
    >)
        ensures
            match r {
                Ok(t) => t.context == context && t.components@ == sort_components(components@)
                    && components_valid(context, t.components@),
                Err(_) => !components_valid(context, sort_components(components@)),
            },
    {
        let sorted = sorted_component_set(components);
        let toolchain = Self { context, components: sorted };
        match Self::validate_components(&toolchain) {
            Ok(()) => Ok(toolchain),
            Err(e) => Err(e),
        }
    }
}

/// Whether the component list holds `c`.
pub fn component_set_contains(v: &Vec<ToolchainComponent>, c: ToolchainComponent) -> (r: bool)
    ensures
        r == v@.contains(c),
{
    let mut i: usize = 0;
    while i < v.len()
        invariant
            i <= v.len(),
            forall|k: int| 0 <= k < i ==> v@[k] != c,
        decreases v.len() - i,
    {
        if v[i] == c {
            return true;
        }
        i = i + 1;
    }
    false
}


/// One component's release asset: the component, the context it was
/// resolved in, and its download URL.
pub struct ToolchainComponentAsset {
    pub context: ToolchainContext,
    pub component: ToolchainComponent,
    pub uri: Url,
}

/// The asset bundle of a toolchain: the checksum file's URL and one asset
/// per component, in component order.
pub struct ToolchainComponentAssetBundle {
    pub context: ToolchainContext,
    pub checksums: Url,
    pub assets: Vec<ToolchainComponentAsset>,
}

/// The URL text of a toolchain's checksum file.
pub open spec fn checksums_url_label(c: ToolchainContext) -> Seq<char> {
    "https://github.com/llvmup/toolchains/releases/download/"@ + encode_plus(release_fragment(c))
        + "/"@ + variant_label(c.variant) + "-"@ + release_label(c.release) + "-"@
        + platform_label(c.platform) + revision_label(c.revision) + ".sha512"@
}

impl Toolchain {
    /// Builds the asset bundle: the checksum file URL and, for every
    /// component in component order, its release asset URL. Fails with
    /// `UrlParse` exactly when one of those URL texts does not parse.
    pub fn asset_bundle(&self) -> (r: Result<ToolchainComponentAssetBundle, Error>)
        requires
            components_valid(self.context, self.components@),
        ensures
            match r {
                Ok(b) => {
                    &&& b.context == self.context
                    &&& b.assets@.len() == self.components@.len()
                    &&& b.checksums == crate::urls::parsed_url_of(
                        checksums_url_label(self.context),
                    )
                    &&& forall|i: int|
                        0 <= i < b.assets@.len() ==> (#[trigger] b.assets@[i]).component
                            == self.components@[i] && b.assets@[i].context == self.context
                            && b.assets@[i].uri == crate::urls::parsed_url_of(
                            asset_url_label(self.components@[i], self.context),
                        )
                    &&& url_parse_ok(checksums_url_label(self.context))
                    &&& forall|i: int|
                        0 <= i < self.components@.len() ==> url_parse_ok(
                            asset_url_label(#[trigger] self.components@[i], self.context),
                        )
                },
                Err(e) => e matches Error::UrlParse { .. } && !(url_parse_ok(
                    checksums_url_label(self.context),
                ) && forall|i: int|
                    0 <= i < self.components@.len() ==> url_parse_ok(
                        asset_url_label(#[trigger] self.components@[i], self.context),
                    )),
            },
    {
        let mut s = str_to_string("https://github.com/llvmup/toolchains/releases/download/");
        s.append(percent_encode_plus(self.context.release_fragment_string().as_str()).as_str());
        s.append("/");
        s.append(self.context.variant.label().as_str());
        s.append("-");
        s.append(self.context.release.label().as_str());
        s.append("-");
        s.append(self.context.platform.label().as_str());
        s.append(self.context.revision.label().as_str());
        s.append(".sha512");
        proof {
            assert(s@ =~= checksums_url_label(self.context));
        }
        let checksums = match parse_url(s.as_str()) {
            Ok(u) => u,
            Err(e) => {
                return Err(Error::UrlParse { source: e });
            },
        };
        let mut assets: Vec<ToolchainComponentAsset> = Vec::new();
        let mut i: usize = 0;
        while i < self.components.len()
            invariant
                components_valid(self.context, self.components@),
                i <= self.components@.len(),
                assets@.len() == i,
                forall|k: int|
                    0 <= k < i ==> (#[trigger] assets@[k]).component == self.components@[k]
                        && assets@[k].context == self.context && assets@[k].uri
                        == crate::urls::parsed_url_of(
                        asset_url_label(self.components@[k], self.context),
                    ),
                forall|k: int|
                    0 <= k < i ==> url_parse_ok(
                        asset_url_label(#[trigger] self.components@[k], self.context),
                    ),
            decreases self.components@.len() - i,
        {
            let component = self.components[i];
            proof {
                assert(component_valid(self.context, self.components@, self.components@[i as int]));
            }
            let uri = match component.asset_url(&self.context) {
                Ok(u) => u,
                Err(e) => {
                    return Err(Error::UrlParse { source: e });
                },
            };
            assets.push(
                ToolchainComponentAsset { context: self.context, component, uri },
            );
            i = i + 1;
        }
        Ok(ToolchainComponentAssetBundle { context: self.context, checksums, assets })
    }
}

} // verus!
