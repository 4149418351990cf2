//! Toolchain components and their total order.
//!
//! Components are ordered for deterministic iteration. The order is by
//! component kind — with the lld linker tool before the clang tools — and
//! between two mold tool builds, the one variant that carries identifying
//! fields, by platform and then by release.

use vstd::prelude::*;

use core::cmp::Ordering;

use crate::context::{release_fragment, ToolchainContext};
use crate::platform::{platform_arch, platform_label, platform_rank, platform_sys, ToolchainPlatform};
use crate::release::{release_label, ToolchainRelease};
use crate::revision::revision_label;
use crate::strutil::{encode_plus, percent_encode_plus, str_to_string};
use crate::variant::variant_label;
use url::Url;

verus! {

#[derive(Clone, Copy, Debug, Eq, Hash, PartialEq, Structural)]
pub enum ToolchainComponent {
    Llvm,
    Mlir,
    Clang,
    Swift,
    ToolClang,
    ToolLld,
    ToolMold { platform: ToolchainPlatform, release: ToolchainRelease },
}

/// The component kind's position in the total order. The lld linker tool
/// sorts before the clang tools, ahead of its declaration position.
pub open spec fn component_rank(c: ToolchainComponent) -> int {
    match c {
        ToolchainComponent::Llvm => 0,
        ToolchainComponent::Mlir => 1,
        ToolchainComponent::Clang => 2,
        ToolchainComponent::Swift => 3,
        ToolchainComponent::ToolLld => 4,
        ToolchainComponent::ToolClang => 5,
        ToolchainComponent::ToolMold { .. } => 6,
    }
}

/// Lexicographic order on releases: major, then minor, then patch, with an
/// absent patch before any present one.
pub open spec fn release_lt(a: ToolchainRelease, b: ToolchainRelease) -> bool {
    if a.major != b.major {
        a.major < b.major
    } else if a.minor != b.minor {
        a.minor < b.minor
    } else {
        match (a.patch, b.patch) {
            (None, Some(_)) => true,
            (Some(x), Some(y)) => x < y,
            _ => false,
        }
    }
}

/// The total order on components: by kind, and between two mold tool builds
/// by platform rank, then by release.
pub open spec fn spec_component_cmp(a: ToolchainComponent, b: ToolchainComponent) -> Ordering {
    if component_rank(a) < component_rank(b) {
        Ordering::Less
    } else if component_rank(b) < component_rank(a) {
        Ordering::Greater
    } else {
        match (a, b) {
            (
                ToolchainComponent::ToolMold { platform: pa, release: ra },
                ToolchainComponent::ToolMold { platform: pb, release: rb },
            ) => {
                if platform_rank(pa) < platform_rank(pb) {
                    Ordering::Less
                } else if platform_rank(pb) < platform_rank(pa) {
                    Ordering::Greater
                } else if release_lt(ra, rb) {
                    Ordering::Less
                } else if release_lt(rb, ra) {
                    Ordering::Greater
                } else {
                    Ordering::Equal
                }
            },
            _ => Ordering::Equal,
        }
    }
}

/// Whether `a` comes no later than `b` in the component order.
pub open spec fn component_le(a: ToolchainComponent, b: ToolchainComponent) -> bool {
    !(spec_component_cmp(a, b) is Greater)
}

/// The name under which the component appears in paths and archive names.
pub open spec fn component_label(c: ToolchainComponent) -> Seq<char> {
    match c {
        ToolchainComponent::Llvm => "llvm"@,
        ToolchainComponent::Mlir => "mlir"@,
        ToolchainComponent::Clang => "clang"@,
        ToolchainComponent::Swift => "swift"@,
        ToolchainComponent::ToolClang => "tool_clang"@,
        ToolchainComponent::ToolLld => "tool_lld"@,
        ToolchainComponent::ToolMold { .. } => "tool_mold"@,
    }
}

impl ToolchainComponent {
    fn rank(&self) -> (r: u8)
        ensures
            r == component_rank(*self),
    {
        match self {
            ToolchainComponent::Llvm => 0,
            ToolchainComponent::Mlir => 1,
            ToolchainComponent::Clang => 2,
            ToolchainComponent::Swift => 3,
            ToolchainComponent::ToolLld => 4,
            ToolchainComponent::ToolClang => 5,
            ToolchainComponent::ToolMold { .. } => 6,
        }
    }

    /// Compares two components in the total order used for iteration.
    pub fn cmp(&self, other: &Self) -> (r: Ordering)
        ensures
            r == spec_component_cmp(*self, *other),
    {
        let ra = self.rank();
        let rb = other.rank();
        if ra < rb {
            return Ordering::Less;
        }
        if rb < ra {
            return Ordering::Greater;
        }
        match (self, other) {
            (
                ToolchainComponent::ToolMold { platform: pa, release: la },
                ToolchainComponent::ToolMold { platform: pb, release: lb },
            ) => {
                let pra = pa.rank();
                let prb = pb.rank();
                if pra < prb {
                    return Ordering::Less;
                }
                if prb < pra {
                    return Ordering::Greater;
                }
                if release_lt_exec(la, lb) {
                    return Ordering::Less;
                }
                if release_lt_exec(lb, la) {
                    return Ordering::Greater;
                }
                Ordering::Equal
            },
            _ => Ordering::Equal,
        }
    }

    /// Whether `self` comes no later than `other` in the component order.
    pub fn le(&self, other: &Self) -> (r: bool)
        ensures
            r == component_le(*self, *other),
    {
        match self.cmp(other) {
            Ordering::Greater => false,
            _ => true,
        }
    }

    pub fn label(&self) -> (r: String)
        ensures
            r@ == component_label(*self),
    {
        match self {
            ToolchainComponent::Llvm => str_to_string("llvm"),
            ToolchainComponent::Mlir => str_to_string("mlir"),
            ToolchainComponent::Clang => str_to_string("clang"),
            ToolchainComponent::Swift => str_to_string("swift"),
            ToolchainComponent::ToolClang => str_to_string("tool_clang"),
            ToolchainComponent::ToolLld => str_to_string("tool_lld"),
            ToolchainComponent::ToolMold { .. } => str_to_string("tool_mold"),
        }
    }
}

fn release_lt_exec(a: &ToolchainRelease, b: &ToolchainRelease) -> (r: bool)
    ensures
        r == release_lt(*a, *b),
{
    if a.major != b.major {
        a.major < b.major
    } else if a.minor != b.minor {
        a.minor < b.minor
    } else {
        match (a.patch, b.patch) {
            (None, Some(_)) => true,
            (Some(x), Some(y)) => x < y,
            _ => false,
        }
    }
}

/// Inserting a component into a sequence sorted by the component order,
/// without duplicates.
pub open spec fn insert_component_sorted_unique(
    s: Seq<ToolchainComponent>,
    x: ToolchainComponent,
) -> Seq<ToolchainComponent>
    decreases s.len(),
{
    if s.len() == 0 {
        seq![x]
    } else if x == s[0] {
        s
    } else if spec_component_cmp(x, s[0]) is Less {
        seq![x] + s
    } else {
        seq![s[0]] + insert_component_sorted_unique(s.drop_first(), x)
    }
}

proof fn lemma_insert_component_shift(s: Seq<ToolchainComponent>, x: ToolchainComponent, i: int)
    requires
        0 <= i < s.len(),
        x != s[i],
        !(spec_component_cmp(x, s[i]) is Less),
        insert_component_sorted_unique(s, x) == s.take(i) + insert_component_sorted_unique(
            s.skip(i),
            x,
        ),
    ensures
        insert_component_sorted_unique(s, x) == s.take(i + 1) + insert_component_sorted_unique(
            s.skip(i + 1),
            x,
        ),
{
    let rest = s.skip(i);
    assert(rest[0] == s[i]);
    assert(rest.drop_first() =~= s.skip(i + 1));
    assert(insert_component_sorted_unique(rest, x) == seq![s[i]]
        + insert_component_sorted_unique(s.skip(i + 1), x));
    assert(s.take(i) + (seq![s[i]] + insert_component_sorted_unique(s.skip(i + 1), x)) =~= s.take(
        i + 1,
    ) + insert_component_sorted_unique(s.skip(i + 1), x));
}

/// Inserts a component into the sorted, duplicate-free vector `v`,
/// keeping it so.
pub fn vec_insert_component_sorted_unique(v: &mut Vec<ToolchainComponent>, x: ToolchainComponent)
    ensures
        final(v)@ == insert_component_sorted_unique(old(v)@, x),
{
    let ghost orig = v@;
    let mut i: usize = 0;
    proof {
        assert(orig.skip(0) =~= orig);
        assert(orig.take(0) + insert_component_sorted_unique(orig, x)
            =~= insert_component_sorted_unique(orig, x));
    }
    loop
        invariant
            orig == old(v)@,
            i <= v.len(),
            v@ == orig,
            insert_component_sorted_unique(orig, x) == orig.take(i as int)
                + insert_component_sorted_unique(orig.skip(i as int), x),
        decreases v.len() - i,
    {
        if i == v.len() {
            proof {
                assert(orig.skip(i as int).len() == 0);
                assert(orig.take(i as int) =~= orig);
                assert(orig + seq![x] =~= orig.push(x));
            }
            v.push(x);
            return ;
        }
        proof {
            assert(orig.skip(i as int)[0] == orig[i as int]);
        }
        let c = v[i];
        if c == x {
            proof {
                assert(insert_component_sorted_unique(orig.skip(i as int), x) == orig.skip(
                    i as int,
                ));
                assert(orig.take(i as int) + orig.skip(i as int) =~= orig);
            }
            return ;
        }
        match x.cmp(&c) {
            Ordering::Less => {
                proof {
                    assert(insert_component_sorted_unique(orig.skip(i as int), x) == seq![x]
                        + orig.skip(i as int));
                    assert(orig.take(i as int) + (seq![x] + orig.skip(i as int)) =~= orig.insert(
                        i as int,
                        x,
                    ));
                }
                v.insert(i, x);
                return ;
            },
            _ => {
                proof {
                    lemma_insert_component_shift(orig, x, i as int);
                }
                i = i + 1;
            },
        }
    }
}


/// Whether the mold linker tool supports a platform: Linux, any
/// architecture but i686.
pub open spec fn mold_platform_ok(p: ToolchainPlatform) -> bool {
    platform_sys(p) is Linux && !(platform_arch(p) is I686)
}

/// The architecture part of a mold release tree name.
pub open spec fn mold_arch_label(p: ToolchainPlatform) -> Seq<char> {
    match p {
        ToolchainPlatform::AARCH64_LINUX_GNU => "aarch64"@,
        ToolchainPlatform::ARMV7_LINUX_GNUEABIHF => "arm"@,
        ToolchainPlatform::POWERPC64LE_LINUX_GNU => "ppc64le"@,
        ToolchainPlatform::RISCV64_LINUX_GNU => "riscv64"@,
        ToolchainPlatform::S390X_LINUX_GNU => "s390x"@,
        ToolchainPlatform::X86_64_LINUX_GNU => "x86_64"@,
        _ => Seq::<char>::empty(),
    }
}

/// The mold release tree name: `mold-<release>-<arch>-linux`.
pub open spec fn tree_name_mold_label(p: ToolchainPlatform, r: ToolchainRelease) -> Seq<char> {
    "mold-"@ + release_label(r) + "-"@ + mold_arch_label(p) + "-linux"@
}

/// The download URL text of a mold release asset.
pub open spec fn asset_url_mold_label(c: ToolchainContext, r: ToolchainRelease) -> Seq<char> {
    "https://github.com/rui314/mold/releases/download/v"@ + release_label(r) + "/"@
        + tree_name_mold_label(c.platform, r) + ".tar.gz"@
}

/// The download URL text of any other component's release asset.
pub open spec fn asset_url_other_label(comp: ToolchainComponent, c: ToolchainContext) -> Seq<
    char,
> {
    "https://github.com/llvmup/toolchains/releases/download/"@ + encode_plus(release_fragment(c))
        + "/"@ + component_label(comp) + "-"@ + variant_label(c.variant) + "-"@ + release_label(
        c.release,
    ) + "-"@ + platform_label(c.platform) + revision_label(c.revision) + ".tar.xz"@
}

/// The download URL text of a component's release asset.
pub open spec fn asset_url_label(comp: ToolchainComponent, c: ToolchainContext) -> Seq<char> {
    match comp {
        ToolchainComponent::ToolMold { release, .. } => asset_url_mold_label(c, release),
        _ => asset_url_other_label(comp, c),
    }
}

impl ToolchainComponent {
    /// The mold release tree name for a supported platform.
    pub fn tree_name_mold(platform: &ToolchainPlatform, release: &ToolchainRelease) -> (r: String)
        requires
            mold_platform_ok(*platform),
        ensures
            r@ == tree_name_mold_label(*platform, *release),
    {
        let arch = match platform {
            ToolchainPlatform::AARCH64_LINUX_GNU => "aarch64",
            ToolchainPlatform::ARMV7_LINUX_GNUEABIHF => "arm",
            ToolchainPlatform::POWERPC64LE_LINUX_GNU => "ppc64le",
            ToolchainPlatform::RISCV64_LINUX_GNU => "riscv64",
            ToolchainPlatform::S390X_LINUX_GNU => "s390x",
            _ => {
                proof {
                    assert(*platform is X86_64_LINUX_GNU);
                }
                "x86_64"
            },
        };
        let mut s = str_to_string("mold-");
        s.append(release.label().as_str());
        s.append("-");
        s.append(arch);
        s.append("-linux");
        proof {
            assert(s@ =~= tree_name_mold_label(*platform, *release));
        }
        s
    }

    /// Renders the download URL text of a mold release asset.
    pub fn asset_url_mold_string(context: &ToolchainContext, release: &ToolchainRelease) -> (r:
        String)
        requires
            mold_platform_ok(context.platform),
        ensures
            r@ == asset_url_mold_label(*context, *release),
    {
        let mut s = str_to_string("https://github.com/rui314/mold/releases/download/v");
        s.append(release.label().as_str());
        s.append("/");
        s.append(Self::tree_name_mold(&context.platform, release).as_str());
        s.append(".tar.gz");
        proof {
            assert(s@ =~= asset_url_mold_label(*context, *release));
        }
        s
    }

    /// The download URL of a mold release asset.
    pub fn asset_url_mold(context: &ToolchainContext, release: &ToolchainRelease) -> (r: Result<
        Url,
        url::ParseError,
    >)
        requires
            mold_platform_ok(context.platform),
        ensures
            r is Ok <==> crate::urls::url_parse_ok(asset_url_mold_label(*context, *release)),
            r matches Ok(u) ==> u == crate::urls::parsed_url_of(
                asset_url_mold_label(*context, *release),
            ),
    {
        let s = Self::asset_url_mold_string(context, release);
        crate::urls::parse_url(s.as_str())
    }

    /// Renders the download URL text of any other component's release
    /// asset, percent-encoding the revision marker in the release
    /// directory.
    pub fn asset_url_other_string(&self, context: &ToolchainContext) -> (r: String)
        ensures
            r@ == asset_url_other_label(*self, *context),
    {
        let mut s = str_to_string("https://github.com/llvmup/toolchains/releases/download/");
        s.append(percent_encode_plus(context.release_fragment_string().as_str()).as_str());
        s.append("/");
        s.append(self.label().as_str());
        s.append("-");
        s.append(context.variant.label().as_str());
        s.append("-");
        s.append(context.release.label().as_str());
        s.append("-");
        s.append(context.platform.label().as_str());
        s.append(context.revision.label().as_str());
        s.append(".tar.xz");
        proof {
            assert(s@ =~= asset_url_other_label(*self, *context));
        }
        s
    }

    /// The download URL of any other component's release asset.
    pub fn asset_url_other(&self, context: &ToolchainContext) -> (r: Result<Url, url::ParseError>)
        ensures
            r is Ok <==> crate::urls::url_parse_ok(asset_url_other_label(*self, *context)),
            r matches Ok(u) ==> u == crate::urls::parsed_url_of(
                asset_url_other_label(*self, *context),
            ),
    {
        let s = self.asset_url_other_string(context);
        crate::urls::parse_url(s.as_str())
    }

    /// The download URL of this component's release asset.
    pub fn asset_url(&self, context: &ToolchainContext) -> (r: Result<Url, url::ParseError>)
        requires
            self is ToolMold ==> mold_platform_ok(context.platform),
        ensures
            r is Ok <==> crate::urls::url_parse_ok(asset_url_label(*self, *context)),
            r matches Ok(u) ==> u == crate::urls::parsed_url_of(asset_url_label(*self, *context)),
    {
        match self {
            ToolchainComponent::ToolMold { release, .. } => Self::asset_url_mold(
                context,
                release,
            ),
            _ => self.asset_url_other(context),
        }
    }
}

} // verus!
