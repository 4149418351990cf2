//! The context a toolchain installation is resolved in: variant, release,
//! revision, and platform.

use vstd::prelude::*;

use crate::platform::ToolchainPlatform;
use crate::release::{release_label, ToolchainRelease};
use crate::revision::{revision_label, ToolchainRevision};
use crate::variant::{variant_label, ToolchainVariant};

verus! {

#[derive(Clone, Copy, Debug, Eq, Hash, PartialEq, Structural)]
pub struct ToolchainContext {
    pub variant: ToolchainVariant,
    pub release: ToolchainRelease,
    pub revision: ToolchainRevision,
    pub platform: ToolchainPlatform,
}

/// The release directory fragment `<variant>-<release><revision>` that names
/// one toolchain release on disk and in release URLs.
pub open spec fn release_fragment(c: ToolchainContext) -> Seq<char> {
    variant_label(c.variant) + "-"@ + release_label(c.release) + revision_label(c.revision)
}

impl ToolchainContext {
    pub fn new(
        variant: ToolchainVariant,
        release: ToolchainRelease,
        revision: ToolchainRevision,
        platform: ToolchainPlatform,
    ) -> (r: Self)
        ensures
            r.variant == variant,
            r.release == release,
            r.revision == revision,
            r.platform == platform,
    {
        Self { variant, release, revision, platform }
    }

    /// Renders `<variant>-<release><revision>`.
    pub fn release_fragment_string(&self) -> (r: String)
        ensures
            r@ == release_fragment(*self),
    {
        let mut s = self.variant.label();
        s.append("-");
        s.append(self.release.label().as_str());
        s.append(self.revision.label().as_str());
        proof {
            assert(s@ =~= release_fragment(*self));
        }
        s
    }
}

} // verus!
