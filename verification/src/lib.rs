//! Verified core of a native compiler-toolchain manager: models toolchain
//! components and their manifests, builds the inter-library dependency graph,
//! orders its strongly connected components, and generates link configuration.

pub mod analysis;
pub mod architecture;
pub mod component;
pub mod context;
pub mod dependencies;
pub mod directories;
pub mod generation;
pub mod graph;
pub mod laws;
pub mod manifest;
pub mod node;
pub mod platform;
pub mod release;
pub mod revision;
pub mod strutil;
pub mod system;
pub mod toolchain;
pub mod urls;
pub mod variant;
pub mod verification;

pub use crate::analysis::{ToolchainAnalysis, ToolchainComponentDependencyGraph};
pub use crate::architecture::ToolchainArch;
pub use crate::component::ToolchainComponent;
pub use crate::context::ToolchainContext;
pub use crate::directories::Directories;
pub use crate::generation::ToolchainConfigGenerator;
pub use crate::node::{
    ToolchainComponentDependencyNode,
    ToolchainComponentDependencyNodeKind,
};
pub use crate::manifest::{
    ManifestCMakeImportedTarget,
    ManifestCMakeInherentTarget,
    ManifestCMakeProperties,
    ManifestDistribution,
    ToolchainComponentManifest,
};
pub use crate::platform::ToolchainPlatform;
pub use crate::release::ToolchainRelease;
pub use crate::revision::ToolchainRevision;
pub use crate::system::ToolchainSys;
pub use crate::toolchain::{
    Toolchain,
    ToolchainComponentAsset,
    ToolchainComponentAssetBundle,
    ToolchainHandle,
    ToolchainInstallOptions,
};
pub use crate::variant::ToolchainVariant;
