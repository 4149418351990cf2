//! The on-disk layout of a toolchain installation root.

use vstd::prelude::*;

use crate::component::{component_label, ToolchainComponent};
use crate::context::{release_fragment, ToolchainContext};
use crate::platform::platform_label;

verus! {

/// The directories under one installation root.
pub struct Directories {
    pub root: String,
    pub downloads: String,
    pub toolchains: String,
    pub trees: String,
}

/// The downloads directory of a root.
pub open spec fn downloads_of(root: Seq<char>) -> Seq<char> {
    root + "/downloads"@
}

/// The toolchains directory of a root.
pub open spec fn toolchains_of(root: Seq<char>) -> Seq<char> {
    root + "/toolchains"@
}

/// The trees directory of a root.
pub open spec fn trees_of(root: Seq<char>) -> Seq<char> {
    root + "/trees"@
}

/// The root path of one installed toolchain:
/// `<trees>/<variant>-<release><revision>/<platform>`.
pub open spec fn toolchain_root_path_of(root: Seq<char>, c: ToolchainContext) -> Seq<char> {
    trees_of(root) + "/"@ + release_fragment(c) + "/"@ + platform_label(c.platform)
}

/// The manifest path of one installed component:
/// `<toolchain root>/share/<component>/llvmup.json`.
pub open spec fn manifest_path_of(
    root: Seq<char>,
    c: ToolchainContext,
    component: ToolchainComponent,
) -> Seq<char> {
    toolchain_root_path_of(root, c) + "/share/"@ + component_label(component) + "/llvmup.json"@
}

impl Directories {
    /// Lays out the directories under the given installation root.
    pub fn new(root: String) -> (r: Self)
        ensures
            r.root@ == root@,
            r.downloads@ == downloads_of(root@),
            r.toolchains@ == toolchains_of(root@),
            r.trees@ == trees_of(root@),
            r.wf(),
    {
        let mut downloads = root.clone();
        downloads.append("/downloads");
        let mut toolchains = root.clone();
        toolchains.append("/toolchains");
        let mut trees = root.clone();
        trees.append("/trees");
        Self { root, downloads, toolchains, trees }
    }

    /// The directories hang together under one root.
    pub open spec fn wf(&self) -> bool {
        &&& self.downloads@ == downloads_of(self.root@)
        &&& self.toolchains@ == toolchains_of(self.root@)
        &&& self.trees@ == trees_of(self.root@)
    }

    pub open spec fn spec_root(&self) -> Seq<char> {
        self.root@
    }

    pub fn root(&self) -> (r: &String)
        ensures
            r@ == self.spec_root(),
    {
        &self.root
    }

    pub fn downloads(&self) -> (r: &String)
        ensures
            r@ == self.downloads@,
    {
        &self.downloads
    }

    pub fn toolchains(&self) -> (r: &String)
        ensures
            r@ == self.toolchains@,
    {
        &self.toolchains
    }

    pub fn trees(&self) -> (r: &String)
        ensures
            r@ == self.trees@,
    {
        &self.trees
    }

    /// Renders the root path of one installed toolchain.
    pub fn toolchain_root_path(&self, context: &ToolchainContext) -> (r: String)
        requires
            self.wf(),
        ensures
            r@ == toolchain_root_path_of(self.spec_root(), *context),
    {
        let mut s = self.trees.clone();
        s.append("/");
        s.append(context.release_fragment_string().as_str());
        s.append("/");
        s.append(context.platform.label().as_str());
        proof {
            assert(s@ =~= toolchain_root_path_of(self.spec_root(), *context));
        }
        s
    }

    /// Renders the manifest path of one installed component.
    pub fn manifest_path(&self, context: &ToolchainContext, component: ToolchainComponent) -> (r:
        String)
        requires
            self.wf(),
        ensures
            r@ == manifest_path_of(self.spec_root(), *context, component),
    {
        let mut s = self.toolchain_root_path(context);
        s.append("/share/");
        s.append(component.label().as_str());
        s.append("/llvmup.json");
        proof {
            assert(s@ =~= manifest_path_of(self.spec_root(), *context, component));
        }
        s
    }

    /// Copies the directory set.
    pub fn duplicate(&self) -> (r: Self)
        ensures
            r.spec_root() == self.spec_root(),
            r.downloads@ == self.downloads@,
            r.toolchains@ == self.toolchains@,
            r.trees@ == self.trees@,
            self.wf() ==> r.wf(),
    {
        Self {
            root: self.root.clone(),
            downloads: self.downloads.clone(),
            toolchains: self.toolchains.clone(),
            trees: self.trees.clone(),
        }
    }
}

} // verus!
