//! Toolchain distribution variants.

use vstd::prelude::*;

use crate::strutil::str_to_string;

verus! {

#[derive(Clone, Copy, Debug, Eq, Hash, PartialEq, Structural)]
pub enum ToolchainVariant {
    Llvmorg,
    Swift,
}

/// The name under which the variant appears in release directories.
pub open spec fn variant_label(v: ToolchainVariant) -> Seq<char> {
    match v {
        ToolchainVariant::Llvmorg => "llvmorg"@,
        ToolchainVariant::Swift => "swift"@,
    }
}

impl ToolchainVariant {
    pub fn label(&self) -> (r: String)
        ensures
            r@ == variant_label(*self),
    {
        match self {
            ToolchainVariant::Llvmorg => str_to_string("llvmorg"),
            ToolchainVariant::Swift => str_to_string("swift"),
        }
    }
}

} // verus!
