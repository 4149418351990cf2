//! Operating systems a toolchain build can target.

use vstd::prelude::*;

use crate::strutil::str_to_string;

verus! {

#[allow(non_camel_case_types)]
#[non_exhaustive]
#[derive(Clone, Copy, Debug, Eq, Hash, PartialEq, Structural)]
pub enum ToolchainSys {
    Linux,
    Macos,
    Windows,
}

/// The name under which the system appears in platform triples.
pub open spec fn sys_label(s: ToolchainSys) -> Seq<char> {
    match s {
        ToolchainSys::Linux => "linux"@,
        ToolchainSys::Macos => "macos"@,
        ToolchainSys::Windows => "windows"@,
    }
}

impl ToolchainSys {
    pub fn label(&self) -> (r: String)
        ensures
            r@ == sys_label(*self),
    {
        match self {
            ToolchainSys::Linux => str_to_string("linux"),
            ToolchainSys::Macos => str_to_string("macos"),
            ToolchainSys::Windows => str_to_string("windows"),
        }
    }
}

} // verus!
