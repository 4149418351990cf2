//! Processor architectures a toolchain build can target.
//!
//! Equality treats `Aarch64` and `Arm64` as the same architecture: they are
//! two vendor spellings of one instruction set.

use vstd::prelude::*;

use crate::strutil::str_to_string;

verus! {

#[allow(non_camel_case_types)]
#[non_exhaustive]
#[derive(Clone, Copy, Debug)]
pub enum ToolchainArch {
    Aarch64,
    Arm,
    Arm64,
    I686,
    PowerPc64Le,
    RiscV64,
    S390X,
    X86_64,
}

/// Architecture equality: `Aarch64` and `Arm64` are interchangeable,
/// every other architecture equals only itself.
pub open spec fn arch_eq(a: ToolchainArch, b: ToolchainArch) -> bool {
    match (a, b) {
        (ToolchainArch::Aarch64, ToolchainArch::Arm64) => true,
        (ToolchainArch::Arm64, ToolchainArch::Aarch64) => true,
        (ToolchainArch::Aarch64, ToolchainArch::Aarch64) => true,
        (ToolchainArch::Arm, ToolchainArch::Arm) => true,
        (ToolchainArch::Arm64, ToolchainArch::Arm64) => true,
        (ToolchainArch::I686, ToolchainArch::I686) => true,
        (ToolchainArch::PowerPc64Le, ToolchainArch::PowerPc64Le) => true,
        (ToolchainArch::RiscV64, ToolchainArch::RiscV64) => true,
        (ToolchainArch::S390X, ToolchainArch::S390X) => true,
        (ToolchainArch::X86_64, ToolchainArch::X86_64) => true,
        _ => false,
    }
}

impl PartialEq for ToolchainArch {
    fn eq(&self, other: &Self) -> (r: bool) {
        match (self, other) {
            (ToolchainArch::Aarch64, ToolchainArch::Arm64) => true,
            (ToolchainArch::Arm64, ToolchainArch::Aarch64) => true,
            (ToolchainArch::Aarch64, ToolchainArch::Aarch64) => true,
            (ToolchainArch::Arm, ToolchainArch::Arm) => true,
            (ToolchainArch::Arm64, ToolchainArch::Arm64) => true,
            (ToolchainArch::I686, ToolchainArch::I686) => true,
            (ToolchainArch::PowerPc64Le, ToolchainArch::PowerPc64Le) => true,
            (ToolchainArch::RiscV64, ToolchainArch::RiscV64) => true,
            (ToolchainArch::S390X, ToolchainArch::S390X) => true,
            (ToolchainArch::X86_64, ToolchainArch::X86_64) => true,
            _ => false,
        }
    }
}

impl vstd::std_specs::cmp::PartialEqSpecImpl for ToolchainArch {
    open spec fn obeys_eq_spec() -> bool {
        true
    }

    open spec fn eq_spec(&self, other: &Self) -> bool {
        arch_eq(*self, *other)
    }
}

/// The name under which the architecture appears in tree names.
pub open spec fn arch_label(a: ToolchainArch) -> Seq<char> {
    match a {
        ToolchainArch::Aarch64 => "aarch64"@,
        ToolchainArch::Arm => "arm"@,
        ToolchainArch::Arm64 => "arm64"@,
        ToolchainArch::I686 => "i686"@,
        ToolchainArch::PowerPc64Le => "powerpc64le"@,
        ToolchainArch::RiscV64 => "riscv64"@,
        ToolchainArch::S390X => "s390x"@,
        ToolchainArch::X86_64 => "x86_64"@,
    }
}

impl ToolchainArch {
    pub fn label(&self) -> (r: String)
        ensures
            r@ == arch_label(*self),
    {
        match self {
            ToolchainArch::Aarch64 => str_to_string("aarch64"),
            ToolchainArch::Arm => str_to_string("arm"),
            ToolchainArch::Arm64 => str_to_string("arm64"),
            ToolchainArch::I686 => str_to_string("i686"),
            ToolchainArch::PowerPc64Le => str_to_string("powerpc64le"),
            ToolchainArch::RiscV64 => str_to_string("riscv64"),
            ToolchainArch::S390X => str_to_string("s390x"),
            ToolchainArch::X86_64 => str_to_string("x86_64"),
        }
    }
}

} // verus!
