//! Platforms (system and architecture pairs) a toolchain build can target.

use vstd::prelude::*;

use crate::architecture::{arch_eq, ToolchainArch};
use crate::strutil::str_to_string;
use crate::system::{sys_label, ToolchainSys};

verus! {

#[allow(non_camel_case_types)]
#[non_exhaustive]
#[derive(Clone, Copy, Debug, Eq, Hash, PartialEq, Structural)]
pub enum ToolchainPlatform {
    AARCH64_LINUX_GNU,
    AARCH64_WINDOWS_MSVC,
    ARM64_MACOS,
    ARMV7_LINUX_GNUEABIHF,
    I686_LINUX_GNU,
    POWERPC64LE_LINUX_GNU,
    RISCV64_LINUX_GNU,
    S390X_LINUX_GNU,
    X86_64_MACOS,
    X86_64_LINUX_GNU,
    X86_64_WINDOWS_MSVC,
}

/// The architecture each platform runs on.
pub open spec fn platform_arch(p: ToolchainPlatform) -> ToolchainArch {
    match p {
        ToolchainPlatform::AARCH64_LINUX_GNU => ToolchainArch::Aarch64,
        ToolchainPlatform::AARCH64_WINDOWS_MSVC => ToolchainArch::Aarch64,
        ToolchainPlatform::ARM64_MACOS => ToolchainArch::Arm64,
        ToolchainPlatform::ARMV7_LINUX_GNUEABIHF => ToolchainArch::Arm,
        ToolchainPlatform::I686_LINUX_GNU => ToolchainArch::I686,
        ToolchainPlatform::POWERPC64LE_LINUX_GNU => ToolchainArch::PowerPc64Le,
        ToolchainPlatform::RISCV64_LINUX_GNU => ToolchainArch::RiscV64,
        ToolchainPlatform::S390X_LINUX_GNU => ToolchainArch::S390X,
        ToolchainPlatform::X86_64_MACOS => ToolchainArch::X86_64,
        ToolchainPlatform::X86_64_LINUX_GNU => ToolchainArch::X86_64,
        ToolchainPlatform::X86_64_WINDOWS_MSVC => ToolchainArch::X86_64,
    }
}

/// The operating system each platform runs on.
pub open spec fn platform_sys(p: ToolchainPlatform) -> ToolchainSys {
    match p {
        ToolchainPlatform::AARCH64_LINUX_GNU => ToolchainSys::Linux,
        ToolchainPlatform::AARCH64_WINDOWS_MSVC => ToolchainSys::Windows,
        ToolchainPlatform::ARM64_MACOS => ToolchainSys::Macos,
        ToolchainPlatform::ARMV7_LINUX_GNUEABIHF => ToolchainSys::Linux,
        ToolchainPlatform::I686_LINUX_GNU => ToolchainSys::Linux,
        ToolchainPlatform::POWERPC64LE_LINUX_GNU => ToolchainSys::Linux,
        ToolchainPlatform::RISCV64_LINUX_GNU => ToolchainSys::Linux,
        ToolchainPlatform::S390X_LINUX_GNU => ToolchainSys::Linux,
        ToolchainPlatform::X86_64_MACOS => ToolchainSys::Macos,
        ToolchainPlatform::X86_64_LINUX_GNU => ToolchainSys::Linux,
        ToolchainPlatform::X86_64_WINDOWS_MSVC => ToolchainSys::Windows,
    }
}

/// The platform for a host with the given system and architecture, when the
/// toolchain distribution supports that pair.
pub open spec fn spec_detect(sys: ToolchainSys, arch: ToolchainArch) -> Option<ToolchainPlatform> {
    match (sys, arch) {
        (ToolchainSys::Linux, ToolchainArch::Aarch64) => Some(
            ToolchainPlatform::AARCH64_LINUX_GNU,
        ),
        (ToolchainSys::Linux, ToolchainArch::Arm64) => Some(ToolchainPlatform::AARCH64_LINUX_GNU),
        (ToolchainSys::Linux, ToolchainArch::Arm) => Some(
            ToolchainPlatform::ARMV7_LINUX_GNUEABIHF,
        ),
        (ToolchainSys::Linux, ToolchainArch::I686) => Some(ToolchainPlatform::I686_LINUX_GNU),
        (ToolchainSys::Linux, ToolchainArch::PowerPc64Le) => Some(
            ToolchainPlatform::POWERPC64LE_LINUX_GNU,
        ),
        (ToolchainSys::Linux, ToolchainArch::RiscV64) => Some(
            ToolchainPlatform::RISCV64_LINUX_GNU,
        ),
        (ToolchainSys::Linux, ToolchainArch::S390X) => Some(ToolchainPlatform::S390X_LINUX_GNU),
        (ToolchainSys::Linux, ToolchainArch::X86_64) => Some(ToolchainPlatform::X86_64_LINUX_GNU),
        (ToolchainSys::Macos, ToolchainArch::Aarch64) => Some(ToolchainPlatform::ARM64_MACOS),
        (ToolchainSys::Macos, ToolchainArch::Arm64) => Some(ToolchainPlatform::ARM64_MACOS),
        (ToolchainSys::Macos, ToolchainArch::X86_64) => Some(ToolchainPlatform::X86_64_MACOS),
        (ToolchainSys::Windows, ToolchainArch::Aarch64) => Some(
            ToolchainPlatform::AARCH64_WINDOWS_MSVC,
        ),
        (ToolchainSys::Windows, ToolchainArch::Arm64) => Some(
            ToolchainPlatform::AARCH64_WINDOWS_MSVC,
        ),
        (ToolchainSys::Windows, ToolchainArch::X86_64) => Some(
            ToolchainPlatform::X86_64_WINDOWS_MSVC,
        ),
        _ => None,
    }
}

/// The platform's name in paths, archive names, and URLs.
pub open spec fn platform_label(p: ToolchainPlatform) -> Seq<char> {
    match p {
        ToolchainPlatform::AARCH64_LINUX_GNU => "aarch64-linux-gnu"@,
        ToolchainPlatform::AARCH64_WINDOWS_MSVC => "aarch64-windows-msvc"@,
        ToolchainPlatform::ARM64_MACOS => "arm64-macos"@,
        ToolchainPlatform::ARMV7_LINUX_GNUEABIHF => "armv7-linux-gnueabihf"@,
        ToolchainPlatform::I686_LINUX_GNU => "i686-linux-gnu"@,
        ToolchainPlatform::POWERPC64LE_LINUX_GNU => "powerpc64le-linux-gnu"@,
        ToolchainPlatform::RISCV64_LINUX_GNU => "riscv64-linux-gnu"@,
        ToolchainPlatform::S390X_LINUX_GNU => "s390x-linux-gnu"@,
        ToolchainPlatform::X86_64_MACOS => "x86_64-macos"@,
        ToolchainPlatform::X86_64_LINUX_GNU => "x86_64-linux-gnu"@,
        ToolchainPlatform::X86_64_WINDOWS_MSVC => "x86_64-windows-msvc"@,
    }
}

impl ToolchainPlatform {
    /// Picks the platform for a host with the given system and architecture.
    /// The result always runs the system asked for, on an architecture equal
    /// to the one asked for.
    pub fn detect(sys: ToolchainSys, arch: ToolchainArch) -> (r: Option<Self>)
        ensures
            r == spec_detect(sys, arch),
            r matches Some(p) ==> platform_sys(p) == sys && arch_eq(platform_arch(p), arch),
    {
        match (sys, arch) {
            (ToolchainSys::Linux, ToolchainArch::Aarch64) => Some(
                ToolchainPlatform::AARCH64_LINUX_GNU,
            ),
            (ToolchainSys::Linux, ToolchainArch::Arm64) => Some(
                ToolchainPlatform::AARCH64_LINUX_GNU,
            ),
            (ToolchainSys::Linux, ToolchainArch::Arm) => Some(
                ToolchainPlatform::ARMV7_LINUX_GNUEABIHF,
            ),
            (ToolchainSys::Linux, ToolchainArch::I686) => Some(ToolchainPlatform::I686_LINUX_GNU),
            (ToolchainSys::Linux, ToolchainArch::PowerPc64Le) => Some(
                ToolchainPlatform::POWERPC64LE_LINUX_GNU,
            ),
            (ToolchainSys::Linux, ToolchainArch::RiscV64) => Some(
                ToolchainPlatform::RISCV64_LINUX_GNU,
            ),
            (ToolchainSys::Linux, ToolchainArch::S390X) => Some(
                ToolchainPlatform::S390X_LINUX_GNU,
            ),
            (ToolchainSys::Linux, ToolchainArch::X86_64) => Some(
                ToolchainPlatform::X86_64_LINUX_GNU,
            ),
            (ToolchainSys::Macos, ToolchainArch::Aarch64) => Some(ToolchainPlatform::ARM64_MACOS),
            (ToolchainSys::Macos, ToolchainArch::Arm64) => Some(ToolchainPlatform::ARM64_MACOS),
            (ToolchainSys::Macos, ToolchainArch::X86_64) => Some(ToolchainPlatform::X86_64_MACOS),
            (ToolchainSys::Windows, ToolchainArch::Aarch64) => Some(
                ToolchainPlatform::AARCH64_WINDOWS_MSVC,
            ),
            (ToolchainSys::Windows, ToolchainArch::Arm64) => Some(
                ToolchainPlatform::AARCH64_WINDOWS_MSVC,
            ),
            (ToolchainSys::Windows, ToolchainArch::X86_64) => Some(
                ToolchainPlatform::X86_64_WINDOWS_MSVC,
            ),
            _ => None,
        }
    }

    pub fn arch(&self) -> (r: ToolchainArch)
        ensures
            r == platform_arch(*self),
    {
        match self {
            ToolchainPlatform::AARCH64_LINUX_GNU => ToolchainArch::Aarch64,
            ToolchainPlatform::AARCH64_WINDOWS_MSVC => ToolchainArch::Aarch64,
            ToolchainPlatform::ARM64_MACOS => ToolchainArch::Arm64,
            ToolchainPlatform::ARMV7_LINUX_GNUEABIHF => ToolchainArch::Arm,
            ToolchainPlatform::I686_LINUX_GNU => ToolchainArch::I686,
            ToolchainPlatform::POWERPC64LE_LINUX_GNU => ToolchainArch::PowerPc64Le,
            ToolchainPlatform::RISCV64_LINUX_GNU => ToolchainArch::RiscV64,
            ToolchainPlatform::S390X_LINUX_GNU => ToolchainArch::S390X,
            ToolchainPlatform::X86_64_MACOS => ToolchainArch::X86_64,
            ToolchainPlatform::X86_64_LINUX_GNU => ToolchainArch::X86_64,
            ToolchainPlatform::X86_64_WINDOWS_MSVC => ToolchainArch::X86_64,
        }
    }

    pub fn sys(&self) -> (r: ToolchainSys)
        ensures
            r == platform_sys(*self),
    {
        match self {
            ToolchainPlatform::AARCH64_LINUX_GNU => ToolchainSys::Linux,
            ToolchainPlatform::AARCH64_WINDOWS_MSVC => ToolchainSys::Windows,
            ToolchainPlatform::ARM64_MACOS => ToolchainSys::Macos,
            ToolchainPlatform::ARMV7_LINUX_GNUEABIHF => ToolchainSys::Linux,
            ToolchainPlatform::I686_LINUX_GNU => ToolchainSys::Linux,
            ToolchainPlatform::POWERPC64LE_LINUX_GNU => ToolchainSys::Linux,
            ToolchainPlatform::RISCV64_LINUX_GNU => ToolchainSys::Linux,
            ToolchainPlatform::S390X_LINUX_GNU => ToolchainSys::Linux,
            ToolchainPlatform::X86_64_MACOS => ToolchainSys::Macos,
            ToolchainPlatform::X86_64_LINUX_GNU => ToolchainSys::Linux,
            ToolchainPlatform::X86_64_WINDOWS_MSVC => ToolchainSys::Windows,
        }
    }

    pub fn label(&self) -> (r: String)
        ensures
            r@ == platform_label(*self),
    {
        match self {
            ToolchainPlatform::AARCH64_LINUX_GNU => str_to_string("aarch64-linux-gnu"),
            ToolchainPlatform::AARCH64_WINDOWS_MSVC => str_to_string("aarch64-windows-msvc"),
            ToolchainPlatform::ARM64_MACOS => str_to_string("arm64-macos"),
            ToolchainPlatform::ARMV7_LINUX_GNUEABIHF => str_to_string("armv7-linux-gnueabihf"),
            ToolchainPlatform::I686_LINUX_GNU => str_to_string("i686-linux-gnu"),
            ToolchainPlatform::POWERPC64LE_LINUX_GNU => str_to_string("powerpc64le-linux-gnu"),
            ToolchainPlatform::RISCV64_LINUX_GNU => str_to_string("riscv64-linux-gnu"),
            ToolchainPlatform::S390X_LINUX_GNU => str_to_string("s390x-linux-gnu"),
            ToolchainPlatform::X86_64_MACOS => str_to_string("x86_64-macos"),
            ToolchainPlatform::X86_64_LINUX_GNU => str_to_string("x86_64-linux-gnu"),
            ToolchainPlatform::X86_64_WINDOWS_MSVC => str_to_string("x86_64-windows-msvc"),
        }
    }

    /// The platform's rank in the order used to compare tool components.
    pub fn rank(&self) -> (r: u8)
        ensures
            r == platform_rank(*self),
    {
        match self {
            ToolchainPlatform::AARCH64_LINUX_GNU => 0,
            ToolchainPlatform::AARCH64_WINDOWS_MSVC => 1,
            ToolchainPlatform::ARM64_MACOS => 2,
            ToolchainPlatform::ARMV7_LINUX_GNUEABIHF => 3,
            ToolchainPlatform::I686_LINUX_GNU => 4,
            ToolchainPlatform::POWERPC64LE_LINUX_GNU => 5,
            ToolchainPlatform::RISCV64_LINUX_GNU => 6,
            ToolchainPlatform::S390X_LINUX_GNU => 7,
            ToolchainPlatform::X86_64_MACOS => 8,
            ToolchainPlatform::X86_64_LINUX_GNU => 9,
            ToolchainPlatform::X86_64_WINDOWS_MSVC => 10,
        }
    }
}

/// Platform order, by declaration: used when comparing tool components.
pub open spec fn platform_rank(p: ToolchainPlatform) -> int {
    match p {
        ToolchainPlatform::AARCH64_LINUX_GNU => 0,
        ToolchainPlatform::AARCH64_WINDOWS_MSVC => 1,
        ToolchainPlatform::ARM64_MACOS => 2,
        ToolchainPlatform::ARMV7_LINUX_GNUEABIHF => 3,
        ToolchainPlatform::I686_LINUX_GNU => 4,
        ToolchainPlatform::POWERPC64LE_LINUX_GNU => 5,
        ToolchainPlatform::RISCV64_LINUX_GNU => 6,
        ToolchainPlatform::S390X_LINUX_GNU => 7,
        ToolchainPlatform::X86_64_MACOS => 8,
        ToolchainPlatform::X86_64_LINUX_GNU => 9,
        ToolchainPlatform::X86_64_WINDOWS_MSVC => 10,
    }
}

} // verus!
