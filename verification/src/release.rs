//! Toolchain release version numbers (`major.minor[.patch]`).

use vstd::prelude::*;

use crate::strutil::{dec_digits, str_to_string, u64_to_dec_string};

verus! {

/// How a release appears in names: `major.minor`, then `.patch` when the
/// patch level is present.
pub open spec fn release_label(r: ToolchainRelease) -> Seq<char> {
    dec_digits(r.major as nat) + "."@ + dec_digits(r.minor as nat) + match r.patch {
        Some(p) => "."@ + dec_digits(p as nat),
        None => Seq::<char>::empty(),
    }
}

/// A toolchain release version. The patch level is optional because some
/// toolchain variants publish releases identified by major and minor alone.
#[derive(Clone, Copy, Debug, Eq, Hash, PartialEq, Structural)]
pub struct ToolchainRelease {
    pub major: usize,
    pub minor: usize,
    pub patch: Option<usize>,
}

impl ToolchainRelease {
    pub fn new(major: usize, minor: usize, patch: Option<usize>) -> (r: Self)
        ensures
            r.major == major,
            r.minor == minor,
            r.patch == patch,
    {
        Self { major, minor, patch }
    }

    pub fn label(&self) -> (r: String)
        ensures
            r@ == release_label(*self),
    {
        let mut s = u64_to_dec_string(self.major as u64);
        s.append(".");
        s.append(u64_to_dec_string(self.minor as u64).as_str());
        match self.patch {
            Some(p) => {
                s.append(".");
                s.append(u64_to_dec_string(p as u64).as_str());
            },
            None => {},
        }
        proof {
            assert(s@ =~= release_label(*self));
        }
        s
    }
}

} // verus!
