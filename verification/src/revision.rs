//! Optional toolchain revision numbers.

use vstd::prelude::*;

use crate::strutil::{dec_digits, str_to_string, u64_to_dec_string};

verus! {

/// A revision suffix for a release; absent for unrevised releases.
#[derive(Clone, Copy, Debug, Eq, Hash, PartialEq, Structural)]
pub struct ToolchainRevision(pub Option<usize>);

/// How the revision appears in names: `+rev<n>`, or nothing when absent.
pub open spec fn revision_label(r: ToolchainRevision) -> Seq<char> {
    match r.0 {
        Some(n) => "+rev"@ + dec_digits(n as nat),
        None => Seq::<char>::empty(),
    }
}

impl ToolchainRevision {
    pub fn new(revision: Option<usize>) -> (r: Self)
        ensures
            r.0 == revision,
    {
        Self(revision)
    }

    pub fn label(&self) -> (r: String)
        ensures
            r@ == revision_label(*self),
    {
        match self.0 {
            Some(n) => {
                let mut s = str_to_string("+rev");
                s.append(u64_to_dec_string(n as u64).as_str());
                s
            },
            None => {
                proof {
                    reveal_strlit("");
                    assert(""@ =~= Seq::<char>::empty());
                }
                str_to_string("")
            },
        }
    }
}

} // verus!
