use vstd::prelude::*;

verus! {

/// An account identity: a sponsor, a winner, or an asset kind.
///
/// The hosting environment authenticates callers and hands each operation an
/// already-verified identity as a plain key; the pool logic only ever
/// compares identities for equality and rejects the null identity.
#[derive(Clone, Copy, Debug, PartialEq, Eq, Structural)]
pub struct Identity {
    pub key: u64,
}

impl Identity {
    /// The reserved null identity, never acceptable as a winner.
    pub open spec fn spec_is_null(&self) -> bool {
        self.key == 0
    }

    /// True exactly for the null identity.
    #[verifier::when_used_as_spec(spec_is_null)]
    pub fn is_null(&self) -> (r: bool)
        ensures
            r == self.spec_is_null(),
    {
        self.key == 0
    }
}

} // verus!
