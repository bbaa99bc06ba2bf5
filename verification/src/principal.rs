use vstd::prelude::*;

verus! {

/// An externally-addressable identity (account or key) used as sender,
/// receiver, owner, or referrer. The engine only ever compares principals
/// for equality; a 256-bit identity is carried as two 128-bit words.
#[derive(Clone, Copy, PartialEq, Eq, Structural, Debug, Hash)]
pub struct Principal {
    pub hi: u128,
    pub lo: u128,
}

impl Principal {
    /// Builds a principal from its two identity words.
    pub fn new(hi: u128, lo: u128) -> (p: Principal)
        ensures
            p.hi == hi,
            p.lo == lo,
    {
        Principal { hi, lo }
    }
}

} // verus!
