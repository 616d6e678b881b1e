//! Account identifiers.
use vstd::prelude::*;

verus! {

/// A 256-bit account identifier, held as two 128-bit halves (most significant first).
#[derive(Clone, Copy, Debug, PartialEq, Eq, Structural)]
pub struct ActorId {
    pub hi: u128,
    pub lo: u128,
}

/// The integer pair an account is keyed by in the books.
pub type Key = (u128, u128);

impl ActorId {
    pub open spec fn key_spec(&self) -> Key {
        (self.hi, self.lo)
    }

    pub open spec fn is_zero_spec(&self) -> bool {
        self.hi == 0 && self.lo == 0
    }

    /// The zero account, used as the counterparty of mints and burns.
    pub fn zero() -> (r: ActorId)
        ensures
            r.is_zero_spec(),
    {
        ActorId { hi: 0, lo: 0 }
    }

    /// The account numbered `n` (the low half holds `n`).
    pub fn from_u64(n: u64) -> (r: ActorId)
        ensures
            r.hi == 0,
            r.lo == n,
    {
        ActorId { hi: 0, lo: n as u128 }
    }

    pub fn from_halves(hi: u128, lo: u128) -> (r: ActorId)
        ensures
            r.hi == hi,
            r.lo == lo,
    {
        ActorId { hi, lo }
    }

    pub fn is_zero(&self) -> (r: bool)
        ensures
            r == self.is_zero_spec(),
    {
        self.hi == 0 && self.lo == 0
    }

    #[verifier::when_used_as_spec(key_spec)]
    pub fn key(&self) -> (r: Key)
        ensures
            r == self.key_spec(),
    {
        (self.hi, self.lo)
    }

    pub fn same(&self, other: &ActorId) -> (r: bool)
        ensures
            r == (*self == *other),
    {
        self.hi == other.hi && self.lo == other.lo
    }
}

/// Two accounts with the same key are the same account.
pub proof fn lemma_key_injective(a: ActorId, b: ActorId)
    ensures
        a.key() == b.key() <==> a == b,
{
}

} // verus!
