//! Identities: the 32-byte keys by which voters, creators and tokens are
//! told apart.
use vstd::prelude::*;

verus! {

/// A 32-byte public key that names a participant or a token.
#[derive(Clone, Copy, Debug)]
pub struct Pubkey {
    pub key: [u8; 32],
}

impl Pubkey {
    /// Every byte of the key is zero.
    pub open spec fn is_zero(self) -> bool {
        forall|i: int| 0 <= i < 32 ==> self.key@[i] == 0
    }

    /// The key of 32 zero bytes, which names nobody.
    pub fn zero() -> (r: Pubkey)
        ensures
            r.is_zero(),
    {
        Pubkey { key: [0u8; 32] }
    }

    /// Whether two keys are the same key.
    pub fn same_as(&self, other: &Pubkey) -> (r: bool)
        ensures
            r == (*self == *other),
    {
        let mut i: usize = 0;
        while i < 32
            invariant
                i <= 32,
                forall|j: int| 0 <= j < i ==> self.key@[j] == other.key@[j],
            decreases 32 - i,
        {
            if self.key[i] != other.key[i] {
                return false;
            }
            i += 1;
        }
        proof {
            assert(self.key =~= other.key);
        }
        true
    }

    /// The key's bytes.
    pub fn to_bytes(&self) -> (r: [u8; 32])
        ensures
            r == self.key,
    {
        self.key
    }
}

} // verus!
