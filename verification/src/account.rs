//! Account identifiers and the balance type shared by all components.

use vstd::prelude::*;

verus! {

/// Amounts of the chain's native token, and participant weights.
pub type Balance = u128;

/// A 32-byte account identifier.
#[derive(Clone, Copy, Debug)]
pub struct AccountId {
    pub bytes: [u8; 32],
}

impl AccountId {
    /// Wraps raw bytes as an account identifier.
    pub fn new(bytes: [u8; 32]) -> (account: AccountId)
        ensures
            account.bytes == bytes,
    {
        AccountId { bytes }
    }

    /// The raw bytes of the identifier.
    pub fn to_bytes(&self) -> (bytes: [u8; 32])
        ensures
            bytes == self.bytes,
    {
        self.bytes
    }
}

impl PartialEq for AccountId {
    fn eq(&self, other: &Self) -> (r: bool) {
        let mut i: usize = 0;
        while i < 32
            invariant
                i <= 32,
                forall|j: int| 0 <= j < i ==> self.bytes[j] == other.bytes[j],
            decreases 32 - i,
        {
            if self.bytes[i] != other.bytes[i] {
                return false;
            }
            i += 1;
        }
        assert(self.bytes =~= other.bytes);
        true
    }
}

impl Eq for AccountId {

}

impl vstd::std_specs::cmp::PartialEqSpecImpl for AccountId {
    open spec fn obeys_eq_spec() -> bool {
        true
    }

    open spec fn eq_spec(&self, other: &Self) -> bool {
        *self == *other
    }
}

} // verus!
