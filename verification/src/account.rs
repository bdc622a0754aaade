//! Account identities.

use vstd::prelude::*;
use vstd::std_specs::cmp::PartialEqSpecImpl;
use crate::store::StoreKey;

verus! {

/// An opaque identity of a ledger participant. Two identities are the same
/// account exactly when their bytes agree.
#[derive(Clone, Copy, Debug, Eq, Hash)]
pub struct AccountId {
    /// The bytes that make up the identity.
    pub bytes: [u8; 32],
}

impl PartialEq for AccountId {
    /// Compares the two identities byte by byte.
    fn eq(&self, other: &AccountId) -> (r: bool) {
        let mut i: usize = 0;
        while i < 32
            invariant
                i <= 32,
                forall|j: int| 0 <= j < i ==> self.bytes[j] == other.bytes[j],
            decreases 32 - i,
        {
            if self.bytes[i] != other.bytes[i] {
                return false;
            }
            i += 1;
        }
        proof {
            assert(self.bytes =~= other.bytes);
        }
        true
    }
}

impl PartialEqSpecImpl for AccountId {
    open spec fn obeys_eq_spec() -> bool {
        true
    }

    open spec fn eq_spec(&self, other: &AccountId) -> bool {
        *self == *other
    }
}

impl AccountId {
    /// The identity that holds the given bytes.
    pub fn new(bytes: [u8; 32]) -> (id: AccountId)
        ensures
            id.bytes == bytes,
    {
        AccountId { bytes }
    }
}

impl StoreKey for AccountId {
    fn same_key(&self, other: &AccountId) -> (r: bool) {
        *self == *other
    }
}

impl StoreKey for (AccountId, AccountId) {
    fn same_key(&self, other: &(AccountId, AccountId)) -> (r: bool) {
        self.0 == other.0 && self.1 == other.1
    }
}

} // verus!
