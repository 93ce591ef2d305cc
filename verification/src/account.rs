//! Account identifiers and token amounts.

use vstd::prelude::*;
use crate::store::Key;

verus! {

/// An amount of tokens.
pub type Balance = u128;

/// An opaque 32-byte identifier of a token holder.
///
/// The ledger never interprets the bytes: it only tells identifiers apart.
#[derive(Clone, Copy, Debug, Eq, Hash)]
pub struct AccountId(pub [u8; 32]);

impl PartialEq for AccountId {
    fn eq(&self, other: &AccountId) -> (r: bool) {
        let mut i: usize = 0;
        while i < 32
            invariant
                i <= 32,
                forall|j: int| 0 <= j < i ==> self.0[j] == other.0[j],
            decreases 32 - i,
        {
            if self.0[i] != other.0[i] {
                return false;
            }
            i += 1;
        }
        assert(self.0 =~= other.0);
        true
    }
}

impl vstd::std_specs::cmp::PartialEqSpecImpl for AccountId {
    open spec fn obeys_eq_spec() -> bool {
        true
    }

    open spec fn eq_spec(&self, other: &AccountId) -> bool {
        *self == *other
    }
}

impl Key for AccountId {
    fn same(&self, other: &AccountId) -> (r: bool) {
        *self == *other
    }
}

impl Key for (AccountId, AccountId) {
    fn same(&self, other: &(AccountId, AccountId)) -> (r: bool) {
        self.0 == other.0 && self.1 == other.1
    }
}

} // verus!
