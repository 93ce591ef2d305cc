//! The records that the ledger hands to the event log of its host.

use vstd::prelude::*;
use crate::account::{AccountId, Balance};

verus! {

/// Tokens moved between accounts.
///
/// `from` is `None` where the tokens were issued at construction; `to` is
/// `None` where they leave circulation, which no operation of the ledger
/// does.
#[derive(Clone, Copy, Debug, PartialEq, Eq)]
pub struct Transfer {
    pub from: Option<AccountId>,
    pub to: Option<AccountId>,
    pub value: Balance,
}

/// An owner set the amount that a spender may move on the owner's behalf.
///
/// The ledger has no operation that sets an allowance, so it never emits
/// this record; the shape is kept for hosts that add one.
#[derive(Clone, Copy, Debug, PartialEq, Eq)]
pub struct Approval {
    pub owner: AccountId,
    pub spender: AccountId,
    pub value: Balance,
}

} // verus!
