//! The token ledger: balances, allowances, total supply, and the operations
//! that move tokens.

use vstd::prelude::*;
use crate::account::{AccountId, Balance};
use crate::balances::{lemma_amounts_bounded, moved, Balances};
use crate::events::Transfer;
use crate::store::{amount_or_zero, distinct_keys, entries_map, Store};
use crate::sum::sum_of;

verus! {

/// The state of a ledger as a mathematical value.
#[verifier::ext_equal]
pub struct LedgerState {
    /// The number of tokens issued at construction.
    pub total_supply: Balance,
    /// The amount held by each account that has an entry.
    pub balances: Map<AccountId, Balance>,
    /// For each (owner, spender) pair that has an entry, the amount that the
    /// spender may still move on the owner's behalf.
    pub allowances: Map<(AccountId, AccountId), Balance>,
    /// The records emitted and not yet taken, oldest first.
    pub events: Seq<Transfer>,
}

/// A call of one of the operations that change a ledger, with its arguments.
///
/// The contracts and the laws speak of calls; the operations themselves take
/// their arguments one by one.
pub enum Call {
    /// A call of [`Erc20::transfer`].
    Transfer { caller: AccountId, recipient: AccountId, amount: Balance },
    /// A call of [`Erc20::transfer_from`].
    TransferFrom { caller: AccountId, from: AccountId, to: AccountId, value: Balance },
    /// A call of [`Erc20::take_events`].
    TakeEvents,
}

impl LedgerState {
    /// The balance of `account`: zero where it has no entry.
    pub open spec fn balance_of(self, account: AccountId) -> Balance {
        amount_or_zero(self.balances, account)
    }

    /// What `spender` may still move on behalf of `owner`: zero where the
    /// pair has no entry.
    pub open spec fn allowance(self, owner: AccountId, spender: AccountId) -> Balance {
        amount_or_zero(self.allowances, (owner, spender))
    }

    /// Conservation: the balances are finitely many and add up to the total
    /// supply.
    pub open spec fn conserved(self) -> bool {
        &&& self.balances.dom().finite()
        &&& sum_of(self.balances) == self.total_supply
    }

    /// The state right after construction by `caller` with `initial_supply`
    /// tokens: the caller holds them all, and one record tells of the issue.
    pub open spec fn genesis(caller: AccountId, initial_supply: Balance) -> LedgerState {
        LedgerState {
            total_supply: initial_supply,
            balances: Map::empty().insert(caller, initial_supply),
            allowances: Map::empty(),
            events: seq![Transfer { from: None, to: Some(caller), value: initial_supply }],
        }
    }

    /// The state after `value` tokens have gone from `from` to `to`: see
    /// [`moved`].
    pub open spec fn moved(self, from: AccountId, to: AccountId, value: Balance) -> LedgerState
        recommends
            value <= self.balance_of(from),
    {
        LedgerState { balances: moved(self.balances, from, to, value), ..self }
    }

    /// The state after the allowance of `spender` from `owner` has gone down
    /// by `value`.
    pub open spec fn spent(self, owner: AccountId, spender: AccountId, value: Balance) -> LedgerState
        recommends
            value <= self.allowance(owner, spender),
    {
        LedgerState {
            allowances: self.allowances.insert(
                (owner, spender),
                (self.allowance(owner, spender) - value) as Balance,
            ),
            ..self
        }
    }

    /// The state after `event` has been emitted.
    pub open spec fn emitted(self, event: Transfer) -> LedgerState {
        LedgerState { events: self.events.push(event), ..self }
    }

    /// Whether `call` finds what it asks for: the balance to move and, for a
    /// move on behalf of an owner, the allowance too.
    pub open spec fn accepts(self, call: Call) -> bool {
        match call {
            Call::Transfer { caller, recipient, amount } => amount <= self.balance_of(caller),
            Call::TransferFrom { caller, from, to, value } => {
                value <= self.allowance(from, caller) && value <= self.balance_of(from)
            },
            Call::TakeEvents => true,
        }
    }

    /// The state after `call`. A call that the state does not accept changes
    /// nothing.
    pub open spec fn after(self, call: Call) -> LedgerState {
        if !self.accepts(call) {
            self
        } else {
            match call {
                Call::Transfer { caller, recipient, amount } => {
                    self.moved(caller, recipient, amount)
                },
                Call::TransferFrom { caller, from, to, value } => {
                    self.moved(from, to, value).emitted(
                        Transfer { from: Some(from), to: Some(to), value },
                    ).spent(from, caller, value)
                },
                Call::TakeEvents => LedgerState { events: Seq::empty(), ..self },
            }
        }
    }

    /// The state after all of `calls`, the first of them first.
    pub open spec fn after_all(self, calls: Seq<Call>) -> LedgerState
        decreases calls.len(),
    {
        if calls.len() == 0 {
            self
        } else {
            self.after_all(calls.drop_last()).after(calls.last())
        }
    }
}

/// A fungible-token ledger.
///
/// The host that runs the ledger names the caller of each operation and
/// forwards the records that [`Erc20::take_events`] hands out to its event
/// log.
///
/// No operation has a precondition. That the balances add up to the total
/// supply holds of every ledger there is: it is the invariant of the type of
/// its balances, and each operation says so of the state it leaves.
pub struct Erc20 {
    balances: Balances,
    allowances: Store<(AccountId, AccountId)>,
    events: Vec<Transfer>,
}

impl View for Erc20 {
    type V = LedgerState;

    closed spec fn view(&self) -> LedgerState {
        LedgerState {
            total_supply: self.balances.spec_supply(),
            balances: self.balances@,
            allowances: self.allowances@,
            events: self.events@,
        }
    }
}

impl Erc20 {
    /// A ledger with `initial_supply` tokens, all held by `caller`.
    pub fn new(caller: AccountId, initial_supply: Balance) -> (ledger: Self)
        ensures
            ledger@ == LedgerState::genesis(caller, initial_supply),
            ledger@.conserved(),
    {
        let mut ledger = Erc20 {
            balances: Balances::empty(),
            allowances: Store::new(),
            events: Vec::new(),
        };
        ledger.new_init(caller, initial_supply);
        ledger
    }

    /// The ledger that a host has kept as a total supply and two lists of
    /// entries, or `None` where the lists cannot be a ledger: a key occurs
    /// twice in one of them, or the balances do not add up to the total
    /// supply. No record is pending in the ledger that comes back.
    pub fn restore(
        total_supply: Balance,
        balances: Vec<(AccountId, Balance)>,
        allowances: Vec<((AccountId, AccountId), Balance)>,
    ) -> (ledger: Option<Self>)
        ensures
            ledger.is_some() == (distinct_keys(balances@) && distinct_keys(allowances@)
                && sum_of(entries_map(balances@)) == total_supply),
            ledger matches Some(l) ==> l@.conserved() && l@ == (LedgerState {
                total_supply,
                balances: entries_map(balances@),
                allowances: entries_map(allowances@),
                events: Seq::empty(),
            }),
    {
        let balances = match Balances::from_entries(balances, total_supply) {
            Some(balances) => balances,
            None => {
                return None;
            },
        };
        let allowances = match Store::from_entries(allowances) {
            Some(store) => store,
            None => {
                return None;
            },
        };
        Some(Erc20 { balances, allowances, events: Vec::new() })
    }

    /// Issues `initial_supply` tokens to `caller`, in place of what the
    /// ledger held, and records the issue.
    fn new_init(&mut self, caller: AccountId, initial_supply: Balance)
        ensures
            final(self)@ == (LedgerState {
                total_supply: initial_supply,
                balances: Map::empty().insert(caller, initial_supply),
                ..old(self)@
            }).emitted(Transfer { from: None, to: Some(caller), value: initial_supply }),
            final(self)@.conserved(),
    {
        self.balances = Balances::issue(caller, initial_supply);
        self.events.push(Transfer { from: None, to: Some(caller), value: initial_supply });
    }

    /// The number of tokens issued at construction. No operation changes it.
    pub fn total_supply(&self) -> (supply: Balance)
        ensures
            supply == self@.total_supply,
            self@.conserved(),
    {
        self.balances.supply()
    }

    /// The balances, one entry for each account that has one.
    pub fn balances(&self) -> (entries: &Vec<(AccountId, Balance)>)
        ensures
            distinct_keys(entries@),
            entries_map(entries@) == self@.balances,
            self@.conserved(),
    {
        self.balances.entries()
    }

    /// The allowances, one entry for each (owner, spender) pair that has one.
    pub fn allowances(&self) -> (entries: &Vec<((AccountId, AccountId), Balance)>)
        ensures
            distinct_keys(entries@),
            entries_map(entries@) == self@.allowances,
    {
        self.allowances.entries()
    }

    /// The records emitted and not yet taken, oldest first.
    pub fn events(&self) -> (events: &Vec<Transfer>)
        ensures
            events@ == self@.events,
    {
        &self.events
    }

    /// Hands out the records emitted so far and forgets them.
    pub fn take_events(&mut self) -> (events: Vec<Transfer>)
        ensures
            events@ == old(self)@.events,
            final(self)@ == (LedgerState { events: Seq::empty(), ..old(self)@ }),
            final(self)@ == old(self)@.after(Call::TakeEvents),
            final(self)@.conserved(),
    {
        proof {
            use_type_invariant(&self.balances);
        }
        let mut events = Vec::new();
        std::mem::swap(&mut events, &mut self.events);
        events
    }

    /// The balance of `account`, zero where it never held tokens.
    pub fn balance_of(&self, account: AccountId) -> (balance: Balance)
        ensures
            balance == self@.balance_of(account),
            0 <= balance <= self@.total_supply,
            self@.conserved(),
    {
        proof {
            use_type_invariant(&self.balances);
            lemma_amounts_bounded(self@.balances, account, account);
        }
        match self.balances.get(&account) {
            Some(value) => value,
            None => 0,
        }
    }

    /// The allowance stored for the pair, or zero where the store has none.
    fn allowance_of_or_zero(&self, owner: &AccountId, spender: &AccountId) -> (allowance: Balance)
        ensures
            allowance == self@.allowance(*owner, *spender),
    {
        match self.allowances.get(&(*owner, *spender)) {
            Some(value) => value,
            None => 0,
        }
    }

    /// The balance stored for `owner`, or zero where the store has none.
    fn balance_of_or_zero(&self, owner: &AccountId) -> (balance: Balance)
        ensures
            balance == self@.balance_of(*owner),
    {
        match self.balances.get(owner) {
            Some(value) => value,
            None => 0,
        }
    }

    /// What `spender` may still move on behalf of `owner`.
    pub fn allowance(&self, owner: AccountId, spender: AccountId) -> (allowance: Balance)
        ensures
            allowance == self@.allowance(owner, spender),
    {
        self.allowance_of_or_zero(&owner, &spender)
    }

    /// Moves `amount` tokens from `caller` to `recipient`.
    ///
    /// Where `caller` holds fewer than `amount` tokens nothing changes and
    /// the result is `false`. No record is emitted either way.
    pub fn transfer(
        &mut self,
        caller: AccountId,
        recipient: AccountId,
        amount: Balance,
    ) -> (ok: bool)
        ensures
            ok == (amount <= old(self)@.balance_of(caller)),
            ok ==> final(self)@ == old(self)@.moved(caller, recipient, amount),
            !ok ==> final(self)@ == old(self)@,
            ok == old(self)@.accepts(Call::Transfer { caller, recipient, amount }),
            final(self)@ == old(self)@.after(Call::Transfer { caller, recipient, amount }),
            final(self)@.conserved(),
            final(self)@.total_supply == old(self)@.total_supply,
            ok && recipient == caller ==> final(self)@.balance_of(caller)
                == old(self)@.balance_of(caller),
            ok && recipient != caller ==> final(self)@.balance_of(caller)
                == old(self)@.balance_of(caller) - amount,
            ok && recipient != caller ==> final(self)@.balance_of(recipient)
                == old(self)@.balance_of(recipient) + amount,
    {
        proof {
            use_type_invariant(&self.balances);
            lemma_amounts_bounded(self@.balances, caller, recipient);
        }
        let sender_balance = self.balance_of(caller);
        if sender_balance < amount {
            return false;
        }
        self.balances.debit_credit(caller, recipient, amount);
        true
    }

    /// Moves `value` tokens from `from` to `to` on behalf of `from`, as far
    /// as the allowance that `from` gave to `caller` reaches.
    ///
    /// Where the allowance or the balance of `from` is below `value` nothing
    /// changes and the result is `false`. Otherwise the tokens move, one
    /// record tells of it, and the allowance goes down by `value`.
    pub fn transfer_from(
        &mut self,
        caller: AccountId,
        from: AccountId,
        to: AccountId,
        value: Balance,
    ) -> (ok: bool)
        ensures
            ok == (value <= old(self)@.allowance(from, caller)
                && value <= old(self)@.balance_of(from)),
            ok ==> final(self)@ == old(self)@.moved(from, to, value).emitted(
                Transfer { from: Some(from), to: Some(to), value },
            ).spent(from, caller, value),
            !ok ==> final(self)@ == old(self)@,
            ok == old(self)@.accepts(Call::TransferFrom { caller, from, to, value }),
            final(self)@ == old(self)@.after(Call::TransferFrom { caller, from, to, value }),
            final(self)@.conserved(),
            final(self)@.total_supply == old(self)@.total_supply,
            ok ==> final(self)@.allowance(from, caller)
                == old(self)@.allowance(from, caller) - value,
            ok && to == from ==> final(self)@.balance_of(from) == old(self)@.balance_of(from),
            ok && to != from ==> final(self)@.balance_of(from)
                == old(self)@.balance_of(from) - value,
            ok && to != from ==> final(self)@.balance_of(to)
                == old(self)@.balance_of(to) + value,
    {
        proof {
            use_type_invariant(&self.balances);
            lemma_amounts_bounded(self@.balances, from, to);
        }
        let allowance = self.allowance_of_or_zero(&from, &caller);
        if allowance < value {
            return false;
        }
        if !self.transfer_from_to(from, to, value) {
            return false;
        }
        self.allowances.insert((from, caller), allowance - value);
        true
    }

    /// Moves `value` tokens from `from` to `to` and records the move, where
    /// `from` holds that many.
    fn transfer_from_to(&mut self, from: AccountId, to: AccountId, value: Balance) -> (ok: bool)
        ensures
            ok == (value <= old(self)@.balance_of(from)),
            ok ==> final(self)@ == old(self)@.moved(from, to, value).emitted(
                Transfer { from: Some(from), to: Some(to), value },
            ),
            !ok ==> final(self)@ == old(self)@,
            final(self)@.conserved(),
    {
        proof {
            use_type_invariant(&self.balances);
        }
        let from_balance = self.balance_of_or_zero(&from);
        if from_balance < value {
            return false;
        }
        self.balances.debit_credit(from, to, value);
        self.events.push(Transfer { from: Some(from), to: Some(to), value });
        true
    }
}

} // verus!
