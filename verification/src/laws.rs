//! What holds of every ledger, and of each step that its operations are made
//! of.
//!
//! The laws on states speak of states in which the balances add up to the
//! total supply; every ledger is in such a state.

use vstd::prelude::*;
use crate::account::{AccountId, Balance};
use crate::balances::{lemma_amounts_bounded, lemma_moved_keeps_sum};
use crate::events::Transfer;
use crate::ledger::{Call, Erc20, LedgerState};
use crate::store::entries_map;
use crate::sum::{lemma_sum_of_empty, lemma_sum_of_insert, sum_of};

verus! {

/// Construction gives a state in which the balances add up to the total
/// supply: the caller holds all of it, every other balance and every
/// allowance is zero, and the one record tells of the issue.
pub proof fn lemma_genesis(
    caller: AccountId,
    initial_supply: Balance,
    other: AccountId,
    spender: AccountId,
)
    ensures
        LedgerState::genesis(caller, initial_supply).conserved(),
        LedgerState::genesis(caller, initial_supply).total_supply == initial_supply,
        LedgerState::genesis(caller, initial_supply).balance_of(caller) == initial_supply,
        other != caller ==> LedgerState::genesis(caller, initial_supply).balance_of(other) == 0,
        LedgerState::genesis(caller, initial_supply).allowance(other, spender) == 0,
        LedgerState::genesis(caller, initial_supply).events == seq![
            Transfer { from: None, to: Some(caller), value: initial_supply },
        ],
{
    lemma_sum_of_empty::<AccountId>();
    lemma_sum_of_insert(Map::<AccountId, Balance>::empty(), caller, initial_supply);
}

/// Where the balances add up to the total supply, no balance is above it,
/// and two accounts together hold no more than it.
pub proof fn lemma_balances_bounded(s: LedgerState, a: AccountId, b: AccountId)
    requires
        s.conserved(),
    ensures
        0 <= s.balance_of(a) <= s.total_supply,
        a != b ==> s.balance_of(a) + s.balance_of(b) <= s.total_supply,
{
    lemma_amounts_bounded(s.balances, a, b);
}

/// Conservation under a move: after tokens that the sender holds have moved,
/// the balances still add up to the total supply, which is what it was.
pub proof fn lemma_move_conserves(s: LedgerState, from: AccountId, to: AccountId, value: Balance)
    requires
        s.conserved(),
        value <= s.balance_of(from),
    ensures
        s.moved(from, to, value).conserved(),
        s.moved(from, to, value).total_supply == s.total_supply,
        s.moved(from, to, value).allowances == s.allowances,
        s.moved(from, to, value).events == s.events,
{
    lemma_moved_keeps_sum(s.balances, from, to, value);
}

/// What a move does to each balance: the sender has `value` less and the
/// recipient `value` more, unless they are one account, whose balance then
/// stays; every other balance stays.
pub proof fn lemma_move_balances(
    s: LedgerState,
    from: AccountId,
    to: AccountId,
    value: Balance,
    other: AccountId,
)
    requires
        s.conserved(),
        value <= s.balance_of(from),
    ensures
        from != to ==> s.moved(from, to, value).balance_of(from) == s.balance_of(from) - value,
        from != to ==> s.moved(from, to, value).balance_of(to) == s.balance_of(to) + value,
        from == to ==> s.moved(from, to, value).balance_of(from) == s.balance_of(from),
        other != from && other != to ==> s.moved(from, to, value).balance_of(other)
            == s.balance_of(other),
{
    lemma_balances_bounded(s, from, to);
}

/// Spending from an allowance that covers `value` lowers that allowance by
/// exactly `value` and touches nothing else.
pub proof fn lemma_spend(
    s: LedgerState,
    owner: AccountId,
    spender: AccountId,
    value: Balance,
    other_owner: AccountId,
    other_spender: AccountId,
)
    requires
        value <= s.allowance(owner, spender),
    ensures
        s.spent(owner, spender, value).allowance(owner, spender) == s.allowance(owner, spender)
            - value,
        (other_owner, other_spender) != (owner, spender) ==> s.spent(
            owner,
            spender,
            value,
        ).allowance(other_owner, other_spender) == s.allowance(other_owner, other_spender),
        s.spent(owner, spender, value).balances == s.balances,
        s.spent(owner, spender, value).total_supply == s.total_supply,
        s.spent(owner, spender, value).events == s.events,
        s.conserved() ==> s.spent(owner, spender, value).conserved(),
{
}

/// Emitting a record appends it to the log and touches nothing else.
pub proof fn lemma_emit(s: LedgerState, event: Transfer)
    ensures
        s.emitted(event).events == s.events.push(event),
        s.emitted(event).balances == s.balances,
        s.emitted(event).allowances == s.allowances,
        s.emitted(event).total_supply == s.total_supply,
        s.conserved() ==> s.emitted(event).conserved(),
{
}

/// Conservation under a call: whether the state accepts the call or not,
/// the balances add up to the total supply afterwards as they did before,
/// and the total supply is what it was.
pub proof fn lemma_call_conserves(s: LedgerState, call: Call)
    requires
        s.conserved(),
    ensures
        s.after(call).conserved(),
        s.after(call).total_supply == s.total_supply,
{
    if s.accepts(call) {
        match call {
            Call::Transfer { caller, recipient, amount } => {
                lemma_move_conserves(s, caller, recipient, amount);
            },
            Call::TransferFrom { caller, from, to, value } => {
                lemma_move_conserves(s, from, to, value);
            },
            Call::TakeEvents => {},
        }
    }
}

/// Conservation under any calls: whatever calls follow one another, the
/// balances go on adding up to the total supply, which stays what it was.
pub proof fn lemma_calls_conserve(s: LedgerState, calls: Seq<Call>)
    requires
        s.conserved(),
    ensures
        s.after_all(calls).conserved(),
        s.after_all(calls).total_supply == s.total_supply,
    decreases calls.len(),
{
    if calls.len() > 0 {
        lemma_calls_conserve(s, calls.drop_last());
        lemma_call_conserves(s.after_all(calls.drop_last()), calls.last());
    }
}

/// Conservation in every state that can be reached: after construction and
/// any calls whatever, the balances add up to the total supply, which is the
/// initial supply.
pub proof fn lemma_reachable_states_conserve(
    caller: AccountId,
    initial_supply: Balance,
    calls: Seq<Call>,
)
    ensures
        LedgerState::genesis(caller, initial_supply).after_all(calls).conserved(),
        LedgerState::genesis(caller, initial_supply).after_all(calls).total_supply
            == initial_supply,
{
    lemma_genesis(caller, initial_supply, caller, caller);
    lemma_calls_conserve(LedgerState::genesis(caller, initial_supply), calls);
}

/// Conservation, of every ledger there is: the balances that a ledger hands
/// out add up to the total supply that it reports.
pub proof fn lemma_conservation(
    ledger: Erc20,
    supply: Balance,
    balances: Vec<(AccountId, Balance)>,
)
    requires
        call_ensures(Erc20::total_supply, (&ledger,), supply),
        call_ensures(Erc20::balances, (&ledger,), &balances),
    ensures
        sum_of(entries_map(balances@)) == supply,
        ledger@.conserved(),
{
}

/// Asking again gives the same answer: whatever two calls of a query return
/// on one ledger, with nothing done to it in between, is equal.
pub proof fn lemma_queries_repeat(
    ledger: Erc20,
    account: AccountId,
    spender: AccountId,
    first_supply: Balance,
    second_supply: Balance,
    first_balance: Balance,
    second_balance: Balance,
    first_allowance: Balance,
    second_allowance: Balance,
)
    requires
        call_ensures(Erc20::total_supply, (&ledger,), first_supply),
        call_ensures(Erc20::total_supply, (&ledger,), second_supply),
        call_ensures(Erc20::balance_of, (&ledger, account), first_balance),
        call_ensures(Erc20::balance_of, (&ledger, account), second_balance),
        call_ensures(Erc20::allowance, (&ledger, account, spender), first_allowance),
        call_ensures(Erc20::allowance, (&ledger, account, spender), second_allowance),
    ensures
        first_supply == second_supply,
        first_balance == second_balance,
        first_allowance == second_allowance,
{
}

/// What a host keeps of a ledger is a ledger again: `restore` accepts the
/// total supply and the entries that the ledger hands out, and gives back
/// the same state with no record pending.
pub proof fn lemma_restore_gives_back(
    ledger: Erc20,
    supply: Balance,
    balances: Vec<(AccountId, Balance)>,
    allowances: Vec<((AccountId, AccountId), Balance)>,
    restored: Option<Erc20>,
)
    requires
        call_ensures(Erc20::total_supply, (&ledger,), supply),
        call_ensures(Erc20::balances, (&ledger,), &balances),
        call_ensures(Erc20::allowances, (&ledger,), &allowances),
        call_ensures(Erc20::restore, (supply, balances, allowances), restored),
    ensures
        restored matches Some(l) && l@ == (LedgerState { events: Seq::empty(), ..ledger@ }),
{
}

} // verus!
