//! The balances of a ledger: who holds how many tokens of a supply that is
//! fixed when the tokens are issued.
//!
//! That the balances add up to the supply is an invariant of the type: no
//! value of it exists in which they do not.

use vstd::prelude::*;
use crate::account::{AccountId, Balance};
use crate::store::{amount_or_zero, distinct_keys, entries_map, Store};
use crate::sum::{lemma_sum_of_bounds, lemma_sum_of_empty, lemma_sum_of_insert, sum_of};

verus! {

/// The balances after `value` tokens have gone from `from` to `to`.
///
/// Both accounts have an entry afterwards. Where they are one account its
/// balance is what it was.
pub open spec fn moved(
    balances: Map<AccountId, Balance>,
    from: AccountId,
    to: AccountId,
    value: Balance,
) -> Map<AccountId, Balance>
    recommends
        value <= amount_or_zero(balances, from),
{
    if from == to {
        balances.insert(from, amount_or_zero(balances, from))
    } else {
        balances.insert(from, (amount_or_zero(balances, from) - value) as Balance).insert(
            to,
            (amount_or_zero(balances, to) + value) as Balance,
        )
    }
}

/// No amount of a finite map is above the sum of its amounts, and two of
/// them together are not either.
pub proof fn lemma_amounts_bounded(
    balances: Map<AccountId, Balance>,
    a: AccountId,
    b: AccountId,
)
    requires
        balances.dom().finite(),
    ensures
        amount_or_zero(balances, a) <= sum_of(balances),
        a != b ==> amount_or_zero(balances, a) + amount_or_zero(balances, b) <= sum_of(balances),
{
    if balances.contains_key(a) {
        lemma_sum_of_bounds(balances, a, b);
    }
    if balances.contains_key(b) {
        lemma_sum_of_bounds(balances, b, a);
    }
}

/// Moving tokens that the sender holds leaves the sum of the balances as it
/// was.
pub proof fn lemma_moved_keeps_sum(
    balances: Map<AccountId, Balance>,
    from: AccountId,
    to: AccountId,
    value: Balance,
)
    requires
        balances.dom().finite(),
        sum_of(balances) <= Balance::MAX,
        value <= amount_or_zero(balances, from),
    ensures
        moved(balances, from, to, value).dom().finite(),
        sum_of(moved(balances, from, to, value)) == sum_of(balances),
{
    if from == to {
        lemma_sum_of_insert(balances, from, amount_or_zero(balances, from));
    } else {
        lemma_amounts_bounded(balances, from, to);
        let debited = balances.insert(from, (amount_or_zero(balances, from) - value) as Balance);
        lemma_sum_of_insert(balances, from, (amount_or_zero(balances, from) - value) as Balance);
        lemma_sum_of_insert(debited, to, (amount_or_zero(balances, to) + value) as Balance);
    }
}

/// The balances of the accounts of a ledger, with the supply that they add
/// up to.
pub struct Balances {
    entries: Store<AccountId>,
    supply: Balance,
}

impl View for Balances {
    type V = Map<AccountId, Balance>;

    closed spec fn view(&self) -> Map<AccountId, Balance> {
        self.entries@
    }
}

impl Balances {
    /// The supply that the balances add up to.
    pub closed spec fn spec_supply(&self) -> Balance {
        self.supply
    }

    /// Conservation: the balances are finitely many and add up to the supply.
    #[verifier::type_invariant]
    pub open spec fn conserved(&self) -> bool {
        &&& self@.dom().finite()
        &&& sum_of(self@) == self.spec_supply()
    }

    /// No balances and no supply.
    pub fn empty() -> (balances: Self)
        ensures
            balances@ == Map::<AccountId, Balance>::empty(),
            balances.spec_supply() == 0,
            balances.conserved(),
    {
        proof {
            lemma_sum_of_empty::<AccountId>();
        }
        Balances { entries: Store::new(), supply: 0 }
    }

    /// A supply of `supply` tokens, all of them held by `holder`.
    pub fn issue(holder: AccountId, supply: Balance) -> (balances: Self)
        ensures
            balances@ == Map::<AccountId, Balance>::empty().insert(holder, supply),
            balances.spec_supply() == supply,
            balances.conserved(),
    {
        let mut entries = Store::new();
        entries.insert(holder, supply);
        proof {
            lemma_sum_of_empty::<AccountId>();
            lemma_sum_of_insert(Map::<AccountId, Balance>::empty(), holder, supply);
        }
        Balances { entries, supply }
    }

    /// The balances that `entries` lists, or `None` where they are no
    /// balances of `supply` tokens: an account occurs twice, or the amounts do
    /// not add up to `supply`.
    pub fn from_entries(
        entries: Vec<(AccountId, Balance)>,
        supply: Balance,
    ) -> (balances: Option<Self>)
        ensures
            balances.is_some() == (distinct_keys(entries@) && sum_of(entries_map(entries@))
                == supply),
            balances matches Some(b) ==> b@ == entries_map(entries@) && b.spec_supply() == supply
                && b.conserved(),
    {
        let entries = match Store::from_entries(entries) {
            Some(store) => store,
            None => {
                return None;
            },
        };
        match entries.total() {
            Some(total) => {
                if total != supply {
                    return None;
                }
            },
            None => {
                return None;
            },
        }
        Some(Balances { entries, supply })
    }

    /// The supply that the balances add up to.
    pub fn supply(&self) -> (supply: Balance)
        ensures
            supply == self.spec_supply(),
            self.conserved(),
    {
        proof {
            use_type_invariant(self);
        }
        self.supply
    }

    /// The balance stored for `account`, or `None` where it has no entry.
    pub fn get(&self, account: &AccountId) -> (balance: Option<Balance>)
        ensures
            balance == (if self@.contains_key(*account) {
                Some(self@[*account])
            } else {
                None
            }),
            self.conserved(),
    {
        proof {
            use_type_invariant(self);
        }
        self.entries.get(account)
    }

    /// The balances, one entry for each account that has one.
    pub fn entries(&self) -> (entries: &Vec<(AccountId, Balance)>)
        ensures
            distinct_keys(entries@),
            entries_map(entries@) == self@,
            self.conserved(),
    {
        proof {
            use_type_invariant(self);
        }
        self.entries.entries()
    }

    /// Takes `value` tokens off the balance of `from`, then adds them to the
    /// balance that `to` has at that moment.
    ///
    /// The credit cannot overflow: two accounts hold no more than the supply
    /// between them. Between the debit and the credit the balances do not
    /// add up to the supply, so both are made on the entries taken out of
    /// `self`, which are put back when they add up again.
    pub(crate) fn debit_credit(&mut self, from: AccountId, to: AccountId, value: Balance)
        requires
            value <= amount_or_zero(old(self)@, from),
        ensures
            final(self)@ == moved(old(self)@, from, to, value),
            final(self).spec_supply() == old(self).spec_supply(),
            final(self).conserved(),
    {
        proof {
            use_type_invariant(&*self);
            lemma_amounts_bounded(self@, from, to);
            lemma_moved_keeps_sum(self@, from, to, value);
        }
        let mut taken = Balances::empty();
        std::mem::swap(self, &mut taken);
        let Balances { mut entries, supply } = taken;
        let from_balance = match entries.get(&from) {
            Some(balance) => balance,
            None => 0,
        };
        entries.insert(from, from_balance - value);
        let to_balance = match entries.get(&to) {
            Some(balance) => balance,
            None => 0,
        };
        entries.insert(to, to_balance + value);
        assert(entries@ =~= moved(old(self)@, from, to, value));
        *self = Balances { entries, supply };
    }
}

} // verus!
