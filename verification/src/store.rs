//! A key-value store of token amounts.
//!
//! The store keeps a list of entries and never holds a key twice. Its view is
//! the finite map from the keys present to their amounts; a key that is
//! absent is reported as absent, not as zero.

use vstd::prelude::*;
use crate::account::Balance;
use crate::sum::{lemma_sum_of_empty, lemma_sum_of_insert, sum_of};

verus! {

/// A key of a [`Store`]: a value that can be told apart from another one of
/// its type.
pub trait Key: Sized {
    /// Whether `self` and `other` are the same key.
    fn same(&self, other: &Self) -> (r: bool)
        ensures
            r == (*self == *other),
    ;
}

/// No key occurs at two positions of `s`.
pub open spec fn distinct_keys<K>(s: Seq<(K, Balance)>) -> bool {
    forall|i: int, j: int| 0 <= i < j < s.len() ==> (#[trigger] s[i]).0 != (#[trigger] s[j]).0
}

/// Some entry of `s` has the key `k`.
pub open spec fn has_key<K>(s: Seq<(K, Balance)>, k: K) -> bool {
    exists|i: int| 0 <= i < s.len() && (#[trigger] s[i]).0 == k
}

/// A position of `s` at which the key `k` stands, where there is one.
pub open spec fn position_of<K>(s: Seq<(K, Balance)>, k: K) -> int {
    choose|i: int| 0 <= i < s.len() && (#[trigger] s[i]).0 == k
}

/// The map that a sequence of entries with distinct keys stands for.
pub open spec fn entries_map<K>(s: Seq<(K, Balance)>) -> Map<K, Balance> {
    Map::new(|k: K| has_key(s, k), |k: K| s[position_of(s, k)].1)
}

/// The amount that `m` holds under `k`, or zero where `k` is absent.
pub open spec fn amount_or_zero<K>(m: Map<K, Balance>, k: K) -> Balance {
    if m.contains_key(k) {
        m[k]
    } else {
        0
    }
}

/// Each entry of a sequence with distinct keys is found in its map.
pub proof fn lemma_entry_in_map<K>(s: Seq<(K, Balance)>, i: int)
    requires
        distinct_keys(s),
        0 <= i < s.len(),
    ensures
        entries_map(s).contains_key(s[i].0),
        entries_map(s)[s[i].0] == s[i].1,
{
    assert(position_of(s, s[i].0) == i);
}

/// Appending an entry under a new key inserts it into the map.
pub proof fn lemma_map_of_push<K>(s: Seq<(K, Balance)>, k: K, v: Balance)
    requires
        distinct_keys(s),
        !has_key(s, k),
    ensures
        distinct_keys(s.push((k, v))),
        entries_map(s.push((k, v))) == entries_map(s).insert(k, v),
{
    let t = s.push((k, v));
    assert(distinct_keys(t));
    assert forall|x: K| has_key(t, x) <==> (x == k || has_key(s, x)) by {
        if x == k {
            assert(t[s.len() as int].0 == k);
        }
        if has_key(s, x) {
            assert(t[position_of(s, x)].0 == x);
        }
    }
    assert forall|x: K| has_key(t, x) implies #[trigger] entries_map(t)[x]
        == entries_map(s).insert(k, v)[x] by {
        let i = position_of(t, x);
        lemma_entry_in_map(t, i);
        if i < s.len() {
            lemma_entry_in_map(s, i);
        }
    }
}

/// Replacing the amount of an entry inserts the new amount into the map.
pub proof fn lemma_map_of_update<K>(s: Seq<(K, Balance)>, i: int, v: Balance)
    requires
        distinct_keys(s),
        0 <= i < s.len(),
    ensures
        distinct_keys(s.update(i, (s[i].0, v))),
        entries_map(s.update(i, (s[i].0, v))) == entries_map(s).insert(s[i].0, v),
{
    let k = s[i].0;
    let t = s.update(i, (k, v));
    assert(distinct_keys(t));
    assert forall|x: K| has_key(t, x) <==> has_key(s, x) by {
        if has_key(s, x) {
            assert(t[position_of(s, x)].0 == x);
        }
    }
    assert forall|x: K| has_key(t, x) implies #[trigger] entries_map(t)[x]
        == entries_map(s).insert(k, v)[x] by {
        let j = position_of(t, x);
        lemma_entry_in_map(t, j);
        lemma_entry_in_map(s, j);
    }
}

/// The map of a sequence of entries with distinct keys has as many keys as
/// the sequence has entries.
pub proof fn lemma_map_is_finite<K>(s: Seq<(K, Balance)>)
    requires
        distinct_keys(s),
    ensures
        entries_map(s).dom().finite(),
        entries_map(s).dom().len() == s.len(),
    decreases s.len(),
{
    if s.len() == 0 {
        assert(entries_map(s) =~= Map::<K, Balance>::empty());
    } else {
        lemma_map_of_take(s, s.len() - 1);
        lemma_map_is_finite(s.take(s.len() - 1));
        assert(s.take(s.len() as int) =~= s);
    }
}

/// A prefix of a sequence with distinct keys has distinct keys, and one entry
/// more puts that entry into its map.
pub proof fn lemma_map_of_take<K>(s: Seq<(K, Balance)>, n: int)
    requires
        distinct_keys(s),
        0 <= n <= s.len(),
    ensures
        distinct_keys(s.take(n)),
        n < s.len() ==> !has_key(s.take(n), s[n].0),
        n < s.len() ==> entries_map(s.take(n + 1)) == entries_map(s.take(n)).insert(
            s[n].0,
            s[n].1,
        ),
{
    let t = s.take(n);
    assert(distinct_keys(t));
    if n < s.len() {
        lemma_map_of_push(t, s[n].0, s[n].1);
        assert(t.push((s[n].0, s[n].1)) =~= s.take(n + 1));
    }
}

/// The amounts of a prefix add up to no more than the amounts of the whole.
pub proof fn lemma_sum_of_take<K>(s: Seq<(K, Balance)>, n: int)
    requires
        distinct_keys(s),
        0 <= n <= s.len(),
    ensures
        sum_of(entries_map(s.take(n))) <= sum_of(entries_map(s)),
    decreases s.len() - n,
{
    if n < s.len() {
        lemma_map_of_take(s, n);
        lemma_map_is_finite(s.take(n));
        lemma_sum_of_insert(entries_map(s.take(n)), s[n].0, s[n].1);
        lemma_sum_of_take(s, n + 1);
    } else {
        assert(s.take(n) =~= s);
    }
}

/// A finite map from keys to token amounts, kept as a list of entries.
pub struct Store<K> {
    entries: Vec<(K, Balance)>,
}

impl<K: Key> View for Store<K> {
    type V = Map<K, Balance>;

    closed spec fn view(&self) -> Map<K, Balance> {
        entries_map(self.entries@)
    }
}

impl<K> Store<K> {
    #[verifier::type_invariant]
    spec fn inv(&self) -> bool {
        distinct_keys(self.entries@)
    }
}

impl<K: Key> Store<K> {
    /// An empty store.
    pub fn new() -> (s: Self)
        ensures
            s@ == Map::<K, Balance>::empty(),
    {
        Store { entries: Vec::new() }
    }

    /// The store that holds `entries`, or `None` where a key occurs twice
    /// among them.
    pub fn from_entries(entries: Vec<(K, Balance)>) -> (store: Option<Self>)
        ensures
            store.is_some() == distinct_keys(entries@),
            store matches Some(s) ==> s@ == entries_map(entries@) && s@.dom().finite(),
    {
        let mut i: usize = 0;
        while i < entries.len()
            invariant
                i <= entries@.len(),
                forall|a: int, b: int|
                    0 <= a < b < i ==> (#[trigger] entries@[a]).0 != (#[trigger] entries@[b]).0,
            decreases entries@.len() - i,
        {
            let mut j: usize = 0;
            while j < i
                invariant
                    j <= i < entries@.len(),
                    forall|a: int| 0 <= a < j ==> (#[trigger] entries@[a]).0 != entries@[i as int].0,
                decreases i - j,
            {
                if entries[j].0.same(&entries[i].0) {
                    return None;
                }
                j += 1;
            }
            i += 1;
        }
        proof {
            lemma_map_is_finite(entries@);
        }
        Some(Store { entries })
    }

    /// The entries of the store, each key once.
    pub fn entries(&self) -> (entries: &Vec<(K, Balance)>)
        ensures
            distinct_keys(entries@),
            entries_map(entries@) == self@,
    {
        proof {
            use_type_invariant(self);
        }
        &self.entries
    }

    /// The sum of all amounts in the store, or `None` where it is more than
    /// a `Balance` can hold.
    pub fn total(&self) -> (total: Option<Balance>)
        ensures
            match total {
                Some(t) => t == sum_of(self@),
                None => sum_of(self@) > Balance::MAX,
            },
    {
        proof {
            use_type_invariant(self);
        }
        let mut acc: Balance = 0;
        let mut i: usize = 0;
        proof {
            assert(entries_map(self.entries@.take(0)) =~= Map::<K, Balance>::empty());
            lemma_sum_of_empty::<K>();
        }
        while i < self.entries.len()
            invariant
                i <= self.entries@.len(),
                distinct_keys(self.entries@),
                acc == sum_of(entries_map(self.entries@.take(i as int))),
            decreases self.entries@.len() - i,
        {
            proof {
                lemma_map_of_take(self.entries@, i as int);
                lemma_map_is_finite(self.entries@.take(i as int));
                lemma_sum_of_insert(
                    entries_map(self.entries@.take(i as int)),
                    self.entries@[i as int].0,
                    self.entries@[i as int].1,
                );
            }
            match acc.checked_add(self.entries[i].1) {
                Some(sum) => {
                    acc = sum;
                },
                None => {
                    proof {
                        lemma_sum_of_take(self.entries@, i + 1);
                    }
                    return None;
                },
            }
            i += 1;
        }
        assert(self.entries@.take(i as int) =~= self.entries@);
        Some(acc)
    }

    /// The position of `key` among the entries, if it is present.
    fn find(&self, key: &K) -> (r: Option<usize>)
        ensures
            match r {
                Some(i) => i < self.entries@.len() && self.entries@[i as int].0 == *key,
                None => !has_key(self.entries@, *key),
            },
    {
        let mut i: usize = 0;
        while i < self.entries.len()
            invariant
                i <= self.entries@.len(),
                forall|j: int| 0 <= j < i ==> (#[trigger] self.entries@[j]).0 != *key,
            decreases self.entries@.len() - i,
        {
            if self.entries[i].0.same(key) {
                return Some(i);
            }
            i += 1;
        }
        None
    }

    /// The amount stored under `key`, or `None` where the key is absent.
    pub fn get(&self, key: &K) -> (r: Option<Balance>)
        ensures
            r == (if self@.contains_key(*key) {
                Some(self@[*key])
            } else {
                None
            }),
    {
        proof {
            use_type_invariant(self);
        }
        match self.find(key) {
            Some(i) => {
                proof {
                    lemma_entry_in_map(self.entries@, i as int);
                }
                Some(self.entries[i].1)
            },
            None => None,
        }
    }

    /// Stores `value` under `key`, replacing the amount that was there.
    pub fn insert(&mut self, key: K, value: Balance)
        ensures
            final(self)@ == old(self)@.insert(key, value),
    {
        proof {
            use_type_invariant(&*self);
        }
        let found = self.find(&key);
        let mut entries = Vec::new();
        std::mem::swap(&mut entries, &mut self.entries);
        match found {
            Some(i) => {
                proof {
                    lemma_map_of_update(entries@, i as int, value);
                }
                entries[i] = (key, value);
            },
            None => {
                proof {
                    lemma_map_of_push(entries@, key, value);
                }
                entries.push((key, value));
            },
        }
        self.entries = entries;
    }
}

} // verus!
