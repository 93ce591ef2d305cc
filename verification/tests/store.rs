use erc20::{AccountId, Balance, Key, Store};

fn id(tag: u8) -> AccountId {
    AccountId([tag; 32])
}

#[test]
fn a_new_store_holds_nothing() {
    let store: Store<AccountId> = Store::new();
    assert_eq!(store.get(&id(1)), None);
    assert!(store.entries().is_empty());
    assert_eq!(store.total(), Some(0));
}

#[test]
fn get_tells_an_absent_key_from_a_zero_amount() {
    let mut store: Store<AccountId> = Store::new();
    store.insert(id(1), 0);
    assert_eq!(store.get(&id(1)), Some(0));
    assert_eq!(store.get(&id(2)), None);
}

#[test]
fn insert_replaces_the_amount_under_a_key() {
    let mut store: Store<AccountId> = Store::new();
    store.insert(id(1), 10);
    store.insert(id(2), 20);
    store.insert(id(1), 11);
    assert_eq!(store.get(&id(1)), Some(11));
    assert_eq!(store.get(&id(2)), Some(20));
    assert_eq!(store.entries().len(), 2);
    assert!(store.entries().contains(&(id(1), 11)));
    assert!(store.entries().contains(&(id(2), 20)));
    assert_eq!(store.total(), Some(31));
}

#[test]
fn pairs_are_keys_in_the_order_given() {
    let mut store: Store<(AccountId, AccountId)> = Store::new();
    store.insert((id(1), id(2)), 5);
    assert_eq!(store.get(&(id(1), id(2))), Some(5));
    assert_eq!(store.get(&(id(2), id(1))), None);
    assert_eq!(store.get(&(id(1), id(1))), None);
}

#[test]
fn from_entries_keeps_entries_with_distinct_keys() {
    let store = Store::from_entries(vec![(id(3), 1), (id(1), 2), (id(2), 3)]).unwrap();
    assert_eq!(store.get(&id(1)), Some(2));
    assert_eq!(store.get(&id(2)), Some(3));
    assert_eq!(store.get(&id(3)), Some(1));
    assert_eq!(store.get(&id(4)), None);
    assert_eq!(store.entries().len(), 3);
    assert!(store.entries().contains(&(id(1), 2)));
    assert!(store.entries().contains(&(id(2), 3)));
    assert!(store.entries().contains(&(id(3), 1)));
}

#[test]
fn from_entries_refuses_a_key_that_occurs_twice() {
    assert!(Store::from_entries(vec![(id(1), 1), (id(1), 1)]).is_none());
    assert!(Store::from_entries(vec![(id(1), 1), (id(2), 2), (id(3), 3), (id(2), 4)]).is_none());
    assert!(Store::<AccountId>::from_entries(vec![]).is_some());
    assert!(Store::from_entries(vec![(id(1), 1)]).is_some());
}

#[test]
fn total_adds_up_all_amounts() {
    let store = Store::from_entries(vec![(id(1), 1), (id(2), 20), (id(3), 300)]).unwrap();
    assert_eq!(store.total(), Some(321));
}

#[test]
fn total_is_none_where_the_sum_does_not_fit() {
    let store =
        Store::from_entries(vec![(id(1), Balance::MAX), (id(2), 0), (id(3), 1)]).unwrap();
    assert_eq!(store.total(), None);
    let store = Store::from_entries(vec![(id(1), Balance::MAX - 1), (id(2), 1)]).unwrap();
    assert_eq!(store.total(), Some(Balance::MAX));
}

#[test]
fn same_compares_account_identifiers_by_their_bytes() {
    let mut bytes = [7u8; 32];
    let a = AccountId(bytes);
    let b = AccountId(bytes);
    bytes[0] = 8;
    let c = AccountId(bytes);
    bytes[0] = 7;
    bytes[31] = 8;
    let d = AccountId(bytes);
    assert!(a.same(&b));
    assert!(!a.same(&c));
    assert!(!a.same(&d));
    assert!(a == b);
    assert!(a != c);
    assert!(a != d);
}

#[test]
fn same_compares_pairs_by_both_parts() {
    let a = id(1);
    let b = id(2);
    assert!((a, b).same(&(a, b)));
    assert!(!(a, b).same(&(b, a)));
    assert!(!(a, b).same(&(a, a)));
    assert!(!(a, b).same(&(b, b)));
}
