use erc20::{AccountId, Approval, Transfer};

#[test]
fn a_transfer_record_names_both_ends_and_the_value() {
    let a = AccountId([1; 32]);
    let b = AccountId([2; 32]);
    let record = Transfer { from: Some(a), to: Some(b), value: 9 };
    assert_eq!(record.from, Some(a));
    assert_eq!(record.to, Some(b));
    assert_eq!(record.value, 9);
    assert_ne!(record, Transfer { from: None, to: Some(b), value: 9 });
}

#[test]
fn an_approval_record_names_owner_spender_and_value() {
    let a = AccountId([1; 32]);
    let b = AccountId([2; 32]);
    let record = Approval { owner: a, spender: b, value: 9 };
    assert_eq!(record.owner, a);
    assert_eq!(record.spender, b);
    assert_eq!(record.value, 9);
    assert_eq!(record, Approval { owner: a, spender: b, value: 9 });
}
