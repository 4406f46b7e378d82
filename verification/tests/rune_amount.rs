use rune_indexer::rune_amount::RuneAmount;
use rune_indexer::rune_id::RuneId;
use std::cmp::Ordering;

#[test]
fn test_rune_amount_from_tuple() {
    let rune_id = RuneId::new(840000, 1);
    let amount = 1000000000000000000u128;
    let tuple = (rune_id, amount);

    let rune_amount: RuneAmount = tuple.into();
    assert_eq!(rune_amount.rune_id, rune_id);
    assert_eq!(rune_amount.amount, amount);
}

#[test]
fn rune_amount_order_is_partial() {
    let a = RuneAmount { rune_id: RuneId::new(1, 1), amount: 5 };
    let b = RuneAmount { rune_id: RuneId::new(1, 1), amount: 7 };
    let c = RuneAmount { rune_id: RuneId::new(1, 2), amount: 7 };
    assert_eq!(a.partial_cmp(&b), Some(Ordering::Less));
    assert_eq!(b.partial_cmp(&a), Some(Ordering::Greater));
    assert_eq!(a.partial_cmp(&a), Some(Ordering::Equal));
    assert_eq!(b.partial_cmp(&c), None);
    assert!(a < b);
    assert!(!(b < c) && !(c < b));
    assert!(a == RuneId::new(1, 1));
    assert!(!(a == RuneId::new(1, 2)));
    assert!(a != b);
    assert!(a == a);
}
