use rune_indexer::artifact::Transaction;
use rune_indexer::ids::{OutPoint, SerializedTxid};
use rune_indexer::mempool::sort_transaction_order;
use rune_indexer::updater::IndexedTransaction;

fn id(n: u128) -> SerializedTxid {
    SerializedTxid { hi: 0, lo: n }
}

fn spending(txid: u128, parents: &[u128]) -> IndexedTransaction {
    IndexedTransaction {
        txid: id(txid),
        transaction: Transaction {
            inputs: parents.iter().map(|p| OutPoint::new(id(*p), 0)).collect(),
            outputs: Vec::new(),
        },
        commitment: false,
        icon: None,
    }
}

fn ids(txs: &[IndexedTransaction]) -> Vec<u128> {
    txs.iter().map(|tx| tx.txid.lo).collect()
}

#[test]
fn child_given_first_comes_after_its_parent() {
    let (sorted, knotted) = sort_transaction_order(vec![spending(2, &[1]), spending(1, &[9])]);
    assert_eq!(ids(&sorted), vec![1, 2]);
    assert!(knotted.is_empty());
}

#[test]
fn chain_of_three_is_put_in_order() {
    let (sorted, knotted) =
        sort_transaction_order(vec![spending(3, &[2]), spending(2, &[1]), spending(1, &[])]);
    assert_eq!(ids(&sorted), vec![1, 2, 3]);
    assert!(knotted.is_empty());
}

#[test]
fn unrelated_transactions_keep_their_order() {
    let (sorted, knotted) =
        sort_transaction_order(vec![spending(5, &[50]), spending(4, &[40]), spending(6, &[])]);
    assert_eq!(ids(&sorted), vec![5, 4, 6]);
    assert!(knotted.is_empty());
}

#[test]
fn child_of_two_parents_comes_after_both() {
    let (sorted, knotted) = sort_transaction_order(vec![
        spending(3, &[1, 2]),
        spending(1, &[]),
        spending(4, &[3]),
        spending(2, &[1]),
    ]);
    assert_eq!(ids(&sorted), vec![1, 2, 3, 4]);
    assert!(knotted.is_empty());
}

#[test]
fn circle_is_handed_back_with_what_hangs_on_it() {
    let (sorted, knotted) = sort_transaction_order(vec![
        spending(1, &[2]),
        spending(2, &[1]),
        spending(3, &[1]),
        spending(4, &[]),
    ]);
    assert_eq!(ids(&sorted), vec![4]);
    assert_eq!(ids(&knotted), vec![1, 2, 3]);
}

#[test]
fn nothing_to_order() {
    let (sorted, knotted) = sort_transaction_order(Vec::new());
    assert!(sorted.is_empty());
    assert!(knotted.is_empty());
}
