use rune_indexer::ids::SerializedTxid;
use rune_indexer::transaction_update::{TransactionChangeSet, TransactionUpdate};
use rustc_hash::FxHashSet as HashSet;
use std::iter::FromIterator;

fn tx(i: u8) -> SerializedTxid {
    SerializedTxid::from([i; 32])
}

fn set<const N: usize>(items: [SerializedTxid; N]) -> HashSet<SerializedTxid> {
    HashSet::from_iter(items.into_iter())
}

fn cs<A: IntoIterator<Item = SerializedTxid>, R: IntoIterator<Item = SerializedTxid>>(
    added: A,
    removed: R,
) -> TransactionChangeSet {
    TransactionChangeSet {
        added: added.into_iter().collect(),
        removed: removed.into_iter().collect(),
    }
}

#[test]
fn categorize_to_change_set_newly_added_in_mempool_only() {
    let a = tx(1);
    let update = TransactionUpdate::new(
        cs([a].into_iter(), [].into_iter()),
        cs([].into_iter(), [].into_iter()),
    );

    let out = update.categorize_to_change_set();
    assert_eq!(out.added, set([a]));
    assert!(out.removed.is_empty());
}

#[test]
fn categorize_to_change_set_newly_added_in_block_only() {
    let b = tx(2);
    let update = TransactionUpdate::new(
        cs([].into_iter(), [].into_iter()),
        cs([b].into_iter(), [].into_iter()),
    );

    let out = update.categorize_to_change_set();
    assert_eq!(out.added, set([b]));
    assert!(out.removed.is_empty());
}

#[test]
fn categorize_to_change_set_neither_if_mempool_removed_and_block_added() {
    let x = tx(3);
    let update = TransactionUpdate::new(
        cs([].into_iter(), [x].into_iter()), // mempool_removed
        cs([x].into_iter(), [].into_iter()), // block_added
    );

    let out = update.categorize_to_change_set();
    assert!(out.added.is_empty());
    assert!(out.removed.is_empty());
}

#[test]
fn categorize_to_change_set_neither_if_block_removed_and_mempool_added() {
    let y = tx(4);
    let update = TransactionUpdate::new(
        cs([y].into_iter(), [].into_iter()), // mempool_added
        cs([].into_iter(), [y].into_iter()), // block_removed
    );

    let out = update.categorize_to_change_set();
    assert!(out.added.is_empty());
    assert!(out.removed.is_empty());
}

#[test]
fn categorize_to_change_set_removed_if_block_removed_only() {
    let r = tx(5);
    let update = TransactionUpdate::new(
        cs([].into_iter(), [].into_iter()),
        cs([].into_iter(), [r].into_iter()), // block_removed
    );

    let out = update.categorize_to_change_set();
    assert!(out.added.is_empty());
    assert_eq!(out.removed, set([r]));
}

#[test]
fn categorize_to_change_set_removed_if_mempool_removed_only() {
    let r = tx(6);
    let update = TransactionUpdate::new(
        cs([].into_iter(), [r].into_iter()), // mempool_removed
        cs([].into_iter(), [].into_iter()),
    );

    let out = update.categorize_to_change_set();
    assert!(out.added.is_empty());
    assert_eq!(out.removed, set([r]));
}

// Additional edge cases

#[test]
fn categorize_to_change_set_neither_if_block_removed_and_block_added_same_tx() {
    let t = tx(7);
    let update = TransactionUpdate::new(
        cs([].into_iter(), [].into_iter()),
        cs([t].into_iter(), [t].into_iter()),
    );
    let out = update.categorize_to_change_set();
    assert!(out.added.is_empty());
    assert!(out.removed.is_empty());
}

#[test]
fn categorize_to_change_set_neither_if_mempool_removed_and_added_same_tx() {
    let t = tx(8);
    let update = TransactionUpdate::new(
        cs([t].into_iter(), [t].into_iter()),
        cs([].into_iter(), [].into_iter()),
    );
    let out = update.categorize_to_change_set();
    assert!(out.added.is_empty());
    assert!(out.removed.is_empty());
}

#[test]
fn categorize_to_change_set_mixed_multiple_transactions() {
    let a = tx(10); // mempool-only new -> added
    let b = tx(11); // block-only new -> added
    let c = tx(12); // mempool_removed + block_added -> neither
    let d = tx(13); // block_removed + mempool_added -> neither
    let e = tx(14); // block_removed only -> removed
    let f = tx(15); // mempool_removed only -> removed

    let update = TransactionUpdate::new(
        cs([a, d].into_iter(), [c, f].into_iter()),
        cs([b, c].into_iter(), [d, e].into_iter()),
    );
    let out = update.categorize_to_change_set();

    assert_eq!(out.added, set([a, b]));
    assert_eq!(out.removed, set([e, f]));
}

#[test]
fn helper_is_empty_and_reset() {
    let a = tx(21);
    let b = tx(22);
    let mut update = TransactionUpdate::new(
        cs([a].into_iter(), [].into_iter()),
        cs([b].into_iter(), [].into_iter()),
    );
    assert!(!update.is_empty());
    update.reset();
    assert!(update.is_empty());
}

#[test]
fn helper_update_mempool_extends_sets() {
    let a1 = tx(31);
    let a2 = tx(32);
    let r1 = tx(33);
    let r2 = tx(34);

    let mut update = TransactionUpdate::new(
        cs([a1].into_iter(), [r1].into_iter()),
        cs([].into_iter(), [].into_iter()),
    );
    update.update_mempool(cs([a2].into_iter(), [r2].into_iter()));

    let mem = update.categorize_to_mempool();
    assert_eq!(mem.added, set([a1, a2]));
    assert_eq!(mem.removed, set([r1, r2]));
}

#[test]
fn helper_categorize_to_mempool_reflects_mempool_sets_only() {
    let a = tx(41);
    let r = tx(42);
    let ba = tx(43);
    let br = tx(44);

    let update = TransactionUpdate::new(
        cs([a].into_iter(), [r].into_iter()),
        cs([ba].into_iter(), [br].into_iter()),
    );
    let mem = update.categorize_to_mempool();
    assert_eq!(mem.added, set([a]));
    assert_eq!(mem.removed, set([r]));
}

#[test]
fn helper_enough_events_to_send_threshold() {
    let mut update = TransactionUpdate::default();
    // Exactly 10_000 distinct txids -> false
    for i in 0..10_000u32 {
        let bytes4 = i.to_be_bytes();
        let mut bytes32 = [0u8; 32];
        // Repeat the 4 bytes 8 times to make a 32-byte unique pattern per i
        for k in 0..8 {
            bytes32[k * 4..(k + 1) * 4].copy_from_slice(&bytes4);
        }
        update.add_block_tx(SerializedTxid::from(bytes32));
    }
    assert!(!update.enough_events_to_send());

    // Add one more -> true
    update.add_block_tx(tx(200));
    assert!(update.enough_events_to_send());
}

#[test]
fn no_event_if_reorged_twice_and_remined_twice() {
    // Start with tx in a block, then reorged out twice and re-mined twice within the same update
    let t = tx(50);

    let mut update = TransactionUpdate::new(
        cs([t].into_iter(), [].into_iter()),
        cs([].into_iter(), [].into_iter()),
    );

    // Simulate two reorg outs
    update.remove_block_tx(t);
    update.remove_block_tx(t);

    // Simulate two re-mines
    update.add_block_tx(t);
    update.add_block_tx(t);

    // Our helper should not flag this as an event-worthy re-add
    let flagged = update.block_added_after_mined_and_reorg();
    assert!(flagged.is_empty());
}

#[test]
fn event_if_direct_block_add_then_reorg_once_and_remined_once() {
    let t = tx(51);

    // New tx added directly to a block
    let mut update = TransactionUpdate::new(
        cs([].into_iter(), [].into_iter()),
        cs([t].into_iter(), [].into_iter()),
    );

    // One reorg out
    update.remove_block_tx(t);

    // One re-mine
    update.add_block_tx(t);

    // Should be flagged as event-worthy (added > removed)
    let flagged = update.block_added_after_mined_and_reorg();
    assert!(flagged.contains(&t));
}

#[test]
fn no_event_if_reorged_once_and_not_remined() {
    let t = tx(52);
    let mut update = TransactionUpdate::new(
        cs([t].into_iter(), [].into_iter()),
        cs([].into_iter(), [].into_iter()),
    );

    // Reorg out once, not re-mined
    update.remove_block_tx(t);

    let flagged = update.block_added_after_mined_and_reorg();
    assert!(flagged.is_empty());
}

#[test]
fn categorize_sorts_every_transition() {
    let mined = tx(60);
    let back = tx(61);
    let fresh = tx(62);
    let direct = tx(63);
    let gone = tx(64);
    let evicted = tx(65);
    let remined = tx(66);
    let update = TransactionUpdate::new(
        cs([back, fresh], [mined, evicted]),
        cs([mined, direct, remined], [back, gone, remined]),
    );
    let out = update.categorize();
    assert_eq!(out.mined_from_mempool, set([mined]));
    assert_eq!(out.reorged_back_to_mempool, set([back]));
    assert_eq!(out.new_in_mempool_only, set([fresh]));
    assert_eq!(out.new_block_only, set([direct, remined]));
    assert_eq!(out.reorged_out_entirely, set([gone]));
    assert_eq!(out.mempool_rbf_or_evicted, set([evicted]));
    assert_eq!(out.reorged_out_and_remined, set([remined]));
}

#[test]
fn block_transition_counts() {
    let t = tx(70);
    let mut update = TransactionUpdate::new(cs([], []), cs([t], []));
    assert_eq!(update.block_added_count(&t), 1);
    assert_eq!(update.block_removed_count(&t), 0);
    update.remove_block_tx(t);
    update.add_block_tx(t);
    update.add_block_tx(t);
    assert_eq!(update.block_added_count(&t), 3);
    assert_eq!(update.block_removed_count(&t), 1);
    assert_eq!(update.block_added_count(&tx(71)), 0);
    assert_eq!(update.block_added_after_mined_and_reorg(), set([t]));
}

#[test]
fn txid_from_bytes_reads_big_endian_halves() {
    let mut bytes = [0u8; 32];
    bytes[15] = 1;
    bytes[16] = 2;
    bytes[31] = 3;
    let t = SerializedTxid::from(bytes);
    assert_eq!(t.hi, 1);
    assert_eq!(t.lo, (2u128 << 120) | 3);
    assert_ne!(tx(1), tx(2));
    assert_eq!(SerializedTxid::all_zeros(), tx(0));
}
