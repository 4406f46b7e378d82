//! Taking back what was staged in a window: a transaction that was applied
//! to a window with earlier transactions, and a whole block.

use crate::artifact::{deciphered, ArtifactView};
use crate::address_updater::AddressUpdaterView;
use crate::cache::{CacheView, UpdaterCacheSettings};
use crate::ids::{BlockHash, OutPoint, SerializedTxid};
use crate::model::{
    BlockView, InscriptionId, SpentInputView, TransactionStateChangeView, TxOutEntryView,
};
use crate::rune_amount::RuneAmount;
use crate::rollback::drop_txid;
use crate::roundtrip::{
    changes_of, lemma_burn_all_only_runes, lemma_counters_return,
    lemma_produce_all_is_upto, lemma_produce_all_only_settled, lemma_spend_all_is_upto,
    lemma_spend_all_only_settled, lemma_spend_upto_keys, lemma_touch_all_lists,
    lemma_touch_all_only_settled, lemma_unburn_all_only_runes, lemma_unproduce_all_undoes,
    lemma_unspend_all_undoes, lemma_untouch_all_lists, restorable, side_of, staged_outputs,
    SaveShape,
};
use crate::rune_id::RuneId;
use crate::rune_parser::{index_runes_spec, minimum_rune};
use crate::settings::{Chain, Settings};
use crate::store::{list_at, lists_after, StoreView};
use crate::updater::{
    apply_block_spec, block_cache_settings, commit_spec, flush_size, handle_reorg_spec,
    index_mempool_spec, revert_blocks,
    index_tx_spec, mempool_cache_settings, message_for, record_block, revert_block_spec,
    revert_txs, revert_txs_fit, stage_block, BlockProgress, FetchedBlockView,
    IndexedTransactionView,
};
use vstd::prelude::*;

verus! {

/// The steps of applying a state change to a window, and what each of
/// them leaves alone.
pub proof fn lemma_staged_save_shape(
    cache: CacheView,
    db: StoreView,
    block_time: u32,
    height: u32,
    txid: SerializedTxid,
    artifact: Option<ArtifactView>,
    change: TransactionStateChangeView,
    icon: Option<InscriptionId>,
    mempool: bool,
) -> (shape: SaveShape)
    requires
        cache.save(db, block_time, height, txid, artifact, change, icon, mempool).1.is_none(),
    ensures
        shape.saved == cache.save(db, block_time, height, txid, artifact, change, icon, mempool).0,
        shape.etched.update.txouts == cache.update.txouts,
        shape.etched.update.tx_state_changes == cache.update.tx_state_changes,
        shape.etched.update.rune_transactions == cache.update.rune_transactions,
        shape.spent == shape.etched.spend_upto(db, change.inputs, change.inputs.len()),
        shape.produced == shape.spent.produce_upto(
            height,
            txid,
            change.outputs,
            change.outputs.len(),
            mempool,
        ),
        shape.recorded.update.rune_transactions == cache.update.rune_transactions,
        shape.saved == shape.recorded.touch_all(change.rune_ids(), txid),
        shape.saved.update.txouts == shape.produced.update.txouts,
        shape.saved.update.tx_state_changes == cache.update.tx_state_changes.insert(txid, change),
        shape.saved.update.runes == shape.etched.update.runes,
        shape.saved.update.rune_count == shape.etched.update.rune_count,
        shape.saved.update.rune_ids == shape.etched.update.rune_ids,
        shape.saved.update.rune_numbers == shape.etched.update.rune_numbers,
        crate::laws::same_frame(cache, shape.saved),
{
    reveal(CacheView::save);
    lemma_burn_all_only_runes(cache, db, height, txid, change.burned, mempool);
    let (burned, e1) = cache.burn_all(db, height, txid, change.burned, mempool);
    let (minted, e2) = match change.minted {
        Some(m) => burned.mint(db, height, txid, m, mempool),
        None => (burned, None),
    };
    let (etched, e3) = match change.etched {
        Some((id, rune)) => minted.etch(block_time, height, txid, id, rune, artifact, icon, mempool),
        None => (minted, None),
    };
    let spent = etched.spend_all(db, change.inputs);
    let produced = spent.produce_all(height, txid, change.outputs, 0, mempool);
    let recorded = CacheView {
        update: crate::store::BatchUpdateView {
            tx_state_changes: produced.update.tx_state_changes.insert(txid, change),
            ..produced.update
        },
        ..produced
    };
    let saved = recorded.touch_all(change.rune_ids(), txid);
    lemma_spend_all_is_upto(etched, db, change.inputs, change.inputs.len());
    assert(change.inputs.skip(change.inputs.len() as int) =~= Seq::<SpentInputView>::empty());
    lemma_produce_all_is_upto(spent, height, txid, change.outputs, change.outputs.len(), mempool);
    lemma_spend_all_only_settled(etched, db, change.inputs);
    lemma_produce_all_only_settled(spent, height, txid, change.outputs, 0, mempool);
    lemma_touch_all_only_settled(recorded, change.rune_ids(), txid);
    crate::laws::lemma_save_keeps_frame(
        cache,
        db,
        block_time,
        height,
        txid,
        artifact,
        change,
        icon,
        mempool,
    );
    SaveShape { etched, spent, produced, recorded, saved }
}

/// Taking a transaction off the lists of runes undoes noting it with
/// them in a window, provided that it was in none of the lists, stored or
/// staged, and that none of these lists was empty.
pub proof fn lemma_staged_untouch_all_undoes(
    cache: CacheView,
    db: StoreView,
    ids: Seq<RuneId>,
    txid: SerializedTxid,
    store: StoreView,
)
    requires
        store.rune_transactions == lists_after(
            db.rune_transactions,
            cache.touch_all(ids, txid).update.rune_transactions,
        ),
        forall|id: RuneId| #[trigger]
            lists_after(db.rune_transactions, cache.update.rune_transactions).contains_key(id)
                ==> lists_after(db.rune_transactions, cache.update.rune_transactions)[id].len() > 0
                && !lists_after(db.rune_transactions, cache.update.rune_transactions)[id].contains(
                txid,
            ),
    ensures
        store.untouch_all(ids, txid).rune_transactions == lists_after(
            db.rune_transactions,
            cache.update.rune_transactions,
        ),
{
    let before = lists_after(db.rune_transactions, cache.update.rune_transactions);
    let touched = cache.touch_all(ids, txid).update.rune_transactions;
    let after = store.untouch_all(ids, txid).rune_transactions;
    lemma_touch_all_lists(cache, ids, txid);
    lemma_untouch_all_lists(store, ids, txid);
    assert forall|id: RuneId| after.get(id) == before.get(id) by {
        let stored = list_at(db.rune_transactions, id);
        let staged = list_at(cache.update.rune_transactions, id);
        let noted = list_at(touched, id);
        assert(after.get(id) == store.untouch_all(ids, txid).rune_transactions.get(id));
        assert(drop_txid(noted, txid) == drop_txid(staged, txid));
        assert(touched.contains_key(id) <==> (cache.update.rune_transactions.contains_key(id)
            || ids.contains(id)));
        if before.contains_key(id) {
            assert(before[id] == stored + staged);
            assert(!(stored + staged).contains(txid));
            assert forall|i: int| 0 <= i < stored.len() implies stored[i] != txid by {
                assert((stored + staged)[i] == stored[i]);
            }
            assert forall|i: int| 0 <= i < staged.len() implies staged[i] != txid by {
                assert((stored + staged)[stored.len() + i] == staged[i]);
            }
            crate::roundtrip::lemma_drop_absent(stored, txid);
            crate::roundtrip::lemma_drop_absent(staged, txid);
        } else {
            assert(stored =~= Seq::<SerializedTxid>::empty());
            assert(staged =~= Seq::<SerializedTxid>::empty());
            crate::roundtrip::lemma_drop_absent(stored, txid);
            crate::roundtrip::lemma_drop_absent(staged, txid);
        }
        if ids.contains(id) {
            assert(store.rune_transactions.contains_key(id));
            assert(list_at(store.rune_transactions, id) == stored + noted);
            crate::roundtrip::lemma_drop_add(stored, noted, txid);
            assert(drop_txid(stored + noted, txid) == stored + staged);
        } else {
            assert(store.rune_transactions.contains_key(id) == before.contains_key(id));
            if before.contains_key(id) {
                assert(noted == staged) by {
                    lemma_touch_other(cache, ids, txid, id);
                }
            }
        }
    }
    assert forall|id: RuneId| #[trigger] after.dom().contains(id) == before.dom().contains(id) by {
        assert(after.get(id) == before.get(id));
    }
    assert forall|id: RuneId| after.dom().contains(id) implies #[trigger] after[id] == before[id] by {
        assert(after.get(id) == before.get(id));
    }
    assert(after =~= before);
}

/// Noting a transaction with runes leaves the list of every other rune as
/// it is.
pub proof fn lemma_touch_other(cache: CacheView, ids: Seq<RuneId>, txid: SerializedTxid, id: RuneId)
    requires
        !ids.contains(id),
    ensures
        list_at(cache.touch_all(ids, txid).update.rune_transactions, id) == list_at(
            cache.update.rune_transactions,
            id,
        ),
    decreases ids.len(),
{
    if ids.len() > 0 {
        assert(ids[0] != id) by {
            assert(ids.contains(ids[0]));
        }
        assert forall|k: int| 0 <= k < ids.skip(1).len() implies ids.skip(1)[k] != id by {
            assert(ids.contains(ids[k + 1]));
        }
        lemma_touch_other(cache.touch(ids[0], txid), ids.skip(1), txid, id);
    }
}

/// Whether the effect of a transaction on a window can be taken back
/// exactly once the window is committed. The transaction and the outputs
/// it produces are new to the store and to the window. Its inputs are
/// distinct outputs of other transactions, and the spending of each can
/// be taken back. The rune it etches is new, and so are its name and its
/// number. No list of transactions of a rune is empty or holds the
/// transaction already.
pub open spec fn staged_revertible(
    cache: CacheView,
    db: StoreView,
    txid: SerializedTxid,
    change: TransactionStateChangeView,
    mempool: bool,
) -> bool {
    let now = db.apply_update(cache.update, mempool);
    &&& change.outputs.len() <= u32::MAX
    &&& !changes_of(now, mempool).contains_key(txid)
    &&& forall|v: int|
        0 <= v < change.outputs.len() && change.outputs[v].runes.len() > 0 ==> !#[trigger] side_of(
            now,
            mempool,
        ).contains_key(OutPoint { txid, vout: v as u32 })
    &&& forall|i: int|
        0 <= i < change.inputs.len() ==> (#[trigger] change.inputs[i]).outpoint.txid != txid
    &&& forall|i: int, j: int|
        0 <= i < j < change.inputs.len() ==> (#[trigger] change.inputs[i]).outpoint != (
        #[trigger] change.inputs[j]).outpoint
    &&& forall|i: int|
        0 <= i < change.inputs.len() ==> restorable(
            cache,
            db,
            (#[trigger] change.inputs[i]).outpoint,
            mempool,
        )
    &&& change.etched.is_some() ==> {
        &&& !now.runes.contains_key(change.etched.unwrap().0)
        &&& !now.rune_ids.contains_key(change.etched.unwrap().1)
        &&& !now.rune_numbers.contains_key((cache.update.rune_count + 1) as u64)
    }
    &&& forall|id: RuneId| #[trigger]
        now.rune_transactions.contains_key(id) ==> now.rune_transactions[id].len() > 0
            && !now.rune_transactions[id].contains(txid)
}

/// Applying the state change of a transaction to a window, committing the
/// window, and taking the transaction back leaves the store as it is when
/// the window is committed without the transaction, and takes no counter
/// below zero.
pub proof fn lemma_staged_apply_then_revert(
    cache: CacheView,
    db: StoreView,
    block_time: u32,
    height: u32,
    txid: SerializedTxid,
    artifact: Option<ArtifactView>,
    change: TransactionStateChangeView,
    icon: Option<InscriptionId>,
    mempool: bool,
)
    requires
        cache.save(db, block_time, height, txid, artifact, change, icon, mempool).1.is_none(),
        staged_revertible(cache, db, txid, change, mempool),
    ensures
        db.apply_update(
            cache.save(db, block_time, height, txid, artifact, change, icon, mempool).0.update,
            mempool,
        ).revert(txid, change, mempool) == db.apply_update(cache.update, mempool),
        db.apply_update(
            cache.save(db, block_time, height, txid, artifact, change, icon, mempool).0.update,
            mempool,
        ).revert_fits(txid, change, mempool),
{
    let now = db.apply_update(cache.update, mempool);
    let shape = lemma_staged_save_shape(
        cache,
        db,
        block_time,
        height,
        txid,
        artifact,
        change,
        icon,
        mempool,
    );
    let applied = db.apply_update(shape.saved.update, mempool);
    let ids = change.rune_ids();
    // The lists of transactions.
    let lists = lists_after(db.rune_transactions, shape.recorded.update.rune_transactions);
    assert(lists == now.rune_transactions);
    assert forall|id: RuneId| #[trigger] lists.contains_key(id) implies lists[id].len() > 0
        && !lists[id].contains(txid) by {
        assert(now.rune_transactions.contains_key(id));
    }
    lemma_staged_untouch_all_undoes(shape.recorded, db, ids, txid, applied);
    lemma_untouch_all_lists(applied, ids, txid);
    let untouched = applied.untouch_all(ids, txid);
    let forgotten = untouched.forget(txid, mempool);
    assert(changes_of(forgotten, mempool) =~= changes_of(now, mempool));
    // The outputs.
    lemma_spend_upto_keys(shape.etched, db, change.inputs, change.inputs.len(), mempool);
    assert(side_of(forgotten, mempool) =~= staged_outputs(shape.produced, db, mempool));
    assert(staged_outputs(shape.etched, db, mempool) =~= side_of(now, mempool));
    assert forall|v: int|
        0 <= v < change.outputs.len() && change.outputs[v].runes.len() > 0 implies !#[trigger] staged_outputs(
        shape.spent,
        db,
        mempool,
    ).contains_key(OutPoint { txid, vout: v as u32 }) by {
        let key = OutPoint { txid, vout: v as u32 };
        assert(!side_of(now, mempool).contains_key(key));
        if staged_outputs(shape.spent, db, mempool).contains_key(key) {
            assert(!staged_outputs(shape.etched, db, mempool).contains_key(key));
            let i = choose|i: int|
                0 <= i < change.inputs.len() && (#[trigger] change.inputs[i]).outpoint == key;
            assert(change.inputs[i].outpoint.txid != txid);
        }
    }
    lemma_unproduce_all_undoes(
        shape.spent,
        db,
        height,
        txid,
        change.outputs,
        change.outputs.len(),
        mempool,
        forgotten,
    );
    let unproduced = forgotten.unproduce_all(txid, change.outputs, change.outputs.len(), mempool);
    assert forall|i: int| 0 <= i < change.inputs.len() implies restorable(
        shape.etched,
        db,
        (#[trigger] change.inputs[i]).outpoint,
        mempool,
    ) by {
        assert(restorable(cache, db, change.inputs[i].outpoint, mempool));
        assert(shape.etched.tx_out(db, change.inputs[i].outpoint) == cache.tx_out(
            db,
            change.inputs[i].outpoint,
        ));
    }
    lemma_unspend_all_undoes(
        shape.etched,
        db,
        change.inputs,
        change.inputs.len(),
        mempool,
        unproduced,
    );
    assert(change.inputs.take(change.inputs.len() as int) =~= change.inputs);
    let unspent = unproduced.unspend_all(change.inputs, mempool);
    assert(side_of(unspent, mempool) =~= side_of(now, mempool));
    assert(unspent == applied.unsettled(txid, change, mempool));
    // The runes.
    lemma_counters_return(
        cache,
        db,
        block_time,
        height,
        txid,
        artifact,
        change,
        icon,
        mempool,
        unspent,
    );
    let unetched = match change.etched {
        Some((id, rune)) => unspent.unetch(id, rune),
        None => unspent,
    };
    let unminted = match change.minted {
        Some(m) => unetched.unmint(m.rune_id, mempool),
        None => unetched,
    };
    lemma_unburn_all_only_runes(unminted, change.burned, mempool);
    let undone = unminted.unburn_all(change.burned, mempool);
    assert(undone == applied.revert(txid, change, mempool));
    // Everything together.
    assert(undone.blocks =~= now.blocks);
    assert(undone.block_hashes =~= now.block_hashes);
    assert(undone.txouts =~= now.txouts);
    assert(undone.mempool_txouts =~= now.mempool_txouts);
    assert(undone.tx_state_changes =~= now.tx_state_changes);
    assert(undone.mempool_tx_state_changes =~= now.mempool_tx_state_changes);
    assert(undone.rune_transactions =~= now.rune_transactions);
    assert(undone.runes =~= now.runes);
    assert(undone.rune_ids =~= now.rune_ids);
    assert(undone.rune_numbers =~= now.rune_numbers);
    assert(undone.mempool_txs =~= now.mempool_txs);
    assert(undone.script_pubkeys =~= now.script_pubkeys);
    assert(undone.mempool_script_pubkeys =~= now.mempool_script_pubkeys);
    assert(undone.outpoint_script_pubkeys =~= now.outpoint_script_pubkeys);
    assert(undone.mempool_outpoint_script_pubkeys =~= now.mempool_outpoint_script_pubkeys);
    assert(undone.spent_outpoints_in_mempool =~= now.spent_outpoints_in_mempool);
    assert(undone.transaction_confirming_block =~= now.transaction_confirming_block);
}

/// Whether transaction `i` of a block can be taken back exactly once it
/// was indexed: a transaction that touches runes must be revertible in
/// the window as it stands.
pub open spec fn step_revertible(
    progress: BlockProgress,
    db: StoreView,
    chain: Chain,
    height: u32,
    i: u32,
    tx: IndexedTransactionView,
) -> bool {
    match index_runes_spec(
        progress.cache,
        db,
        height as u64,
        i,
        tx.transaction,
        deciphered(tx.transaction.scripts),
        minimum_rune(chain, height),
        tx.commitment,
    ) {
        Err(_) => true,
        Ok(change) => change.has_rune_updates() ==> staged_revertible(
            progress.cache,
            db,
            tx.txid,
            change,
            false,
        ),
    }
}

/// Whether every transaction of a block from index `from` on can be
/// taken back exactly once it was indexed.
pub open spec fn run_revertible(
    progress: BlockProgress,
    db: StoreView,
    chain: Chain,
    height: u32,
    block_time: u32,
    txs: Seq<IndexedTransactionView>,
    from: nat,
) -> bool
    decreases txs.len() - from,
{
    if from >= txs.len() || progress.error.is_some() {
        true
    } else {
        &&& step_revertible(progress, db, chain, height, from as u32, txs[from as int])
        &&& run_revertible(
            progress.step(db, chain, height, block_time, from as u32, txs[from as int]),
            db,
            chain,
            height,
            block_time,
            txs,
            from + 1,
        )
    }
}

/// The store after one transaction was taken back, if its state change is
/// stored on the side of the chain.
pub open spec fn revert_one(db: StoreView, txid: SerializedTxid) -> StoreView {
    match db.tx_state_change(txid, Some(false)) {
        Some(change) => db.revert(txid, change, false),
        None => db,
    }
}

/// Whether one transaction can be taken back without a counter falling
/// below zero.
pub open spec fn one_fits(db: StoreView, txid: SerializedTxid) -> bool {
    match db.tx_state_change(txid, Some(false)) {
        Some(change) => db.revert_fits(txid, change, false),
        None => true,
    }
}

/// Taking back a list of transactions, last first, ends with taking back
/// the first of them.
pub proof fn lemma_revert_txs_front(db: StoreView, first: SerializedTxid, rest: Seq<SerializedTxid>)
    ensures
        revert_txs(db, seq![first] + rest, false) == revert_one(
            revert_txs(db, rest, false),
            first,
        ),
        revert_txs_fit(db, seq![first] + rest, false) == (revert_txs_fit(db, rest, false)
            && one_fits(revert_txs(db, rest, false), first)),
    decreases rest.len(),
{
    let all = seq![first] + rest;
    if rest.len() == 0 {
        assert(all.drop_last() =~= Seq::<SerializedTxid>::empty());
        assert(all.last() == first);
        assert(revert_txs(revert_one(db, first), all.drop_last(), false) == revert_one(db, first));
        assert(revert_txs_fit(revert_one(db, first), all.drop_last(), false));
    } else {
        assert(all.last() == rest.last());
        assert(all.drop_last() =~= seq![first] + rest.drop_last());
        lemma_revert_txs_front(revert_one(db, rest.last()), first, rest.drop_last());
    }
}

/// Indexing the transactions of a block and taking back those that were
/// recorded, last first, leaves the store as it is when the window is
/// committed without them. The recorded transactions are returned.
pub proof fn lemma_run_then_revert(
    progress: BlockProgress,
    db: StoreView,
    chain: Chain,
    height: u32,
    block_time: u32,
    txs: Seq<IndexedTransactionView>,
    from: nat,
) -> (added: Seq<SerializedTxid>)
    requires
        progress.run(db, chain, height, block_time, txs, from).error.is_none(),
        run_revertible(progress, db, chain, height, block_time, txs, from),
    ensures
        progress.run(db, chain, height, block_time, txs, from).tx_ids == progress.tx_ids + added,
        revert_txs(
            db.apply_update(
                progress.run(db, chain, height, block_time, txs, from).cache.update,
                false,
            ),
            added,
            false,
        ) == db.apply_update(progress.cache.update, false),
        revert_txs_fit(
            db.apply_update(
                progress.run(db, chain, height, block_time, txs, from).cache.update,
                false,
            ),
            added,
            false,
        ),
        crate::laws::same_frame(
            progress.cache,
            progress.run(db, chain, height, block_time, txs, from).cache,
        ),
    decreases txs.len() - from,
{
    if from >= txs.len() || progress.error.is_some() {
        let none = Seq::<SerializedTxid>::empty();
        assert(progress.tx_ids + none =~= progress.tx_ids);
        none
    } else {
        let tx = txs[from as int];
        let next = progress.step(db, chain, height, block_time, from as u32, tx);
        let end = next.run(db, chain, height, block_time, txs, from + 1);
        let later = lemma_run_then_revert(next, db, chain, height, block_time, txs, from + 1);
        reveal(BlockProgress::step);
        match index_runes_spec(
            progress.cache,
            db,
            height as u64,
            from as u32,
            tx.transaction,
            deciphered(tx.transaction.scripts),
            minimum_rune(chain, height),
            tx.commitment,
        ) {
            Err(_) => later,
            Ok(change) => {
                if !change.has_rune_updates() {
                    later
                } else {
                    let artifact = message_for(change, tx.transaction);
                    let (saved, err) = progress.cache.save(
                        db,
                        block_time,
                        height,
                        tx.txid,
                        artifact,
                        change,
                        tx.icon,
                        false,
                    );
                    if err.is_some() {
                        assert(next.error.is_some());
                        assert(end == next);
                        later
                    } else {
                        let shape = lemma_staged_save_shape(
                            progress.cache,
                            db,
                            block_time,
                            height,
                            tx.txid,
                            artifact,
                            change,
                            tx.icon,
                            false,
                        );
                        lemma_staged_apply_then_revert(
                            progress.cache,
                            db,
                            block_time,
                            height,
                            tx.txid,
                            artifact,
                            change,
                            tx.icon,
                            false,
                        );
                        let written = db.apply_update(saved.update, false);
                        assert(written.tx_state_change(tx.txid, Some(false)) == Some(change));
                        assert(revert_one(written, tx.txid) == db.apply_update(
                            progress.cache.update,
                            false,
                        ));
                        assert(one_fits(written, tx.txid));
                        lemma_revert_txs_front(
                            db.apply_update(end.cache.update, false),
                            tx.txid,
                            later,
                        );
                        let added = seq![tx.txid] + later;
                        assert(progress.tx_ids.push(tx.txid) + later =~= progress.tx_ids + added);
                        added
                    }
                }
            },
        }
    }
}

/// The store with other records of blocks and another count of blocks.
pub open spec fn with_chain(
    db: StoreView,
    blocks: Map<BlockHash, BlockView>,
    block_hashes: Map<u64, BlockHash>,
    block_count: u64,
) -> StoreView {
    StoreView { blocks, block_hashes, block_count, ..db }
}

proof fn lemma_untouch_all_chain(
    db: StoreView,
    blocks: Map<BlockHash, BlockView>,
    block_hashes: Map<u64, BlockHash>,
    block_count: u64,
    ids: Seq<RuneId>,
    txid: SerializedTxid,
)
    ensures
        with_chain(db, blocks, block_hashes, block_count).untouch_all(ids, txid) == with_chain(
            db.untouch_all(ids, txid),
            blocks,
            block_hashes,
            block_count,
        ),
    decreases ids.len(),
{
    if ids.len() > 0 {
        assert(with_chain(db, blocks, block_hashes, block_count).untouch(ids.last(), txid)
            == with_chain(db.untouch(ids.last(), txid), blocks, block_hashes, block_count));
        lemma_untouch_all_chain(
            db.untouch(ids.last(), txid),
            blocks,
            block_hashes,
            block_count,
            ids.drop_last(),
            txid,
        );
    }
}

proof fn lemma_unproduce_all_chain(
    db: StoreView,
    blocks: Map<BlockHash, BlockView>,
    block_hashes: Map<u64, BlockHash>,
    block_count: u64,
    txid: SerializedTxid,
    outputs: Seq<TxOutEntryView>,
    below: nat,
)
    ensures
        with_chain(db, blocks, block_hashes, block_count).unproduce_all(
            txid,
            outputs,
            below,
            false,
        ) == with_chain(
            db.unproduce_all(txid, outputs, below, false),
            blocks,
            block_hashes,
            block_count,
        ),
    decreases below,
{
    if below > 0 {
        let vout = (below - 1) as u32;
        let output = outputs[below - 1];
        assert(with_chain(db, blocks, block_hashes, block_count).unproduce(
            txid,
            vout,
            output,
            false,
        ) == with_chain(db.unproduce(txid, vout, output, false), blocks, block_hashes, block_count));
        lemma_unproduce_all_chain(
            db.unproduce(txid, vout, output, false),
            blocks,
            block_hashes,
            block_count,
            txid,
            outputs,
            (below - 1) as nat,
        );
    }
}

proof fn lemma_unspend_all_chain(
    db: StoreView,
    blocks: Map<BlockHash, BlockView>,
    block_hashes: Map<u64, BlockHash>,
    block_count: u64,
    inputs: Seq<SpentInputView>,
)
    ensures
        with_chain(db, blocks, block_hashes, block_count).unspend_all(inputs, false) == with_chain(
            db.unspend_all(inputs, false),
            blocks,
            block_hashes,
            block_count,
        ),
    decreases inputs.len(),
{
    if inputs.len() > 0 {
        let outpoint = inputs.last().outpoint;
        assert(with_chain(db, blocks, block_hashes, block_count).unspend(outpoint, false)
            == with_chain(db.unspend(outpoint, false), blocks, block_hashes, block_count));
        lemma_unspend_all_chain(
            db.unspend(outpoint, false),
            blocks,
            block_hashes,
            block_count,
            inputs.drop_last(),
        );
    }
}

proof fn lemma_unburn_all_chain(
    db: StoreView,
    blocks: Map<BlockHash, BlockView>,
    block_hashes: Map<u64, BlockHash>,
    block_count: u64,
    burned: Seq<RuneAmount>,
)
    ensures
        with_chain(db, blocks, block_hashes, block_count).unburn_all(burned, false) == with_chain(
            db.unburn_all(burned, false),
            blocks,
            block_hashes,
            block_count,
        ),
    decreases burned.len(),
{
    if burned.len() > 0 {
        assert(with_chain(db, blocks, block_hashes, block_count).unburn(burned.last(), false)
            == with_chain(db.unburn(burned.last(), false), blocks, block_hashes, block_count));
        lemma_unburn_all_chain(
            db.unburn(burned.last(), false),
            blocks,
            block_hashes,
            block_count,
            burned.drop_last(),
        );
    }
}

/// Taking a transaction back neither reads nor changes the records of
/// blocks and the count of blocks.
pub proof fn lemma_revert_chain(
    db: StoreView,
    blocks: Map<BlockHash, BlockView>,
    block_hashes: Map<u64, BlockHash>,
    block_count: u64,
    txid: SerializedTxid,
    change: TransactionStateChangeView,
)
    ensures
        with_chain(db, blocks, block_hashes, block_count).revert(txid, change, false) == with_chain(
            db.revert(txid, change, false),
            blocks,
            block_hashes,
            block_count,
        ),
        with_chain(db, blocks, block_hashes, block_count).revert_fits(txid, change, false)
            == db.revert_fits(txid, change, false),
{
    let ids = change.rune_ids();
    lemma_untouch_all_chain(db, blocks, block_hashes, block_count, ids, txid);
    let untouched = db.untouch_all(ids, txid).forget(txid, false);
    assert(with_chain(db, blocks, block_hashes, block_count).untouch_all(ids, txid).forget(
        txid,
        false,
    ) == with_chain(untouched, blocks, block_hashes, block_count));
    lemma_unproduce_all_chain(
        untouched,
        blocks,
        block_hashes,
        block_count,
        txid,
        change.outputs,
        change.outputs.len(),
    );
    let unproduced = untouched.unproduce_all(txid, change.outputs, change.outputs.len(), false);
    lemma_unspend_all_chain(unproduced, blocks, block_hashes, block_count, change.inputs);
    let unspent = unproduced.unspend_all(change.inputs, false);
    let unetched = match change.etched {
        Some((id, rune)) => unspent.unetch(id, rune),
        None => unspent,
    };
    assert((match change.etched {
        Some((id, rune)) => with_chain(unspent, blocks, block_hashes, block_count).unetch(id, rune),
        None => with_chain(unspent, blocks, block_hashes, block_count),
    }) == with_chain(unetched, blocks, block_hashes, block_count));
    let unminted = match change.minted {
        Some(m) => unetched.unmint(m.rune_id, false),
        None => unetched,
    };
    assert((match change.minted {
        Some(m) => with_chain(unetched, blocks, block_hashes, block_count).unmint(
            m.rune_id,
            false,
        ),
        None => with_chain(unetched, blocks, block_hashes, block_count),
    }) == with_chain(unminted, blocks, block_hashes, block_count));
    lemma_unburn_all_chain(unminted, blocks, block_hashes, block_count, change.burned);
    let chained = with_chain(db, blocks, block_hashes, block_count);
    assert(chained.unsettled(txid, change, false) == with_chain(
        unspent,
        blocks,
        block_hashes,
        block_count,
    ));
    assert(unspent == db.unsettled(txid, change, false));
    lemma_unburn_all_fits_chain(unminted, blocks, block_hashes, block_count, change.burned);
}

proof fn lemma_unburn_all_fits_chain(
    db: StoreView,
    blocks: Map<BlockHash, BlockView>,
    block_hashes: Map<u64, BlockHash>,
    block_count: u64,
    burned: Seq<RuneAmount>,
)
    ensures
        with_chain(db, blocks, block_hashes, block_count).unburn_all_fits(burned, false)
            == db.unburn_all_fits(burned, false),
    decreases burned.len(),
{
    if burned.len() > 0 {
        assert(with_chain(db, blocks, block_hashes, block_count).unburn(burned.last(), false)
            == with_chain(db.unburn(burned.last(), false), blocks, block_hashes, block_count));
        lemma_unburn_all_fits_chain(
            db.unburn(burned.last(), false),
            blocks,
            block_hashes,
            block_count,
            burned.drop_last(),
        );
    }
}

/// Taking transactions back neither reads nor changes the records of
/// blocks and the count of blocks.
pub proof fn lemma_revert_txs_chain(
    db: StoreView,
    blocks: Map<BlockHash, BlockView>,
    block_hashes: Map<u64, BlockHash>,
    block_count: u64,
    tx_ids: Seq<SerializedTxid>,
)
    ensures
        revert_txs(with_chain(db, blocks, block_hashes, block_count), tx_ids, false) == with_chain(
            revert_txs(db, tx_ids, false),
            blocks,
            block_hashes,
            block_count,
        ),
        revert_txs_fit(with_chain(db, blocks, block_hashes, block_count), tx_ids, false)
            == revert_txs_fit(db, tx_ids, false),
    decreases tx_ids.len(),
{
    if tx_ids.len() > 0 {
        let txid = tx_ids.last();
        let chained = with_chain(db, blocks, block_hashes, block_count);
        assert(chained.tx_state_change(txid, Some(false)) == db.tx_state_change(txid, Some(false)));
        match db.tx_state_change(txid, Some(false)) {
            Some(change) => {
                lemma_revert_chain(db, blocks, block_hashes, block_count, txid, change);
            },
            None => {},
        }
        lemma_revert_txs_chain(
            revert_one(db, txid),
            blocks,
            block_hashes,
            block_count,
            tx_ids.drop_last(),
        );
    }
}

/// Whether a block that is taken in over a store can be taken back
/// exactly. The block is committed at once, addresses are not indexed, and
/// the commit purges nothing: the block lies within the recoverable depth
/// from the start of the chain, or everything below that depth is purged
/// already. The block is new at its height, and each of its transactions
/// can be taken back.
pub open spec fn block_revertible(db: StoreView, settings: Settings, block: FetchedBlockView) -> bool {
    let height = db.block_count;
    let depth = settings.max_recoverable_reorg_depth;
    let start = BlockProgress {
        cache: CacheView::fresh(db, block_cache_settings(settings)),
        tx_ids: Seq::empty(),
        etched_runes: Seq::empty(),
        error: None,
    };
    &&& !settings.index_addresses
    &&& flush_size(settings.commit_interval) <= 1
    &&& height < u32::MAX
    &&& (height < depth || db.purged_blocks_count + 1 >= height - depth)
    &&& !db.blocks.contains_key(block.header.hash)
    &&& !db.block_hashes.contains_key(height)
    &&& (height >= settings.chain.spec_first_rune_height() ==> run_revertible(
        start,
        db,
        settings.chain,
        height as u32,
        block.header.time,
        block.txdata,
        0,
    ))
}

/// Taking in a block and then taking it back leaves the store exactly as
/// it was: after the block was committed, reverting it and setting the
/// count of blocks back gives the store from before, and no counter falls
/// below zero on the way.
pub proof fn lemma_block_then_rollback(
    db: StoreView,
    addresses: AddressUpdaterView,
    settings: Settings,
    block: FetchedBlockView,
    was_at_tip: bool,
)
    requires
        block_revertible(db, settings, block),
        apply_block_spec(
            CacheView::fresh(db, block_cache_settings(settings)),
            addresses,
            db,
            settings,
            block,
            was_at_tip,
        ).error.is_none(),
    ensures
        ({
            let applied = apply_block_spec(
                CacheView::fresh(db, block_cache_settings(settings)),
                addresses,
                db,
                settings,
                block,
                was_at_tip,
            ).db;
            &&& applied.block_count == db.block_count + 1
            &&& applied.block_hashes.contains_key(db.block_count)
            &&& applied.block_hashes[db.block_count] == block.header.hash
            &&& applied.blocks.contains_key(block.header.hash)
            &&& revert_txs_fit(applied, applied.blocks[block.header.hash].tx_ids, false)
            &&& (StoreView {
                block_count: db.block_count,
                ..revert_block_spec(applied, db.block_count, applied.blocks[block.header.hash])
            }) == db
        }),
{
    reveal(apply_block_spec);
    reveal(commit_spec);
    let fresh = CacheView::fresh(db, block_cache_settings(settings));
    let height = db.block_count;
    let hash = block.header.hash;
    let start = BlockProgress {
        cache: fresh,
        tx_ids: Seq::empty(),
        etched_runes: Seq::empty(),
        error: None,
    };
    let progress = record_block(fresh, db, settings, block, height as u32);
    let added = if height as u32 >= settings.chain.spec_first_rune_height() {
        lemma_run_then_revert(
            start,
            db,
            settings.chain,
            height as u32,
            block.header.time,
            block.txdata,
            0,
        )
    } else {
        Seq::<SerializedTxid>::empty()
    };
    assert(start.tx_ids + added =~= added);
    assert(progress.tx_ids == added);
    assert(crate::laws::same_frame(fresh, progress.cache));
    let staged = stage_block(progress.cache, height, block, progress.tx_ids, progress.etched_runes);
    assert(staged.update.blocks =~= Map::<BlockHash, BlockView>::empty().insert(
        hash,
        staged.update.blocks[hash],
    ));
    assert(staged.update.blocks.len() == 1);
    // The commit purges nothing.
    assert(staged.prepared(db) == (staged, None::<crate::store::StoreError>));
    assert(!staged.update.is_empty()) by {
        assert(staged.update.blocks.contains_key(hash));
    }
    let applied = db.apply_update(staged.update, false);
    assert(crate::cache::committed(db, staged) == applied);
    let written = db.apply_update(progress.cache.update, false);
    assert(applied == with_chain(written, applied.blocks, applied.block_hashes, applied.block_count));
    lemma_revert_txs_chain(written, applied.blocks, applied.block_hashes, applied.block_count, added);
    let record = applied.blocks[hash];
    assert(record.tx_ids == added);
    let before = db.apply_update(fresh.update, false);
    assert(revert_txs(written, added, false) == before);
    let rolled = StoreView {
        block_count: db.block_count,
        ..revert_block_spec(applied, height, record)
    };
    assert(rolled.blocks =~= db.blocks);
    assert(rolled.block_hashes =~= db.block_hashes);
    assert(rolled.txouts =~= db.txouts);
    assert(rolled.mempool_txouts =~= db.mempool_txouts);
    assert(rolled.tx_state_changes =~= db.tx_state_changes);
    assert(rolled.mempool_tx_state_changes =~= db.mempool_tx_state_changes);
    assert(rolled.rune_transactions =~= db.rune_transactions);
    assert(rolled.runes =~= db.runes);
    assert(rolled.rune_ids =~= db.rune_ids);
    assert(rolled.rune_numbers =~= db.rune_numbers);
    assert(rolled.mempool_txs =~= db.mempool_txs);
    assert(rolled.script_pubkeys =~= db.script_pubkeys);
    assert(rolled.mempool_script_pubkeys =~= db.mempool_script_pubkeys);
    assert(rolled.outpoint_script_pubkeys =~= db.outpoint_script_pubkeys);
    assert(rolled.mempool_outpoint_script_pubkeys =~= db.mempool_outpoint_script_pubkeys);
    assert(rolled.spent_outpoints_in_mempool =~= db.spent_outpoints_in_mempool);
    assert(rolled.transaction_confirming_block =~= db.transaction_confirming_block);
}

/// The commit of a new window writes nothing that was not staged in it.
proof fn lemma_new_window_writes_nothing(db: StoreView, settings: UpdaterCacheSettings)
    ensures
        db.apply_update(CacheView::fresh(db, settings).update, settings.mempool) == db,
{
    let now = db.apply_update(CacheView::fresh(db, settings).update, settings.mempool);
    assert(now.blocks =~= db.blocks);
    assert(now.block_hashes =~= db.block_hashes);
    assert(now.txouts =~= db.txouts);
    assert(now.mempool_txouts =~= db.mempool_txouts);
    assert(now.tx_state_changes =~= db.tx_state_changes);
    assert(now.mempool_tx_state_changes =~= db.mempool_tx_state_changes);
    assert(now.rune_transactions =~= db.rune_transactions);
    assert(now.runes =~= db.runes);
    assert(now.rune_ids =~= db.rune_ids);
    assert(now.rune_numbers =~= db.rune_numbers);
    assert(now.mempool_txs =~= db.mempool_txs);
    assert(now.script_pubkeys =~= db.script_pubkeys);
    assert(now.mempool_script_pubkeys =~= db.mempool_script_pubkeys);
    assert(now.outpoint_script_pubkeys =~= db.outpoint_script_pubkeys);
    assert(now.mempool_outpoint_script_pubkeys =~= db.mempool_outpoint_script_pubkeys);
    assert(now.spent_outpoints_in_mempool =~= db.spent_outpoints_in_mempool);
    assert(now.transaction_confirming_block =~= db.transaction_confirming_block);
}

/// Applying the state change of a transaction to a new window, committing
/// the window, and taking the transaction back leaves the store exactly
/// as it was.
pub proof fn lemma_apply_then_revert(
    db: StoreView,
    settings: UpdaterCacheSettings,
    block_time: u32,
    height: u32,
    txid: SerializedTxid,
    artifact: Option<ArtifactView>,
    change: TransactionStateChangeView,
    icon: Option<InscriptionId>,
)
    requires
        CacheView::fresh(db, settings).save(
            db,
            block_time,
            height,
            txid,
            artifact,
            change,
            icon,
            settings.mempool,
        ).1.is_none(),
        staged_revertible(CacheView::fresh(db, settings), db, txid, change, settings.mempool),
    ensures
        db.apply_update(
            CacheView::fresh(db, settings).save(
                db,
                block_time,
                height,
                txid,
                artifact,
                change,
                icon,
                settings.mempool,
            ).0.update,
            settings.mempool,
        ).revert(txid, change, settings.mempool) == db,
{
    lemma_new_window_writes_nothing(db, settings);
    lemma_staged_apply_then_revert(
        CacheView::fresh(db, settings),
        db,
        block_time,
        height,
        txid,
        artifact,
        change,
        icon,
        settings.mempool,
    );
}

/// Whether a transaction that enters the mempool over a store can be
/// taken out again exactly: addresses are not indexed, the transaction is
/// new to the mempool side of the store, and, if it touches runes, its
/// effect on a new window can be taken back.
pub open spec fn mempool_revertible(db: StoreView, settings: Settings, tx: IndexedTransactionView) -> bool {
    let fresh = CacheView::fresh(db, mempool_cache_settings(settings));
    &&& !settings.index_addresses
    &&& !db.mempool_txs.contains(tx.txid)
    &&& !db.mempool_tx_state_changes.contains_key(tx.txid)
    &&& match index_runes_spec(
        fresh,
        db,
        db.block_count,
        0,
        tx.transaction,
        deciphered(tx.transaction.scripts),
        minimum_rune(settings.chain, db.block_count as u32),
        tx.commitment,
    ) {
        Err(_) => true,
        Ok(change) => change.has_rune_updates() ==> staged_revertible(
            fresh,
            db,
            tx.txid,
            change,
            true,
        ),
    }
}

/// A transaction that enters the mempool in one update and leaves it in
/// the next leaves the store exactly as it was: the pending counters, the
/// outputs, the lists and the mempool set are as before.
pub proof fn lemma_mempool_enter_then_leave(
    db: StoreView,
    settings: Settings,
    tx: IndexedTransactionView,
    entered: u32,
    left: u32,
)
    requires
        mempool_revertible(db, settings, tx),
        index_mempool_spec(db, settings, seq![tx], Seq::empty(), entered).2.is_none(),
    ensures
        index_mempool_spec(
            index_mempool_spec(db, settings, seq![tx], Seq::empty(), entered).0,
            settings,
            Seq::empty(),
            seq![tx.txid],
            left,
        ).0 == db,
        index_mempool_spec(
            index_mempool_spec(db, settings, seq![tx], Seq::empty(), entered).0,
            settings,
            Seq::empty(),
            seq![tx.txid],
            left,
        ).1 == Seq::<crate::events::EventView>::empty(),
        index_mempool_spec(
            index_mempool_spec(db, settings, seq![tx], Seq::empty(), entered).0,
            settings,
            Seq::empty(),
            seq![tx.txid],
            left,
        ).2.is_none(),
{
    reveal(index_tx_spec);
    reveal(commit_spec);
    let cache_settings = mempool_cache_settings(settings);
    let fresh = CacheView::fresh(db, cache_settings);
    let txs = seq![tx];
    let one = index_tx_spec(fresh, db, settings.chain, entered, tx);
    assert(txs[0] == tx);
    assert(crate::updater::index_txs_spec(one.0, db, settings.chain, entered, txs, 1) == (
        one.0,
        None::<crate::updater::UpdaterError>,
    ));
    assert(crate::updater::index_txs_spec(fresh, db, settings.chain, entered, txs, 0).1
        == one.1);
    assert(one.1.is_none());
    assert(!fresh.tx_exists(db, tx.txid));
    let height = db.block_count as u32;
    let change = index_runes_spec(
        fresh,
        db,
        height as u64,
        0,
        tx.transaction,
        deciphered(tx.transaction.scripts),
        minimum_rune(settings.chain, height),
        tx.commitment,
    ).unwrap();
    lemma_new_window_writes_nothing(db, cache_settings);
    let saved = if change.has_rune_updates() {
        fresh.save(
            db,
            entered,
            height,
            tx.txid,
            message_for(change, tx.transaction),
            change,
            tx.icon,
            true,
        ).0
    } else {
        fresh
    };
    if change.has_rune_updates() {
        let shape = lemma_staged_save_shape(
            fresh,
            db,
            entered,
            height,
            tx.txid,
            message_for(change, tx.transaction),
            change,
            tx.icon,
            true,
        );
        lemma_staged_apply_then_revert(
            fresh,
            db,
            entered,
            height,
            tx.txid,
            message_for(change, tx.transaction),
            change,
            tx.icon,
            true,
        );
        assert(saved.update.tx_state_changes.contains_key(tx.txid));
    }
    assert(crate::laws::same_frame(fresh, saved));
    assert(one.0.update.mempool_txs.contains(tx.txid));
    assert(!one.0.update.is_empty()) by {
        assert(!Set::<SerializedTxid>::empty().contains(tx.txid));
    }
    let applied = db.apply_update(one.0.update, true);
    let first = index_mempool_spec(db, settings, txs, Seq::empty(), entered);
    assert(first.0 == applied);
    let gone = StoreView { mempool_txs: applied.mempool_txs.remove(tx.txid), ..applied };
    let written = db.apply_update(saved.update, true);
    assert(gone.mempool_txs =~= written.mempool_txs);
    assert(gone == written);
    assert(seq![tx.txid].skip(1) =~= Seq::<SerializedTxid>::empty());
    let next = if change.has_rune_updates() {
        assert(written.tx_state_change(tx.txid, Some(true)) == Some(change));
        assert(written.revert_fits(tx.txid, change, true));
        written.revert(tx.txid, change, true)
    } else {
        assert(written.tx_state_change(tx.txid, Some(true)).is_none());
        written
    };
    assert(next == db);
    let leaving = seq![tx.txid];
    assert(leaving[0] == tx.txid);
    assert(crate::updater::remove_txs_spec(db, leaving.skip(1), true) == db);
    assert(crate::updater::remove_txs_spec(applied, leaving, true) == db);
    assert(crate::updater::remove_txs_fit(db, leaving.skip(1), true));
    assert(crate::updater::remove_txs_fit(applied, leaving, true));
    assert(crate::updater::index_new_txs_spec(applied, settings, Seq::empty(), left) == (
        applied,
        Seq::<crate::events::EventView>::empty(),
        None::<crate::updater::UpdaterError>,
    ));
}

/// Taking transactions back leaves the hashes of the blocks and the count
/// of blocks as they are.
pub proof fn lemma_revert_txs_keeps_chain(db: StoreView, tx_ids: Seq<SerializedTxid>)
    ensures
        revert_txs(db, tx_ids, false).blocks == db.blocks,
        revert_txs(db, tx_ids, false).block_hashes == db.block_hashes,
        revert_txs(db, tx_ids, false).block_count == db.block_count,
{
    assert(with_chain(db, db.blocks, db.block_hashes, db.block_count) == db);
    lemma_revert_txs_chain(db, db.blocks, db.block_hashes, db.block_count, tx_ids);
}

/// Taking back the blocks at the heights `height - i`, for `i` from
/// `from` up to `depth`, leaves no hash at any of these heights, and
/// leaves the hashes at all other heights and the count of blocks as they
/// are.
pub proof fn lemma_revert_blocks_removes_hashes(db: StoreView, height: u64, from: u64, depth: u64)
    requires
        1 <= from,
        depth <= height,
        revert_blocks(db, height, from, depth).1.is_none(),
    ensures
        revert_blocks(db, height, from, depth).0.block_count == db.block_count,
        forall|h: u64|
            height - depth <= h <= height - from ==> !#[trigger] revert_blocks(
                db,
                height,
                from,
                depth,
            ).0.block_hashes.contains_key(h),
        forall|h: u64|
            !(height - depth <= h <= height - from) ==> (#[trigger] revert_blocks(
                db,
                height,
                from,
                depth,
            ).0.block_hashes.contains_key(h) == db.block_hashes.contains_key(h)),
    decreases depth - from,
{
    if from <= depth {
        let at = (height - from) as u64;
        let block = db.blocks[db.block_hashes[at]];
        let reverted = revert_block_spec(db, at, block);
        lemma_revert_txs_keeps_chain(db, block.tx_ids);
        if from < depth {
            lemma_revert_blocks_removes_hashes(reverted, height, (from + 1) as u64, depth);
        }
    }
}

/// A reorganisation that was handled leaves the count of blocks at
/// `height - depth` and no hash at any of the `depth` heights from there
/// on: every rolled-back block was taken back.
pub proof fn lemma_handle_reorg_rolls_back_every_block(db: StoreView, height: u64, depth: u64)
    requires
        depth <= height,
        handle_reorg_spec(db, height, depth).1.is_none(),
    ensures
        handle_reorg_spec(db, height, depth).0.block_count == height - depth,
        forall|h: u64|
            height - depth <= h < height ==> !#[trigger] handle_reorg_spec(
                db,
                height,
                depth,
            ).0.block_hashes.contains_key(h),
{
    let lowered = StoreView { block_count: (height - depth) as u64, ..db };
    lemma_revert_blocks_removes_hashes(lowered, height, 1, depth);
}

proof fn lemma_distinct_no_duplicates(ids: Seq<RuneId>)
    ensures
        crate::transaction_updater::distinct(ids).no_duplicates(),
    decreases ids.len(),
{
    if ids.len() > 0 {
        lemma_distinct_no_duplicates(ids.drop_last());
    }
}

/// Noting a transaction with runes, each named once, appends it to the
/// list of each of them.
pub proof fn lemma_touch_all_appends(
    cache: CacheView,
    ids: Seq<RuneId>,
    txid: SerializedTxid,
    id: RuneId,
)
    requires
        ids.no_duplicates(),
        ids.contains(id),
    ensures
        list_at(cache.touch_all(ids, txid).update.rune_transactions, id) == list_at(
            cache.update.rune_transactions,
            id,
        ).push(txid),
    decreases ids.len(),
{
    let rest = ids.skip(1);
    let next = cache.touch(ids[0], txid);
    assert(rest.no_duplicates());
    if ids[0] == id {
        assert(!rest.contains(id)) by {
            if rest.contains(id) {
                let k = choose|k: int| 0 <= k < rest.len() && rest[k] == id;
                assert(ids[k + 1] == ids[0]);
            }
        }
        lemma_touch_other(next, rest, txid, id);
    } else {
        let k = choose|k: int| 0 <= k < ids.len() && ids[k] == id;
        assert(rest[k - 1] == id);
        lemma_touch_all_appends(next, rest, txid, id);
    }
}

/// Staging the first outputs of a transaction stages each of them that
/// holds runes as it is.
pub proof fn lemma_produce_upto_stages(
    cache: CacheView,
    height: u32,
    txid: SerializedTxid,
    outputs: Seq<TxOutEntryView>,
    n: nat,
    mempool: bool,
    v: int,
)
    requires
        0 <= v < n <= outputs.len(),
        outputs.len() <= u32::MAX,
        outputs[v].runes.len() > 0,
    ensures
        cache.produce_upto(height, txid, outputs, n, mempool).update.txouts.contains_key(
            OutPoint { txid, vout: v as u32 },
        ),
        cache.produce_upto(height, txid, outputs, n, mempool).update.txouts[OutPoint {
            txid,
            vout: v as u32,
        }] == outputs[v],
    decreases n,
{
    if v < n - 1 {
        lemma_produce_upto_stages(cache, height, txid, outputs, (n - 1) as nat, mempool, v);
    }
}

/// What applying a state change records. The state change is staged under
/// its transaction. Every output of it that holds runes is staged as it
/// is. Nothing else is staged as an output but what was staged before and
/// what the transaction consumed. The transaction is appended to the list
/// of every rune that it touched.
pub proof fn lemma_save_records(
    cache: CacheView,
    db: StoreView,
    block_time: u32,
    height: u32,
    txid: SerializedTxid,
    artifact: Option<ArtifactView>,
    change: TransactionStateChangeView,
    icon: Option<InscriptionId>,
    mempool: bool,
)
    requires
        cache.save(db, block_time, height, txid, artifact, change, icon, mempool).1.is_none(),
        change.outputs.len() <= u32::MAX,
    ensures
        ({
            let saved = cache.save(db, block_time, height, txid, artifact, change, icon, mempool).0;
            &&& saved.update.tx_state_changes == cache.update.tx_state_changes.insert(txid, change)
            &&& forall|v: int|
                0 <= v < change.outputs.len() && (#[trigger] change.outputs[v]).runes.len() > 0
                    ==> saved.update.txouts.contains_key(OutPoint { txid, vout: v as u32 })
                    && saved.update.txouts[OutPoint { txid, vout: v as u32 }] == change.outputs[v]
            &&& forall|o: OutPoint| #[trigger]
                saved.update.txouts.contains_key(o) ==> {
                    ||| cache.update.txouts.contains_key(o)
                    ||| db.tx_out(o, None).is_some() && exists|i: int|
                        0 <= i < change.inputs.len() && (#[trigger] change.inputs[i]).outpoint == o
                    ||| o.txid == txid && o.vout < change.outputs.len()
                        && change.outputs[o.vout as int].runes.len() > 0
                }
            &&& forall|id: RuneId| #[trigger]
                change.rune_ids().contains(id) ==> list_at(saved.update.rune_transactions, id)
                    == list_at(cache.update.rune_transactions, id).push(txid)
        }),
{
    let shape = lemma_staged_save_shape(
        cache,
        db,
        block_time,
        height,
        txid,
        artifact,
        change,
        icon,
        mempool,
    );
    let saved = shape.saved;
    let n = change.outputs.len();
    assert forall|v: int|
        0 <= v < n && (#[trigger] change.outputs[v]).runes.len() > 0 implies saved.update.txouts.contains_key(
        OutPoint { txid, vout: v as u32 },
    ) && saved.update.txouts[OutPoint { txid, vout: v as u32 }] == change.outputs[v] by {
        lemma_produce_upto_stages(shape.spent, height, txid, change.outputs, n, mempool, v);
    }
    assert forall|o: OutPoint| #[trigger] saved.update.txouts.contains_key(o) implies {
        ||| cache.update.txouts.contains_key(o)
        ||| db.tx_out(o, None).is_some() && exists|i: int|
            0 <= i < change.inputs.len() && (#[trigger] change.inputs[i]).outpoint == o
        ||| o.txid == txid && o.vout < n && change.outputs[o.vout as int].runes.len() > 0
    } by {
        lemma_produced_keys(shape.spent, height, txid, change.outputs, n, mempool, o);
        if shape.spent.update.txouts.contains_key(o) {
            lemma_spent_keys(shape.etched, db, change.inputs, change.inputs.len(), o);
        }
    }
    lemma_distinct_no_duplicates(change.all_rune_ids());
    assert forall|id: RuneId| #[trigger] change.rune_ids().contains(id) implies list_at(
        saved.update.rune_transactions,
        id,
    ) == list_at(cache.update.rune_transactions, id).push(txid) by {
        lemma_touch_all_appends(shape.recorded, change.rune_ids(), txid, id);
    }
}

/// An output that is staged after the first outputs of a transaction were
/// staged was staged before or is one of them that holds runes.
proof fn lemma_produced_keys(
    cache: CacheView,
    height: u32,
    txid: SerializedTxid,
    outputs: Seq<TxOutEntryView>,
    n: nat,
    mempool: bool,
    o: OutPoint,
)
    requires
        n <= outputs.len(),
        outputs.len() <= u32::MAX,
        cache.produce_upto(height, txid, outputs, n, mempool).update.txouts.contains_key(o),
    ensures
        cache.update.txouts.contains_key(o) || (o.txid == txid && o.vout < n
            && outputs[o.vout as int].runes.len() > 0),
    decreases n,
{
    if n > 0 {
        let before = cache.produce_upto(height, txid, outputs, (n - 1) as nat, mempool);
        if before.update.txouts.contains_key(o) {
            lemma_produced_keys(cache, height, txid, outputs, (n - 1) as nat, mempool, o);
        }
    }
}

/// An output that is staged after the first inputs were marked as spent
/// was staged before or is one of these inputs, known to the store.
proof fn lemma_spent_keys(
    cache: CacheView,
    db: StoreView,
    inputs: Seq<SpentInputView>,
    n: nat,
    o: OutPoint,
)
    requires
        n <= inputs.len(),
        cache.spend_upto(db, inputs, n).update.txouts.contains_key(o),
    ensures
        cache.update.txouts.contains_key(o) || (db.tx_out(o, None).is_some() && exists|i: int|
            0 <= i < n && (#[trigger] inputs[i]).outpoint == o),
    decreases n,
{
    if n > 0 {
        let before = cache.spend_upto(db, inputs, (n - 1) as nat);
        if before.update.txouts.contains_key(o) {
            lemma_spent_keys(cache, db, inputs, (n - 1) as nat, o);
        } else {
            assert(inputs[n - 1].outpoint == o);
        }
    }
}

} // verus!
