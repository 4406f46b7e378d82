use crate::artifact::ArtifactView;
use crate::cache::CacheView;
use crate::ids::SerializedTxid;
use crate::model::{
    InscriptionId, RuneEntry, SpentInputView, TransactionStateChangeView, TxOutEntryView,
};
use crate::rune_amount::RuneAmount;
use crate::rune_id::RuneId;
use crate::rune_parser::{index_runes_spec, minimum_rune};
use crate::settings::Chain;
use crate::store::StoreView;
use crate::updater::{message_for, BlockProgress, IndexedTransactionView};
use crate::artifact::deciphered;
use vstd::prelude::*;

verus! {

/// Whether two caches agree in everything that applying a state change
/// leaves alone: the settings, the staged deletions, the bounds of the
/// window, the staged blocks, the mempool set, the script entries and the
/// counts of blocks.
pub open spec fn same_frame(a: CacheView, b: CacheView) -> bool {
    &&& a.settings == b.settings
    &&& a.delete == b.delete
    &&& a.first_block_height == b.first_block_height
    &&& a.last_block_height == b.last_block_height
    &&& a.update.blocks == b.update.blocks
    &&& a.update.block_hashes == b.update.block_hashes
    &&& a.update.mempool_txs == b.update.mempool_txs
    &&& a.update.script_pubkeys == b.update.script_pubkeys
    &&& a.update.script_pubkeys_outpoints == b.update.script_pubkeys_outpoints
    &&& a.update.spent_outpoints_in_mempool == b.update.spent_outpoints_in_mempool
    &&& a.update.transaction_confirming_block == b.update.transaction_confirming_block
    &&& a.update.block_count == b.update.block_count
    &&& a.update.purged_blocks_count == b.update.purged_blocks_count
}

pub proof fn lemma_burn_all_keeps_frame(
    cache: CacheView,
    db: StoreView,
    height: u32,
    txid: SerializedTxid,
    burned: Seq<RuneAmount>,
    mempool: bool,
)
    ensures
        same_frame(cache, cache.burn_all(db, height, txid, burned, mempool).0),
    decreases burned.len(),
{
    if burned.len() > 0 {
        let (next, err) = cache.burn(db, height, txid, burned[0], mempool);
        if err.is_none() {
            lemma_burn_all_keeps_frame(next, db, height, txid, burned.skip(1), mempool);
        }
    }
}

pub proof fn lemma_spend_all_keeps_frame(cache: CacheView, db: StoreView, inputs: Seq<SpentInputView>)
    ensures
        same_frame(cache, cache.spend_all(db, inputs)),
    decreases inputs.len(),
{
    if inputs.len() > 0 {
        lemma_spend_all_keeps_frame(cache.spend(db, inputs[0].outpoint), db, inputs.skip(1));
    }
}

pub proof fn lemma_produce_all_keeps_frame(
    cache: CacheView,
    height: u32,
    txid: SerializedTxid,
    outputs: Seq<TxOutEntryView>,
    from: nat,
    mempool: bool,
)
    ensures
        same_frame(cache, cache.produce_all(height, txid, outputs, from, mempool)),
    decreases outputs.len() - from,
{
    if from < outputs.len() {
        lemma_produce_all_keeps_frame(
            cache.produce(height, txid, from as u32, outputs[from as int], mempool),
            height,
            txid,
            outputs,
            from + 1,
            mempool,
        );
    }
}

pub proof fn lemma_touch_all_keeps_frame(cache: CacheView, ids: Seq<RuneId>, txid: SerializedTxid)
    ensures
        same_frame(cache, cache.touch_all(ids, txid)),
    decreases ids.len(),
{
    if ids.len() > 0 {
        lemma_touch_all_keeps_frame(cache.touch(ids[0], txid), ids.skip(1), txid);
    }
}

/// Applying a state change leaves the frame of the cache alone.
pub proof fn lemma_save_keeps_frame(
    cache: CacheView,
    db: StoreView,
    block_time: u32,
    height: u32,
    txid: SerializedTxid,
    artifact: Option<ArtifactView>,
    change: TransactionStateChangeView,
    icon: Option<InscriptionId>,
    mempool: bool,
)
    ensures
        same_frame(
            cache,
            cache.save(db, block_time, height, txid, artifact, change, icon, mempool).0,
        ),
{
    reveal(CacheView::save);
    lemma_burn_all_keeps_frame(cache, db, height, txid, change.burned, mempool);
    let (burned, e1) = cache.burn_all(db, height, txid, change.burned, mempool);
    if e1.is_none() {
        let (minted, e2) = match change.minted {
            Some(m) => burned.mint(db, height, txid, m, mempool),
            None => (burned, None),
        };
        if e2.is_none() {
            let (etched, e3) = match change.etched {
                Some((id, rune)) => minted.etch(
                    block_time,
                    height,
                    txid,
                    id,
                    rune,
                    artifact,
                    icon,
                    mempool,
                ),
                None => (minted, None),
            };
            if e3.is_none() {
                lemma_spend_all_keeps_frame(etched, db, change.inputs);
                let spent = etched.spend_all(db, change.inputs);
                lemma_produce_all_keeps_frame(spent, height, txid, change.outputs, 0, mempool);
                let produced = spent.produce_all(height, txid, change.outputs, 0, mempool);
                let recorded = CacheView {
                    update: crate::store::BatchUpdateView {
                        tx_state_changes: produced.update.tx_state_changes.insert(txid, change),
                        ..produced.update
                    },
                    ..produced
                };
                lemma_touch_all_keeps_frame(recorded, change.rune_ids(), txid);
            }
        }
    }
}

/// Indexing the transactions of a block leaves the frame of the cache
/// alone.
pub proof fn lemma_run_keeps_frame(
    progress: BlockProgress,
    db: StoreView,
    chain: Chain,
    height: u32,
    block_time: u32,
    txs: Seq<IndexedTransactionView>,
    from: nat,
)
    ensures
        same_frame(progress.cache, progress.run(db, chain, height, block_time, txs, from).cache),
    decreases txs.len() - from,
{
    if from < txs.len() && progress.error.is_none() {
        reveal(BlockProgress::step);
        let tx = txs[from as int];
        let next = progress.step(db, chain, height, block_time, from as u32, tx);
        match index_runes_spec(
            progress.cache,
            db,
            height as u64,
            from as u32,
            tx.transaction,
            deciphered(tx.transaction.scripts),
            minimum_rune(chain, height),
            tx.commitment,
        ) {
            Err(_) => {},
            Ok(change) => {
                lemma_save_keeps_frame(
                    progress.cache,
                    db,
                    block_time,
                    height,
                    tx.txid,
                    message_for(change, tx.transaction),
                    change,
                    tx.icon,
                    false,
                );
            },
        }
        lemma_run_keeps_frame(next, db, chain, height, block_time, txs, from + 1);
    }
}

/// Whether every rune of the map has been minted no more often than its
/// cap allows.
pub open spec fn runes_within_caps(runes: Map<RuneId, RuneEntry>) -> bool {
    forall|id: RuneId| runes.contains_key(id) ==> (#[trigger] runes[id]).within_cap()
}

/// Whether the runes that the store holds and those that the cache has
/// staged respect their caps.
pub open spec fn caps_hold(cache: CacheView, db: StoreView) -> bool {
    runes_within_caps(db.runes) && runes_within_caps(cache.update.runes)
}

/// Whether two caches see the same runes with the same counts of mints,
/// the same terms and the same blocks, and have staged the same other
/// things about runes.
pub open spec fn same_mints(a: CacheView, b: CacheView, db: StoreView) -> bool {
    &&& forall|id: RuneId| a.rune(db, id).is_some() == (#[trigger] b.rune(db, id)).is_some()
    &&& forall|id: RuneId|
        a.rune(db, id).is_some() ==> {
            &&& a.rune(db, id).unwrap().mints == (#[trigger] b.rune(db, id)).unwrap().mints
            &&& a.rune(db, id).unwrap().terms == b.rune(db, id).unwrap().terms
            &&& a.rune(db, id).unwrap().block == b.rune(db, id).unwrap().block
        }
    &&& runes_within_caps(a.update.runes) ==> runes_within_caps(b.update.runes)
}

pub proof fn lemma_burn_keeps_mints(
    cache: CacheView,
    db: StoreView,
    height: u32,
    txid: SerializedTxid,
    burned: RuneAmount,
    mempool: bool,
)
    requires
        runes_within_caps(db.runes),
    ensures
        same_mints(cache, cache.burn(db, height, txid, burned, mempool).0, db),
{
    let next = cache.burn(db, height, txid, burned, mempool).0;
    if runes_within_caps(cache.update.runes) {
        assert forall|id: RuneId| next.update.runes.contains_key(id) implies (
        #[trigger] next.update.runes[id]).within_cap() by {
            if id == burned.rune_id && cache.rune(db, id).is_some() {
                if cache.update.runes.contains_key(id) {
                    assert(cache.update.runes[id].within_cap());
                } else {
                    assert(db.runes[id].within_cap());
                }
            } else {
                assert(cache.update.runes.contains_key(id));
            }
        }
    }
}

pub proof fn lemma_burn_all_keeps_mints(
    cache: CacheView,
    db: StoreView,
    height: u32,
    txid: SerializedTxid,
    burned: Seq<RuneAmount>,
    mempool: bool,
)
    requires
        runes_within_caps(db.runes),
    ensures
        same_mints(cache, cache.burn_all(db, height, txid, burned, mempool).0, db),
    decreases burned.len(),
{
    if burned.len() > 0 {
        let (next, err) = cache.burn(db, height, txid, burned[0], mempool);
        lemma_burn_keeps_mints(cache, db, height, txid, burned[0], mempool);
        if err.is_none() {
            lemma_burn_all_keeps_mints(next, db, height, txid, burned.skip(1), mempool);
            let last = next.burn_all(db, height, txid, burned.skip(1), mempool).0;
            assert forall|id: RuneId| cache.rune(db, id).is_some() == (#[trigger] last.rune(
                db,
                id,
            )).is_some() by {
                assert(cache.rune(db, id).is_some() == next.rune(db, id).is_some());
            }
            assert forall|id: RuneId| cache.rune(db, id).is_some() implies {
                &&& cache.rune(db, id).unwrap().mints == (#[trigger] last.rune(db, id)).unwrap().mints
                &&& cache.rune(db, id).unwrap().terms == last.rune(db, id).unwrap().terms
                &&& cache.rune(db, id).unwrap().block == last.rune(db, id).unwrap().block
            } by {
                assert(cache.rune(db, id).unwrap().mints == next.rune(db, id).unwrap().mints);
            }
        }
    }
}

/// Spending inputs, staging outputs and noting transactions leave the
/// staged runes alone.
pub proof fn lemma_spend_all_keeps_runes(cache: CacheView, db: StoreView, inputs: Seq<SpentInputView>)
    ensures
        cache.spend_all(db, inputs).update.runes == cache.update.runes,
        cache.spend_all(db, inputs).update.rune_count == cache.update.rune_count,
    decreases inputs.len(),
{
    if inputs.len() > 0 {
        lemma_spend_all_keeps_runes(cache.spend(db, inputs[0].outpoint), db, inputs.skip(1));
    }
}

pub proof fn lemma_produce_all_keeps_runes(
    cache: CacheView,
    height: u32,
    txid: SerializedTxid,
    outputs: Seq<TxOutEntryView>,
    from: nat,
    mempool: bool,
)
    ensures
        cache.produce_all(height, txid, outputs, from, mempool).update.runes == cache.update.runes,
        cache.produce_all(height, txid, outputs, from, mempool).update.rune_count
            == cache.update.rune_count,
    decreases outputs.len() - from,
{
    if from < outputs.len() {
        lemma_produce_all_keeps_runes(
            cache.produce(height, txid, from as u32, outputs[from as int], mempool),
            height,
            txid,
            outputs,
            from + 1,
            mempool,
        );
    }
}

pub proof fn lemma_touch_all_keeps_runes(cache: CacheView, ids: Seq<RuneId>, txid: SerializedTxid)
    ensures
        cache.touch_all(ids, txid).update.runes == cache.update.runes,
        cache.touch_all(ids, txid).update.rune_count == cache.update.rune_count,
    decreases ids.len(),
{
    if ids.len() > 0 {
        lemma_touch_all_keeps_runes(cache.touch(ids[0], txid), ids.skip(1), txid);
    }
}

pub proof fn lemma_settle_keeps_runes(
    cache: CacheView,
    db: StoreView,
    height: u32,
    txid: SerializedTxid,
    change: TransactionStateChangeView,
    mempool: bool,
)
    ensures
        cache.settle(db, height, txid, change, mempool).update.runes == cache.update.runes,
        cache.settle(db, height, txid, change, mempool).update.rune_count
            == cache.update.rune_count,
{
    lemma_spend_all_keeps_runes(cache, db, change.inputs);
    let spent = cache.spend_all(db, change.inputs);
    lemma_produce_all_keeps_runes(spent, height, txid, change.outputs, 0, mempool);
    let produced = spent.produce_all(height, txid, change.outputs, 0, mempool);
    let recorded = CacheView {
        update: crate::store::BatchUpdateView {
            tx_state_changes: produced.update.tx_state_changes.insert(txid, change),
            ..produced.update
        },
        ..produced
    };
    lemma_touch_all_keeps_runes(recorded, change.rune_ids(), txid);
}

/// Applying a state change keeps the mints of every rune within its cap,
/// provided that what the state change mints can be minted.
pub proof fn lemma_save_keeps_caps(
    cache: CacheView,
    db: StoreView,
    block_time: u32,
    height: u32,
    txid: SerializedTxid,
    artifact: Option<ArtifactView>,
    change: TransactionStateChangeView,
    icon: Option<InscriptionId>,
    mempool: bool,
)
    requires
        caps_hold(cache, db),
        change.minted.is_some() ==> {
            &&& cache.rune(db, change.minted.unwrap().rune_id).is_some()
            &&& cache.rune(db, change.minted.unwrap().rune_id).unwrap().spec_mintable(
                height as u64,
            ).is_ok()
        },
    ensures
        caps_hold(cache.save(db, block_time, height, txid, artifact, change, icon, mempool).0, db),
{
    reveal(CacheView::save);
    lemma_burn_all_keeps_mints(cache, db, height, txid, change.burned, mempool);
    let (burned, e1) = cache.burn_all(db, height, txid, change.burned, mempool);
    if e1.is_none() {
        let (minted, e2) = match change.minted {
            Some(m) => burned.mint(db, height, txid, m, mempool),
            None => (burned, None),
        };
        assert(runes_within_caps(minted.update.runes)) by {
            if change.minted.is_some() && e2.is_none() {
                let m = change.minted.unwrap();
                let before = cache.rune(db, m.rune_id).unwrap();
                let entry = burned.rune(db, m.rune_id).unwrap();
                assert(entry.mints == before.mints && entry.terms == before.terms);
                assert forall|id: RuneId| minted.update.runes.contains_key(id) implies (
                #[trigger] minted.update.runes[id]).within_cap() by {
                    if id != m.rune_id {
                        assert(burned.update.runes.contains_key(id));
                    }
                }
            }
        }
        if e2.is_none() {
            let (etched, e3) = match change.etched {
                Some((id, rune)) => minted.etch(
                    block_time,
                    height,
                    txid,
                    id,
                    rune,
                    artifact,
                    icon,
                    mempool,
                ),
                None => (minted, None),
            };
            assert(runes_within_caps(etched.update.runes)) by {
                if change.etched.is_some() && e3.is_none() {
                    let new_id = change.etched.unwrap().0;
                    assert forall|id: RuneId| etched.update.runes.contains_key(id) implies (
                    #[trigger] etched.update.runes[id]).within_cap() by {
                        if id != new_id {
                            assert(minted.update.runes.contains_key(id));
                        }
                    }
                }
            }
            if e3.is_none() {
                lemma_settle_keeps_runes(etched, db, height, txid, change, mempool);
            }
        }
    }
}

/// Indexing a transaction of a block keeps the mints of every rune within
/// its cap.
pub proof fn lemma_step_keeps_caps(
    progress: BlockProgress,
    db: StoreView,
    chain: Chain,
    height: u32,
    block_time: u32,
    i: u32,
    tx: IndexedTransactionView,
)
    requires
        caps_hold(progress.cache, db),
    ensures
        caps_hold(progress.step(db, chain, height, block_time, i, tx).cache, db),
{
    reveal(BlockProgress::step);
    reveal(index_runes_spec);
    match index_runes_spec(
        progress.cache,
        db,
        height as u64,
        i,
        tx.transaction,
        deciphered(tx.transaction.scripts),
        minimum_rune(chain, height),
        tx.commitment,
    ) {
        Err(_) => {},
        Ok(change) => {
            lemma_save_keeps_caps(
                progress.cache,
                db,
                block_time,
                height,
                tx.txid,
                message_for(change, tx.transaction),
                change,
                tx.icon,
                false,
            );
        },
    }
}

/// Indexing the transactions of a block keeps the mints of every rune
/// within its cap.
pub proof fn lemma_run_keeps_caps(
    progress: BlockProgress,
    db: StoreView,
    chain: Chain,
    height: u32,
    block_time: u32,
    txs: Seq<IndexedTransactionView>,
    from: nat,
)
    requires
        caps_hold(progress.cache, db),
    ensures
        caps_hold(progress.run(db, chain, height, block_time, txs, from).cache, db),
    decreases txs.len() - from,
{
    if from < txs.len() && progress.error.is_none() {
        lemma_step_keeps_caps(progress, db, chain, height, block_time, from as u32, txs[from as int]);
        lemma_run_keeps_caps(
            progress.step(db, chain, height, block_time, from as u32, txs[from as int]),
            db,
            chain,
            height,
            block_time,
            txs,
            from + 1,
        );
    }
}

/// Whether `b` is `a` with other staged deletions and another purge mark.
pub open spec fn purge_frame(a: CacheView, b: CacheView) -> bool {
    b == (CacheView {
        delete: b.delete,
        update: crate::store::BatchUpdateView {
            purged_blocks_count: b.update.purged_blocks_count,
            ..a.update
        },
        ..a
    })
}

pub proof fn lemma_stage_txs_frame(
    cache: CacheView,
    db: StoreView,
    txids: Seq<SerializedTxid>,
    keep_spent: bool,
)
    ensures
        purge_frame(cache, cache.stage_txs(db, txids, keep_spent)),
        cache.stage_txs(db, txids, keep_spent).update == cache.update,
    decreases txids.len(),
{
    if txids.len() > 0 {
        lemma_stage_txs_frame(
            cache.stage_tx(db, txids[0], keep_spent),
            db,
            txids.skip(1),
            keep_spent,
        );
    }
}

/// Purging changes nothing of a cache but the staged deletions and the
/// purge mark.
pub proof fn lemma_purge_range_frame(
    cache: CacheView,
    db: StoreView,
    from: u64,
    to: u64,
    keep_spent: bool,
)
    ensures
        purge_frame(cache, cache.purge_range(db, from, to, keep_spent).0),
    decreases to - from,
{
    if from < to {
        match cache.purge_block(db, from, keep_spent) {
            Err(_) => {},
            Ok(next) => {
                let block = cache.block_by_height(db, from).unwrap();
                lemma_stage_txs_frame(cache, db, block.tx_ids, keep_spent);
                lemma_purge_range_frame(next, db, (from + 1) as u64, to, keep_spent);
            },
        }
    }
}

pub proof fn lemma_prepared_frame(cache: CacheView, db: StoreView)
    ensures
        purge_frame(cache, cache.prepared(db).0),
{
    if !cache.settings.mempool && cache.last_block_height.is_some() {
        let depth = cache.settings.max_recoverable_reorg_depth;
        let last = cache.last_block_height.unwrap();
        if last >= depth {
            lemma_purge_range_frame(
                cache,
                db,
                cache.first_purgeable(depth),
                (last - depth) as u64,
                cache.settings.index_spent_outputs,
            );
        }
    }
}

/// Committing a window keeps the mints of every rune within its cap.
pub proof fn lemma_commit_keeps_caps(cache: CacheView, db: StoreView)
    requires
        caps_hold(cache, db),
    ensures
        runes_within_caps(crate::cache::committed(db, cache.prepared(db).0).runes),
        caps_hold(cache.prepared(db).0, db),
        caps_hold(
            cache.prepared(db).0.after_flush(),
            crate::cache::committed(db, cache.prepared(db).0),
        ),
{
    lemma_prepared_frame(cache, db);
    let p = cache.prepared(db).0;
    let after = crate::cache::committed(db, p);
    assert(p.update.runes == cache.update.runes);
    assert forall|id: RuneId| after.runes.contains_key(id) implies (#[trigger] after.runes[id]).within_cap() by {
        if p.update.runes.contains_key(id) {
            assert(cache.update.runes[id].within_cap());
        } else {
            assert(db.runes.contains_key(id));
        }
    }
}

pub proof fn lemma_unburn_all_keeps_caps(db: StoreView, burned: Seq<RuneAmount>, mempool: bool)
    requires
        runes_within_caps(db.runes),
    ensures
        runes_within_caps(db.unburn_all(burned, mempool).runes),
    decreases burned.len(),
{
    if burned.len() > 0 {
        let next = db.unburn(burned.last(), mempool);
        assert forall|id: RuneId| next.runes.contains_key(id) implies (#[trigger] next.runes[id]).within_cap() by {
            assert(db.runes.contains_key(id));
            assert(db.runes[id].within_cap());
        }
        lemma_unburn_all_keeps_caps(next, burned.drop_last(), mempool);
    }
}

pub proof fn lemma_untouch_all_keeps_runes(db: StoreView, ids: Seq<RuneId>, txid: SerializedTxid)
    ensures
        db.untouch_all(ids, txid).runes == db.runes,
    decreases ids.len(),
{
    if ids.len() > 0 {
        lemma_untouch_all_keeps_runes(db.untouch(ids.last(), txid), ids.drop_last(), txid);
    }
}

pub proof fn lemma_unproduce_all_keeps_runes(
    db: StoreView,
    txid: SerializedTxid,
    outputs: Seq<TxOutEntryView>,
    below: nat,
    mempool: bool,
)
    ensures
        db.unproduce_all(txid, outputs, below, mempool).runes == db.runes,
    decreases below,
{
    if below > 0 {
        lemma_unproduce_all_keeps_runes(
            db.unproduce(txid, (below - 1) as u32, outputs[below - 1], mempool),
            txid,
            outputs,
            (below - 1) as nat,
            mempool,
        );
    }
}

pub proof fn lemma_unspend_all_keeps_runes(db: StoreView, inputs: Seq<SpentInputView>, mempool: bool)
    ensures
        db.unspend_all(inputs, mempool).runes == db.runes,
    decreases inputs.len(),
{
    if inputs.len() > 0 {
        lemma_unspend_all_keeps_runes(
            db.unspend(inputs.last().outpoint, mempool),
            inputs.drop_last(),
            mempool,
        );
    }
}

/// Taking a transaction back keeps the mints of every rune within its cap.
pub proof fn lemma_revert_keeps_caps(
    db: StoreView,
    txid: SerializedTxid,
    change: TransactionStateChangeView,
    mempool: bool,
)
    requires
        runes_within_caps(db.runes),
    ensures
        runes_within_caps(db.revert(txid, change, mempool).runes),
{
    lemma_untouch_all_keeps_runes(db, change.rune_ids(), txid);
    let untouched = db.untouch_all(change.rune_ids(), txid).forget(txid, mempool);
    lemma_unproduce_all_keeps_runes(untouched, txid, change.outputs, change.outputs.len(), mempool);
    let unproduced = untouched.unproduce_all(txid, change.outputs, change.outputs.len(), mempool);
    lemma_unspend_all_keeps_runes(unproduced, change.inputs, mempool);
    let unspent = unproduced.unspend_all(change.inputs, mempool);
    assert(unspent.runes == db.runes);
    let unetched = match change.etched {
        Some((id, rune)) => unspent.unetch(id, rune),
        None => unspent,
    };
    assert forall|id: RuneId| unetched.runes.contains_key(id) implies (
    #[trigger] unetched.runes[id]).within_cap() by {
        assert(db.runes.contains_key(id));
    }
    let unminted = match change.minted {
        Some(m) => unetched.unmint(m.rune_id, mempool),
        None => unetched,
    };
    assert forall|id: RuneId| unminted.runes.contains_key(id) implies (
    #[trigger] unminted.runes[id]).within_cap() by {
        assert(unetched.runes.contains_key(id));
        assert(unetched.runes[id].within_cap());
    }
    lemma_unburn_all_keeps_caps(unminted, change.burned, mempool);
}

pub proof fn lemma_revert_txs_keep_caps(db: StoreView, tx_ids: Seq<SerializedTxid>, mempool: bool)
    requires
        runes_within_caps(db.runes),
    ensures
        runes_within_caps(crate::updater::revert_txs(db, tx_ids, mempool).runes),
    decreases tx_ids.len(),
{
    if tx_ids.len() > 0 {
        let txid = tx_ids.last();
        let next = match db.tx_state_change(txid, Some(mempool)) {
            Some(change) => {
                lemma_revert_keeps_caps(db, txid, change, mempool);
                db.revert(txid, change, mempool)
            },
            None => db,
        };
        lemma_revert_txs_keep_caps(next, tx_ids.drop_last(), mempool);
    }
}

pub proof fn lemma_revert_blocks_keep_caps(db: StoreView, height: u64, from: u64, depth: u64)
    requires
        runes_within_caps(db.runes),
    ensures
        runes_within_caps(crate::updater::revert_blocks(db, height, from, depth).0.runes),
    decreases depth - from,
{
    if from <= depth && from <= height {
        let h = (height - from) as u64;
        if db.block_hashes.contains_key(h) && db.blocks.contains_key(db.block_hashes[h]) {
            let block = db.blocks[db.block_hashes[h]];
            lemma_revert_txs_keep_caps(db, block.tx_ids, false);
            if from < depth {
                lemma_revert_blocks_keep_caps(
                    crate::updater::revert_block_spec(db, h, block),
                    height,
                    (from + 1) as u64,
                    depth,
                );
            }
        }
    }
}

/// Taking transactions out of the store keeps the mints of every rune
/// within its cap.
pub proof fn lemma_remove_txs_keep_caps(db: StoreView, txids: Seq<SerializedTxid>, mempool: bool)
    requires
        runes_within_caps(db.runes),
    ensures
        runes_within_caps(crate::updater::remove_txs_spec(db, txids, mempool).runes),
    decreases txids.len(),
{
    if txids.len() > 0 {
        let txid = txids[0];
        let left = StoreView { mempool_txs: db.mempool_txs.remove(txid), ..db };
        let next = match left.tx_state_change(txid, Some(mempool)) {
            Some(change) => {
                lemma_revert_keeps_caps(left, txid, change, mempool);
                left.revert(txid, change, mempool)
            },
            None => left,
        };
        lemma_remove_txs_keep_caps(next, txids.skip(1), mempool);
    }
}

/// Committing a window keeps the mints of every rune within its cap, in
/// the store and in the cache.
pub proof fn lemma_commit_spec_keeps_caps(
    cache: CacheView,
    addresses: crate::address_updater::AddressUpdaterView,
    db: StoreView,
    settings: crate::settings::Settings,
)
    requires
        caps_hold(cache, db),
    ensures
        caps_hold(
            crate::updater::commit_spec(cache, addresses, db, settings).cache,
            crate::updater::commit_spec(cache, addresses, db, settings).db,
        ),
{
    reveal(crate::updater::commit_spec);
    let (batched, batch_error) = if settings.index_addresses {
        addresses.batch(cache, db)
    } else {
        (cache, None)
    };
    assert(batched.update.runes == cache.update.runes);
    if batch_error.is_none() {
        let told = if settings.index_addresses {
            batched.with_address_events(settings.chain)
        } else {
            batched
        };
        assert(told.update.runes == cache.update.runes);
        lemma_commit_keeps_caps(told, db);
    }
}

/// Taking in a block keeps the mints of every rune within its cap, in the
/// store and in the cache.
pub proof fn lemma_apply_block_keeps_caps(
    cache: CacheView,
    addresses: crate::address_updater::AddressUpdaterView,
    db: StoreView,
    settings: crate::settings::Settings,
    block: crate::updater::FetchedBlockView,
    was_at_tip: bool,
)
    requires
        caps_hold(cache, db),
    ensures
        caps_hold(
            crate::updater::apply_block_spec(cache, addresses, db, settings, block, was_at_tip).cache,
            crate::updater::apply_block_spec(cache, addresses, db, settings, block, was_at_tip).db,
        ),
{
    reveal(crate::updater::apply_block_spec);
    let height = cache.update.block_count;
    if was_at_tip {
        match crate::updater::reorg_check(
            db,
            block.header.prev_blockhash,
            block.node_hashes,
            height,
            settings.max_recoverable_reorg_depth,
        ) {
            Err(crate::updater::ReorgError::Recoverable { height, depth }) => {
                lemma_revert_blocks_keep_caps(
                    StoreView {
                        block_count: if height >= depth {
                            (height - depth) as u64
                        } else {
                            0
                        },
                        ..db
                    },
                    height,
                    1,
                    depth,
                );
            },
            _ => {},
        }
    }
    if height < u32::MAX {
        let start = BlockProgress {
            cache,
            tx_ids: Seq::empty(),
            etched_runes: Seq::empty(),
            error: None,
        };
        lemma_run_keeps_caps(
            start,
            db,
            settings.chain,
            height as u32,
            block.header.time,
            block.txdata,
            0,
        );
        let progress = crate::updater::record_block(cache, db, settings, block, height as u32);
        if progress.error.is_none() {
            let staged = crate::updater::stage_block(
                progress.cache,
                height,
                block,
                progress.tx_ids,
                progress.etched_runes,
            );
            let noted = if settings.index_addresses {
                crate::updater::note_txs(addresses, block.txdata, 0)
            } else {
                addresses
            };
            lemma_commit_spec_keeps_caps(staged, noted, db, settings);
        }
    }
}

/// Taking in blocks keeps the mints of every rune within its cap.
pub proof fn lemma_apply_blocks_keep_caps(
    cache: CacheView,
    addresses: crate::address_updater::AddressUpdaterView,
    db: StoreView,
    settings: crate::settings::Settings,
    blocks: Seq<crate::updater::FetchedBlockView>,
    from: nat,
    was_at_tip: bool,
)
    requires
        caps_hold(cache, db),
    ensures
        caps_hold(
            crate::updater::apply_blocks_spec(
                cache,
                addresses,
                db,
                settings,
                blocks,
                from,
                was_at_tip,
            ).cache,
            crate::updater::apply_blocks_spec(
                cache,
                addresses,
                db,
                settings,
                blocks,
                from,
                was_at_tip,
            ).db,
        ),
    decreases blocks.len() - from,
{
    if from < blocks.len() {
        lemma_apply_block_keeps_caps(cache, addresses, db, settings, blocks[from as int], was_at_tip);
        let one = crate::updater::apply_block_spec(
            cache,
            addresses,
            db,
            settings,
            blocks[from as int],
            was_at_tip,
        );
        if one.error.is_none() {
            lemma_apply_blocks_keep_caps(
                one.cache,
                one.addresses,
                one.db,
                settings,
                blocks,
                from + 1,
                was_at_tip,
            );
        }
    }
}

/// An update with fetched blocks keeps the mints of every rune of the
/// store within its cap.
pub proof fn lemma_update_to_tip_keeps_caps(
    db: StoreView,
    settings: crate::settings::Settings,
    blocks: Seq<crate::updater::FetchedBlockView>,
    was_at_tip: bool,
    shutdown: bool,
)
    ensures
        runes_within_caps(db.runes) ==> runes_within_caps(
            crate::updater::update_to_tip_spec(db, settings, blocks, was_at_tip, shutdown).db.runes,
        ),
{
    if runes_within_caps(db.runes) {
        let fresh = CacheView::fresh(db, crate::updater::block_cache_settings(settings));
        let waiting = if shutdown {
            Seq::empty()
        } else {
            blocks
        };
        lemma_apply_blocks_keep_caps(
            fresh,
            crate::address_updater::AddressUpdaterView::empty(),
            db,
            settings,
            waiting,
            0,
            was_at_tip,
        );
        let done = crate::updater::apply_blocks_spec(
            fresh,
            crate::address_updater::AddressUpdaterView::empty(),
            db,
            settings,
            waiting,
            0,
            was_at_tip,
        );
        if done.error.is_none() {
            lemma_commit_spec_keeps_caps(done.cache, done.addresses, done.db, settings);
        }
    }
}

/// Indexing a transaction of the mempool keeps the mints of every rune
/// within its cap.
pub proof fn lemma_index_tx_keeps_caps(
    cache: CacheView,
    db: StoreView,
    chain: Chain,
    now: u32,
    tx: IndexedTransactionView,
)
    requires
        caps_hold(cache, db),
    ensures
        caps_hold(crate::updater::index_tx_spec(cache, db, chain, now, tx).0, db),
{
    reveal(crate::updater::index_tx_spec);
    reveal(index_runes_spec);
    if !cache.tx_exists(db, tx.txid) && cache.update.block_count <= u32::MAX {
        let height = cache.update.block_count as u32;
        match index_runes_spec(
            cache,
            db,
            height as u64,
            0,
            tx.transaction,
            deciphered(tx.transaction.scripts),
            minimum_rune(chain, height),
            tx.commitment,
        ) {
            Err(_) => {},
            Ok(change) => {
                lemma_save_keeps_caps(
                    cache,
                    db,
                    now,
                    height,
                    tx.txid,
                    message_for(change, tx.transaction),
                    change,
                    tx.icon,
                    true,
                );
            },
        }
    }
}

pub proof fn lemma_index_txs_keep_caps(
    cache: CacheView,
    db: StoreView,
    chain: Chain,
    now: u32,
    txs: Seq<IndexedTransactionView>,
    from: nat,
)
    requires
        caps_hold(cache, db),
    ensures
        caps_hold(crate::updater::index_txs_spec(cache, db, chain, now, txs, from).0, db),
    decreases txs.len() - from,
{
    if from < txs.len() {
        lemma_index_tx_keeps_caps(cache, db, chain, now, txs[from as int]);
        let one = crate::updater::index_tx_spec(cache, db, chain, now, txs[from as int]);
        if one.1.is_none() {
            lemma_index_txs_keep_caps(one.0, db, chain, now, txs, from + 1);
        }
    }
}

/// An update of the mempool side keeps the mints of every rune of the
/// store within its cap.
pub proof fn lemma_index_mempool_keeps_caps(
    db: StoreView,
    settings: crate::settings::Settings,
    new_txs: Seq<IndexedTransactionView>,
    removed: Seq<SerializedTxid>,
    now: u32,
)
    ensures
        runes_within_caps(db.runes) ==> runes_within_caps(
            crate::updater::index_mempool_spec(db, settings, new_txs, removed, now).0.runes,
        ),
{
    if runes_within_caps(db.runes) {
        let (indexed, events, err) = crate::updater::index_new_txs_spec(db, settings, new_txs, now);
        if new_txs.len() > 0 {
            let fresh = CacheView::fresh(db, crate::updater::mempool_cache_settings(settings));
            lemma_index_txs_keep_caps(fresh, db, settings.chain, now, new_txs, 0);
            let (cache, e) = crate::updater::index_txs_spec(
                fresh,
                db,
                settings.chain,
                now,
                new_txs,
                0,
            );
            if e.is_none() {
                let noted = if settings.index_addresses {
                    crate::updater::note_txs(
                        crate::address_updater::AddressUpdaterView::empty(),
                        new_txs,
                        0,
                    )
                } else {
                    crate::address_updater::AddressUpdaterView::empty()
                };
                lemma_commit_spec_keeps_caps(cache, noted, db, settings);
            }
        }
        if err.is_none() {
            lemma_remove_txs_keep_caps(indexed, removed, true);
        }
    }
}

/// What an output holds once it may have been spent: an output that is
/// known is marked as spent if it was hit.
pub open spec fn marked(entry: Option<TxOutEntryView>, hit: bool) -> Option<TxOutEntryView> {
    match entry {
        Some(e) => if hit {
            Some(TxOutEntryView { spent: true, ..e })
        } else {
            Some(e)
        },
        None => None,
    }
}

/// Spending inputs marks exactly the known outputs among them as spent and
/// leaves every other output as it is.
pub proof fn lemma_spend_all_marks_inputs(cache: CacheView, db: StoreView, inputs: Seq<SpentInputView>)
    ensures
        forall|o: crate::ids::OutPoint| #[trigger]
            cache.spend_all(db, inputs).tx_out(db, o) == marked(
                cache.tx_out(db, o),
                crate::cache::outpoints_of(inputs).contains(o),
            ),
    decreases inputs.len(),
{
    if inputs.len() > 0 {
        let first = inputs[0].outpoint;
        let next = cache.spend(db, first);
        lemma_spend_all_marks_inputs(next, db, inputs.skip(1));
        assert forall|o: crate::ids::OutPoint| #[trigger]
            cache.spend_all(db, inputs).tx_out(db, o) == marked(
                cache.tx_out(db, o),
                crate::cache::outpoints_of(inputs).contains(o),
            ) by {
            let rest = crate::cache::outpoints_of(inputs.skip(1));
            let all = crate::cache::outpoints_of(inputs);
            if rest.contains(o) {
                let i = choose|i: int|
                    0 <= i < inputs.skip(1).len() && (#[trigger] inputs.skip(1)[i]).outpoint == o;
                assert(inputs[i + 1].outpoint == o);
            }
            if all.contains(o) && o != first {
                let i = choose|i: int| 0 <= i < inputs.len() && (#[trigger] inputs[i]).outpoint == o;
                assert(inputs.skip(1)[i - 1].outpoint == o);
            }
            assert(inputs[0].outpoint == first);
            assert(all.contains(o) <==> (o == first || rest.contains(o)));
            assert(next.spend_all(db, inputs.skip(1)).tx_out(db, o) == marked(
                next.tx_out(db, o),
                rest.contains(o),
            ));
        }
    } else {
        assert forall|o: crate::ids::OutPoint|
            !(#[trigger] crate::cache::outpoints_of(inputs).contains(o)) by {}
    }
}

pub proof fn lemma_burn_all_keeps_txouts(
    cache: CacheView,
    db: StoreView,
    height: u32,
    txid: SerializedTxid,
    burned: Seq<RuneAmount>,
    mempool: bool,
)
    ensures
        cache.burn_all(db, height, txid, burned, mempool).0.update.txouts == cache.update.txouts,
    decreases burned.len(),
{
    if burned.len() > 0 {
        let (next, err) = cache.burn(db, height, txid, burned[0], mempool);
        if err.is_none() {
            lemma_burn_all_keeps_txouts(next, db, height, txid, burned.skip(1), mempool);
        }
    }
}

pub proof fn lemma_touch_all_keeps_txouts(cache: CacheView, ids: Seq<RuneId>, txid: SerializedTxid)
    ensures
        cache.touch_all(ids, txid).update.txouts == cache.update.txouts,
    decreases ids.len(),
{
    if ids.len() > 0 {
        lemma_touch_all_keeps_txouts(cache.touch(ids[0], txid), ids.skip(1), txid);
    }
}

/// Staging the outputs of a transaction changes nothing of the outputs of
/// other transactions.
pub proof fn lemma_produce_all_is_local(
    cache: CacheView,
    db: StoreView,
    height: u32,
    txid: SerializedTxid,
    outputs: Seq<TxOutEntryView>,
    from: nat,
    mempool: bool,
)
    ensures
        forall|o: crate::ids::OutPoint|
            o.txid != txid ==> #[trigger] cache.produce_all(
                height,
                txid,
                outputs,
                from,
                mempool,
            ).tx_out(db, o) == cache.tx_out(db, o),
    decreases outputs.len() - from,
{
    if from < outputs.len() {
        lemma_produce_all_is_local(
            cache.produce(height, txid, from as u32, outputs[from as int], mempool),
            db,
            height,
            txid,
            outputs,
            from + 1,
            mempool,
        );
    }
}

/// A transaction spends exactly its inputs: after its state change was
/// applied, an output of another transaction is spent if and only if it
/// was spent before or is among the inputs; nothing else about it changes.
pub proof fn lemma_save_spends_exactly_the_inputs(
    cache: CacheView,
    db: StoreView,
    block_time: u32,
    height: u32,
    txid: SerializedTxid,
    artifact: Option<ArtifactView>,
    change: TransactionStateChangeView,
    icon: Option<InscriptionId>,
    mempool: bool,
)
    requires
        cache.save(db, block_time, height, txid, artifact, change, icon, mempool).1.is_none(),
    ensures
        forall|o: crate::ids::OutPoint|
            o.txid != txid ==> #[trigger] cache.save(
                db,
                block_time,
                height,
                txid,
                artifact,
                change,
                icon,
                mempool,
            ).0.tx_out(db, o) == marked(
                cache.tx_out(db, o),
                crate::cache::input_outpoints(change).contains(o),
            ),
{
    reveal(CacheView::save);
    lemma_burn_all_keeps_txouts(cache, db, height, txid, change.burned, mempool);
    let (burned, e1) = cache.burn_all(db, height, txid, change.burned, mempool);
    let (minted, e2) = match change.minted {
        Some(m) => burned.mint(db, height, txid, m, mempool),
        None => (burned, None),
    };
    let (etched, e3) = match change.etched {
        Some((id, rune)) => minted.etch(block_time, height, txid, id, rune, artifact, icon, mempool),
        None => (minted, None),
    };
    assert(etched.update.txouts == cache.update.txouts);
    lemma_spend_all_marks_inputs(etched, db, change.inputs);
    let spent = etched.spend_all(db, change.inputs);
    lemma_produce_all_is_local(spent, db, height, txid, change.outputs, 0, mempool);
    let produced = spent.produce_all(height, txid, change.outputs, 0, mempool);
    let recorded = CacheView {
        update: crate::store::BatchUpdateView {
            tx_state_changes: produced.update.tx_state_changes.insert(txid, change),
            ..produced.update
        },
        ..produced
    };
    lemma_touch_all_keeps_txouts(recorded, change.rune_ids(), txid);
    let done = recorded.touch_all(change.rune_ids(), txid);
    assert forall|o: crate::ids::OutPoint| o.txid != txid implies #[trigger] done.tx_out(db, o)
        == marked(cache.tx_out(db, o), crate::cache::input_outpoints(change).contains(o)) by {
        assert(done.tx_out(db, o) == produced.tx_out(db, o));
        assert(produced.tx_out(db, o) == spent.tx_out(db, o));
        assert(spent.tx_out(db, o) == marked(
            etched.tx_out(db, o),
            crate::cache::outpoints_of(change.inputs).contains(o),
        ));
        assert(etched.tx_out(db, o) == cache.tx_out(db, o));
    }
}

/// Where spent outputs are kept, staging the deletions for transactions
/// stages no output for deletion.
pub proof fn lemma_stage_txs_keeps_outputs(cache: CacheView, db: StoreView, txids: Seq<SerializedTxid>)
    ensures
        cache.stage_txs(db, txids, true).delete.tx_outs == cache.delete.tx_outs,
        cache.stage_txs(db, txids, true).update == cache.update,
    decreases txids.len(),
{
    if txids.len() > 0 {
        lemma_stage_txs_keeps_outputs(cache.stage_tx(db, txids[0], true), db, txids.skip(1));
    }
}

/// Purging a block stages, for every transaction of the block, the
/// deletion of its state change and of the reverse script entries of the
/// outputs it consumed, and of these outputs exactly when spent outputs
/// are not kept; and the purge mark becomes the height of the block.
pub proof fn lemma_purge_block_covers(cache: CacheView, db: StoreView, height: u64, keep_spent: bool)
    requires
        cache.purge_block(db, height, keep_spent).is_ok(),
    ensures
        ({
            let block = cache.block_by_height(db, height).unwrap();
            let purged = cache.purge_block(db, height, keep_spent).unwrap();
            &&& purged.update.purged_blocks_count == height
            &&& forall|t: SerializedTxid|
                block.tx_ids.contains(t) ==> #[trigger] purged.delete.tx_state_changes.contains(t)
            &&& forall|t: SerializedTxid, o: crate::ids::OutPoint|
                block.tx_ids.contains(t) && cache.tx_state_change(db, t).is_some()
                    && #[trigger] crate::cache::input_outpoints(
                    cache.tx_state_change(db, t).unwrap(),
                ).contains(o) ==> {
                    &&& purged.delete.script_pubkeys_outpoints.contains(o)
                    &&& !keep_spent ==> purged.delete.tx_outs.contains(o)
                }
            &&& keep_spent ==> purged.delete.tx_outs == cache.delete.tx_outs
        }),
{
    let block = cache.block_by_height(db, height).unwrap();
    lemma_stage_txs_covers(cache, db, block.tx_ids, keep_spent);
    if keep_spent {
        lemma_stage_txs_keeps_outputs(cache, db, block.tx_ids);
    }
}

/// Staging the deletions for transactions only adds deletions, and covers
/// each of the transactions: its state change, and the outputs that it
/// consumed.
pub proof fn lemma_stage_txs_covers(
    cache: CacheView,
    db: StoreView,
    txids: Seq<SerializedTxid>,
    keep_spent: bool,
)
    ensures
        cache.delete.tx_state_changes.subset_of(
            cache.stage_txs(db, txids, keep_spent).delete.tx_state_changes,
        ),
        cache.delete.script_pubkeys_outpoints.subset_of(
            cache.stage_txs(db, txids, keep_spent).delete.script_pubkeys_outpoints,
        ),
        cache.delete.tx_outs.subset_of(cache.stage_txs(db, txids, keep_spent).delete.tx_outs),
        forall|t: SerializedTxid|
            txids.contains(t) ==> #[trigger] cache.stage_txs(
                db,
                txids,
                keep_spent,
            ).delete.tx_state_changes.contains(t),
        forall|t: SerializedTxid, o: crate::ids::OutPoint|
            txids.contains(t) && cache.tx_state_change(db, t).is_some()
                && #[trigger] crate::cache::input_outpoints(
                cache.tx_state_change(db, t).unwrap(),
            ).contains(o) ==> {
                &&& cache.stage_txs(db, txids, keep_spent).delete.script_pubkeys_outpoints.contains(o)
                &&& !keep_spent ==> cache.stage_txs(db, txids, keep_spent).delete.tx_outs.contains(o)
            },
    decreases txids.len(),
{
    if txids.len() > 0 {
        let next = cache.stage_tx(db, txids[0], keep_spent);
        lemma_stage_txs_covers(next, db, txids.skip(1), keep_spent);
        let done = cache.stage_txs(db, txids, keep_spent);
        assert forall|t: SerializedTxid| txids.contains(t) implies #[trigger]
            done.delete.tx_state_changes.contains(t) by {
            if t != txids[0] {
                let i = choose|i: int| 0 <= i < txids.len() && txids[i] == t;
                assert(txids.skip(1)[i - 1] == t);
            } else {
                assert(next.delete.tx_state_changes.contains(t));
            }
        }
        assert forall|t: SerializedTxid, o: crate::ids::OutPoint|
            txids.contains(t) && cache.tx_state_change(db, t).is_some()
                && #[trigger] crate::cache::input_outpoints(
                cache.tx_state_change(db, t).unwrap(),
            ).contains(o) implies {
            &&& done.delete.script_pubkeys_outpoints.contains(o)
            &&& !keep_spent ==> done.delete.tx_outs.contains(o)
        } by {
            assert(next.tx_state_change(db, t) == cache.tx_state_change(db, t));
            if t != txids[0] {
                let i = choose|i: int| 0 <= i < txids.len() && txids[i] == t;
                assert(txids.skip(1)[i - 1] == t);
                assert(txids.skip(1).contains(t));
            } else {
                assert(next.delete.script_pubkeys_outpoints.contains(o));
            }
        }
    }
}

/// Whether the deletions staged in `a` are staged in `b` too.
pub open spec fn deletions_grow(a: CacheView, b: CacheView) -> bool {
    &&& a.delete.tx_state_changes.subset_of(b.delete.tx_state_changes)
    &&& a.delete.script_pubkeys_outpoints.subset_of(b.delete.script_pubkeys_outpoints)
    &&& a.delete.tx_outs.subset_of(b.delete.tx_outs)
}

/// Purging a range of heights only adds deletions, and, if it succeeds,
/// covers every transaction of the block at each height of the range.
pub proof fn lemma_purge_range_covers(
    cache: CacheView,
    db: StoreView,
    from: u64,
    to: u64,
    keep_spent: bool,
    height: u64,
    txid: SerializedTxid,
)
    ensures
        deletions_grow(cache, cache.purge_range(db, from, to, keep_spent).0),
        from <= height < to && cache.purge_range(db, from, to, keep_spent).1.is_none() ==> {
            let done = cache.purge_range(db, from, to, keep_spent).0;
            &&& cache.block_by_height(db, height).is_some()
            &&& done.update.purged_blocks_count >= height
            &&& cache.block_by_height(db, height).unwrap().tx_ids.contains(txid) ==> {
                &&& done.delete.tx_state_changes.contains(txid)
                &&& forall|o: crate::ids::OutPoint|
                    cache.tx_state_change(db, txid).is_some()
                        && #[trigger] crate::cache::input_outpoints(
                        cache.tx_state_change(db, txid).unwrap(),
                    ).contains(o) ==> {
                        &&& done.delete.script_pubkeys_outpoints.contains(o)
                        &&& !keep_spent ==> done.delete.tx_outs.contains(o)
                    }
            }
        },
        to > from && cache.purge_range(db, from, to, keep_spent).1.is_none() ==> cache.purge_range(
            db,
            from,
            to,
            keep_spent,
        ).0.update.purged_blocks_count == to - 1,
    decreases to - from,
{
    if from < to {
        match cache.purge_block(db, from, keep_spent) {
            Err(_) => {},
            Ok(next) => {
                let block = cache.block_by_height(db, from).unwrap();
                lemma_stage_txs_covers(cache, db, block.tx_ids, keep_spent);
                lemma_stage_txs_frame(cache, db, block.tx_ids, keep_spent);
                lemma_purge_range_covers(
                    next,
                    db,
                    (from + 1) as u64,
                    to,
                    keep_spent,
                    height,
                    txid,
                );
                let done = cache.purge_range(db, from, to, keep_spent).0;
                assert(next.block_by_height(db, height) == cache.block_by_height(db, height));
                assert(next.tx_state_change(db, txid) == cache.tx_state_change(db, txid));
                if height == from && cache.purge_range(db, from, to, keep_spent).1.is_none()
                    && block.tx_ids.contains(txid) {
                    assert(next.delete.tx_state_changes.contains(txid));
                    assert forall|o: crate::ids::OutPoint|
                        cache.tx_state_change(db, txid).is_some()
                            && #[trigger] crate::cache::input_outpoints(
                            cache.tx_state_change(db, txid).unwrap(),
                        ).contains(o) implies {
                        &&& done.delete.script_pubkeys_outpoints.contains(o)
                        &&& !keep_spent ==> done.delete.tx_outs.contains(o)
                    } by {
                        assert(next.delete.script_pubkeys_outpoints.contains(o));
                    }
                }
            },
        }
    }
}

/// After a commit, nothing is left of the transactions of the blocks that
/// were purged: for every height of the purged range and every transaction
/// of the block at that height, the store holds no state change of the
/// transaction, no reverse script entry for the outputs that it consumed,
/// and, unless spent outputs are kept, none of these outputs; and the
/// purge mark has reached the height.
pub proof fn lemma_purged_blocks_are_clean(
    cache: CacheView,
    db: StoreView,
    height: u64,
    txid: SerializedTxid,
)
    requires
        !cache.settings.mempool,
        cache.prepared(db).1.is_none(),
        cache.last_block_height.is_some(),
        cache.last_block_height.unwrap() >= cache.settings.max_recoverable_reorg_depth,
        cache.first_purgeable(cache.settings.max_recoverable_reorg_depth) <= height,
        height < cache.last_block_height.unwrap() - cache.settings.max_recoverable_reorg_depth,
        cache.block_by_height(db, height).is_some(),
        cache.block_by_height(db, height).unwrap().tx_ids.contains(txid),
        !cache.update.is_empty(),
    ensures
        ({
            let after = crate::cache::committed(db, cache.prepared(db).0);
            &&& !after.tx_state_changes.contains_key(txid)
            &&& after.purged_blocks_count >= height
            &&& forall|o: crate::ids::OutPoint|
                cache.tx_state_change(db, txid).is_some()
                    && #[trigger] crate::cache::input_outpoints(
                    cache.tx_state_change(db, txid).unwrap(),
                ).contains(o) ==> {
                    &&& !after.outpoint_script_pubkeys.contains_key(o)
                    &&& !cache.settings.index_spent_outputs ==> !after.txouts.contains_key(o)
                }
        }),
{
    let depth = cache.settings.max_recoverable_reorg_depth;
    let last = cache.last_block_height.unwrap();
    lemma_purge_range_covers(
        cache,
        db,
        cache.first_purgeable(depth),
        (last - depth) as u64,
        cache.settings.index_spent_outputs,
        height,
        txid,
    );
    lemma_purge_range_frame(
        cache,
        db,
        cache.first_purgeable(depth),
        (last - depth) as u64,
        cache.settings.index_spent_outputs,
    );
    let p = cache.prepared(db).0;
    assert(p.delete.tx_state_changes.contains(txid));
    assert(p.delete != crate::store::BatchDeleteView::empty());
    assert(!p.update.is_empty()) by {
        if p.update.is_empty() {
            assert(cache.update == crate::store::BatchUpdateView::empty(
                cache.update.rune_count,
                cache.update.block_count,
                cache.update.purged_blocks_count,
            ));
        }
    }
    let after = crate::cache::committed(db, p);
    assert(after.purged_blocks_count == p.update.purged_blocks_count);
}

} // verus!
