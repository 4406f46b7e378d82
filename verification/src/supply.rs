//! The supply of a rune over a transaction: how the counters of the rune
//! move, and how that matches what the transaction moves.

use crate::artifact::{ArtifactView, TransactionView};
use crate::cache::CacheView;
use crate::conservation::{
    amount_of, lemma_amount_of_front, lemma_transaction_conserves_runes, minted_part,
    premine_part, total_inputs, total_outputs,
};
use crate::ids::SerializedTxid;
use crate::model::{InscriptionId, RuneEntry, TransactionStateChangeView};
use crate::roundtrip::staged_runes;
use crate::rune_amount::RuneAmount;
use crate::rune::Rune;
use crate::rune_id::RuneId;
use crate::artifact::deciphered;
use crate::rune_parser::{index_runes_spec, minimum_rune};
use crate::settings::Chain;
use crate::updater::{index_tx_spec, message_for, BlockProgress, IndexedTransactionView};
use crate::store::StoreView;
use vstd::prelude::*;

verus! {

/// How often a state change mints a rune: once or not at all.
pub open spec fn minted_count(change: TransactionStateChangeView, id: RuneId) -> nat {
    match change.minted {
        Some(m) => if m.rune_id == id {
            1
        } else {
            0
        },
        None => 0,
    }
}

/// A rune entry with what was burned and minted added to its counters: on
/// the side of the chain to `burned` and `mints`, for the mempool to the
/// pending counters.
pub open spec fn counted(entry: RuneEntry, burned: nat, mints: nat, mempool: bool) -> RuneEntry {
    if mempool {
        RuneEntry {
            pending_burns: (entry.pending_burns + burned) as u128,
            pending_mints: (entry.pending_mints + mints) as u128,
            ..entry
        }
    } else {
        RuneEntry {
            burned: (entry.burned + burned) as u128,
            mints: (entry.mints + mints) as u128,
            ..entry
        }
    }
}

/// Whether the counters of a rune entry can take what was burned and
/// minted.
pub open spec fn counters_take(entry: RuneEntry, burned: nat, mints: nat, mempool: bool) -> bool {
    if mempool {
        entry.pending_burns + burned <= u128::MAX && entry.pending_mints + mints <= u128::MAX
    } else {
        entry.burned + burned <= u128::MAX && entry.mints + mints <= u128::MAX
    }
}

/// Burning amounts adds to the burned counter of a rune what the amounts
/// hold of it, and changes nothing else of the rune.
pub proof fn lemma_burn_all_counts(
    cache: CacheView,
    db: StoreView,
    height: u32,
    txid: SerializedTxid,
    burned: Seq<RuneAmount>,
    mempool: bool,
    id: RuneId,
)
    requires
        cache.burn_all(db, height, txid, burned, mempool).1.is_none(),
        staged_runes(cache, db).contains_key(id),
    ensures
        ({
            let before = staged_runes(cache, db)[id];
            let after = staged_runes(cache.burn_all(db, height, txid, burned, mempool).0, db);
            &&& after.contains_key(id)
            &&& counters_take(before, amount_of(burned, id), 0, mempool)
            &&& after[id] == counted(before, amount_of(burned, id), 0, mempool)
        }),
    decreases burned.len(),
{
    if burned.len() > 0 {
        let (next, err) = cache.burn(db, height, txid, burned[0], mempool);
        assert(staged_runes(next, db).contains_key(id));
        lemma_burn_all_counts(next, db, height, txid, burned.skip(1), mempool, id);
        lemma_amount_of_front(burned, id);
    }
}

/// Applying a state change moves the counters of a rune that was known
/// before by what the state change did: the burned counter by what it
/// burned of the rune, the mints by one if it minted the rune; for the
/// mempool the pending counters instead. Nothing else of the rune changes.
pub proof fn lemma_save_counts(
    cache: CacheView,
    db: StoreView,
    block_time: u32,
    height: u32,
    txid: SerializedTxid,
    artifact: Option<ArtifactView>,
    change: TransactionStateChangeView,
    icon: Option<InscriptionId>,
    mempool: bool,
    id: RuneId,
)
    requires
        cache.save(db, block_time, height, txid, artifact, change, icon, mempool).1.is_none(),
        staged_runes(cache, db).contains_key(id),
        change.etched.is_some() ==> change.etched.unwrap().0 != id,
    ensures
        ({
            let before = staged_runes(cache, db)[id];
            let after = staged_runes(
                cache.save(db, block_time, height, txid, artifact, change, icon, mempool).0,
                db,
            );
            &&& after.contains_key(id)
            &&& counters_take(before, amount_of(change.burned, id), minted_count(change, id), mempool)
            &&& after[id] == counted(
                before,
                amount_of(change.burned, id),
                minted_count(change, id),
                mempool,
            )
        }),
{
    reveal(CacheView::save);
    lemma_burn_all_counts(cache, db, height, txid, change.burned, mempool, id);
    let (burned, e1) = cache.burn_all(db, height, txid, change.burned, mempool);
    let (minted, e2) = match change.minted {
        Some(m) => burned.mint(db, height, txid, m, mempool),
        None => (burned, None),
    };
    let (etched, e3) = match change.etched {
        Some((e, rune)) => minted.etch(block_time, height, txid, e, rune, artifact, icon, mempool),
        None => (minted, None),
    };
    crate::laws::lemma_settle_keeps_runes(etched, db, height, txid, change, mempool);
}

/// The supply of a rune over a transaction of the chain. What the outputs
/// of the transaction hold of a rune that was known before, and what has
/// been burned of it after the transaction, is what its inputs held of
/// the rune, what had been burned before, and what the transaction
/// minted: the amount of one mint for each mint that the counter went up
/// by.
pub proof fn lemma_supply_over_a_transaction(
    cache: CacheView,
    db: StoreView,
    block_time: u32,
    height: u32,
    tx_index: u32,
    txid: SerializedTxid,
    tx: TransactionView,
    artifact: Option<ArtifactView>,
    minimum: u128,
    commitment: bool,
    icon: Option<InscriptionId>,
    id: RuneId,
)
    requires
        tx.scripts.len() <= usize::MAX,
        index_runes_spec(cache, db, height as u64, tx_index, tx, artifact, minimum, commitment).is_ok(),
        cache.save(
            db,
            block_time,
            height,
            txid,
            crate::updater::message_for(
                index_runes_spec(
                    cache,
                    db,
                    height as u64,
                    tx_index,
                    tx,
                    artifact,
                    minimum,
                    commitment,
                ).unwrap(),
                tx,
            ),
            index_runes_spec(
                cache,
                db,
                height as u64,
                tx_index,
                tx,
                artifact,
                minimum,
                commitment,
            ).unwrap(),
            icon,
            false,
        ).1.is_none(),
        staged_runes(cache, db).contains_key(id),
        index_runes_spec(
            cache,
            db,
            height as u64,
            tx_index,
            tx,
            artifact,
            minimum,
            commitment,
        ).unwrap().etched.is_some() ==> index_runes_spec(
            cache,
            db,
            height as u64,
            tx_index,
            tx,
            artifact,
            minimum,
            commitment,
        ).unwrap().etched.unwrap().0 != id,
    ensures
        ({
            let change = index_runes_spec(
                cache,
                db,
                height as u64,
                tx_index,
                tx,
                artifact,
                minimum,
                commitment,
            ).unwrap();
            let saved = cache.save(
                db,
                block_time,
                height,
                txid,
                crate::updater::message_for(change, tx),
                change,
                icon,
                false,
            ).0;
            let before = staged_runes(cache, db)[id];
            let after = staged_runes(saved, db)[id];
            let one_mint = match change.minted {
                Some(m) => m.amount as nat,
                None => 0,
            };
            &&& after.premine == before.premine
            &&& after.terms == before.terms
            &&& total_outputs(change.outputs, change.outputs.len(), id) + after.burned
                == total_inputs(change.inputs, change.inputs.len(), id) + before.burned + (
            after.mints - before.mints) * one_mint
        }),
{
    let change = index_runes_spec(
        cache,
        db,
        height as u64,
        tx_index,
        tx,
        artifact,
        minimum,
        commitment,
    ).unwrap();
    lemma_transaction_conserves_runes(
        cache,
        db,
        height as u64,
        tx_index,
        tx,
        artifact,
        minimum,
        commitment,
        id,
    );
    lemma_save_counts(
        cache,
        db,
        block_time,
        height,
        txid,
        crate::updater::message_for(change, tx),
        change,
        icon,
        false,
        id,
    );
    assert(premine_part(artifact, change.etched, id) == 0);
    let one_mint = match change.minted {
        Some(m) => m.amount as nat,
        None => 0,
    };
    assert(minted_part(change, id) == minted_count(change, id) * one_mint) by {
        assert(1 * one_mint == one_mint);
        assert(0 * one_mint == 0);
    }
}

/// Counting a mint moves one counter of the rune by one and nothing else:
/// on the side of the chain the mints, for the mempool the pending mints.
/// Every other rune stays as it is.
pub proof fn lemma_mint_counts_one(
    cache: CacheView,
    db: StoreView,
    height: u32,
    txid: SerializedTxid,
    minted: RuneAmount,
    mempool: bool,
)
    requires
        cache.mint(db, height, txid, minted, mempool).1.is_none(),
    ensures
        ({
            let after = cache.mint(db, height, txid, minted, mempool).0;
            let before = cache.rune(db, minted.rune_id);
            &&& before.is_some()
            &&& mempool ==> before.unwrap().pending_mints < u128::MAX && after.rune(
                db,
                minted.rune_id,
            ) == Some(
                RuneEntry {
                    pending_mints: (before.unwrap().pending_mints + 1) as u128,
                    ..before.unwrap()
                },
            )
            &&& !mempool ==> before.unwrap().mints < u128::MAX && after.rune(db, minted.rune_id)
                == Some(RuneEntry { mints: (before.unwrap().mints + 1) as u128, ..before.unwrap() })
            &&& forall|other: RuneId|
                other != minted.rune_id ==> #[trigger] after.rune(db, other) == cache.rune(
                    db,
                    other,
                )
        }),
{
}

/// Burning an amount moves one counter of the rune by the amount and
/// nothing else: on the side of the chain what was burned, for the mempool
/// the pending burns. Every other rune stays as it is.
pub proof fn lemma_burn_counts_the_amount(
    cache: CacheView,
    db: StoreView,
    height: u32,
    txid: SerializedTxid,
    burned: RuneAmount,
    mempool: bool,
)
    requires
        cache.burn(db, height, txid, burned, mempool).1.is_none(),
    ensures
        ({
            let after = cache.burn(db, height, txid, burned, mempool).0;
            let before = cache.rune(db, burned.rune_id);
            &&& before.is_some()
            &&& mempool ==> before.unwrap().pending_burns + burned.amount <= u128::MAX
                && after.rune(db, burned.rune_id) == Some(
                RuneEntry {
                    pending_burns: (before.unwrap().pending_burns + burned.amount) as u128,
                    ..before.unwrap()
                },
            )
            &&& !mempool ==> before.unwrap().burned + burned.amount <= u128::MAX && after.rune(
                db,
                burned.rune_id,
            ) == Some(
                RuneEntry {
                    burned: (before.unwrap().burned + burned.amount) as u128,
                    ..before.unwrap()
                },
            )
            &&& forall|other: RuneId|
                other != burned.rune_id ==> #[trigger] after.rune(db, other) == cache.rune(
                    db,
                    other,
                )
        }),
{
}

/// Etching a rune with a well-formed message records it: the entry has
/// the premine of the etching, counters at zero, the transaction and the
/// block of the etching; the count of runes goes up by one and is the
/// number of the rune; the name and the number lead to the rune.
pub proof fn lemma_etch_records(
    cache: CacheView,
    db: StoreView,
    block_time: u32,
    height: u32,
    txid: SerializedTxid,
    id: RuneId,
    rune: Rune,
    artifact: Option<ArtifactView>,
    icon: Option<InscriptionId>,
    mempool: bool,
)
    requires
        cache.etch(block_time, height, txid, id, rune, artifact, icon, mempool).1.is_none(),
    ensures
        ({
            let after = cache.etch(block_time, height, txid, id, rune, artifact, icon, mempool).0;
            &&& cache.update.rune_count < u64::MAX
            &&& after.update.rune_count == cache.update.rune_count + 1
            &&& after.rune(db, id).is_some()
            &&& after.rune(db, id).unwrap().number == after.update.rune_count
            &&& after.rune(db, id).unwrap().mints == 0
            &&& after.rune(db, id).unwrap().burned == 0
            &&& after.rune(db, id).unwrap().pending_mints == 0
            &&& after.rune(db, id).unwrap().pending_burns == 0
            &&& after.rune(db, id).unwrap().etching == txid
            &&& after.rune(db, id).unwrap().block == id.block
            &&& after.rune(db, id).unwrap().premine == (match artifact {
                Some(ArtifactView::Runestone(stone)) => stone.etching.unwrap().premine.unwrap_or(
                    0,
                ),
                _ => 0,
            })
            &&& after.rune_id(db, rune) == Some(id)
            &&& after.update.rune_numbers.contains_key(after.update.rune_count)
            &&& after.update.rune_numbers[after.update.rune_count] == id
        }),
{
}

/// A mint that the terms of a rune allow keeps the mints of the rune
/// within its cap.
pub proof fn lemma_allowed_mint_stays_within_cap(
    cache: CacheView,
    db: StoreView,
    height: u32,
    txid: SerializedTxid,
    minted: RuneAmount,
    at: u64,
)
    requires
        cache.mint(db, height, txid, minted, false).1.is_none(),
        cache.rune(db, minted.rune_id).is_some(),
        cache.rune(db, minted.rune_id).unwrap().spec_mintable(at).is_ok(),
    ensures
        cache.mint(db, height, txid, minted, false).0.rune(db, minted.rune_id).unwrap().within_cap(),
        cache.mint(db, height, txid, minted, false).0.rune(db, minted.rune_id).unwrap().mints
            == cache.rune(db, minted.rune_id).unwrap().mints + 1,
{
}

/// What the parser finds a transaction of the mempool to do, at the
/// height of the next block.
pub open spec fn pending_change(
    cache: CacheView,
    db: StoreView,
    chain: Chain,
    tx: IndexedTransactionView,
) -> Result<TransactionStateChangeView, crate::rune_parser::RuneParserError> {
    index_runes_spec(
        cache,
        db,
        (cache.update.block_count as u32) as u64,
        0,
        tx.transaction,
        deciphered(tx.transaction.scripts),
        minimum_rune(chain, cache.update.block_count as u32),
        tx.commitment,
    )
}

/// A transaction that is indexed as unconfirmed joins the mempool set,
/// and what it burns and mints of a rune that was known before goes to
/// the pending counters of the rune: the mints and the burned amount of
/// the chain, and everything else of the rune, stay as they are.
pub proof fn lemma_mempool_transaction_counts_as_pending(
    cache: CacheView,
    db: StoreView,
    chain: Chain,
    now: u32,
    tx: IndexedTransactionView,
    id: RuneId,
)
    requires
        cache.settings.mempool,
        !cache.tx_exists(db, tx.txid),
        index_tx_spec(cache, db, chain, now, tx).1.is_none(),
        staged_runes(cache, db).contains_key(id),
        pending_change(cache, db, chain, tx).is_ok() && pending_change(
            cache,
            db,
            chain,
            tx,
        ).unwrap().etched.is_some() ==> pending_change(cache, db, chain, tx).unwrap().etched.unwrap().0
            != id,
    ensures
        ({
            let after = index_tx_spec(cache, db, chain, now, tx).0;
            let change = pending_change(cache, db, chain, tx);
            let before = staged_runes(cache, db)[id];
            &&& after.update.mempool_txs.contains(tx.txid)
            &&& change.is_ok()
            &&& staged_runes(after, db).contains_key(id)
            &&& staged_runes(after, db)[id] == (if change.unwrap().has_rune_updates() {
                counted(
                    before,
                    amount_of(change.unwrap().burned, id),
                    minted_count(change.unwrap(), id),
                    true,
                )
            } else {
                before
            })
            &&& staged_runes(after, db)[id].mints == before.mints
            &&& staged_runes(after, db)[id].burned == before.burned
        }),
{
    reveal(index_tx_spec);
    let change = pending_change(cache, db, chain, tx).unwrap();
    if change.has_rune_updates() {
        let height = cache.update.block_count as u32;
        lemma_save_counts(
            cache,
            db,
            now,
            height,
            tx.txid,
            message_for(change, tx.transaction),
            change,
            tx.icon,
            true,
            id,
        );
        crate::laws::lemma_save_keeps_frame(
            cache,
            db,
            now,
            height,
            tx.txid,
            message_for(change, tx.transaction),
            change,
            tx.icon,
            true,
        );
    }
}

/// A mint that the terms of the rune do not allow is refused: where the
/// message of a transaction mints a rune that is known but cannot be
/// minted at the height, for one because its cap is reached, the state
/// change of the transaction mints nothing.
pub proof fn lemma_mint_that_is_not_allowed_is_refused(
    cache: CacheView,
    db: StoreView,
    height: u64,
    tx_index: u32,
    tx: TransactionView,
    artifact: ArtifactView,
    minimum: u128,
    commitment: bool,
)
    requires
        artifact.mint().is_some(),
        cache.rune(db, artifact.mint().unwrap()).is_some(),
        cache.rune(db, artifact.mint().unwrap()).unwrap().spec_mintable(height).is_err(),
        index_runes_spec(cache, db, height, tx_index, tx, Some(artifact), minimum, commitment).is_ok(),
    ensures
        index_runes_spec(
            cache,
            db,
            height,
            tx_index,
            tx,
            Some(artifact),
            minimum,
            commitment,
        ).unwrap().minted.is_none(),
{
    reveal(index_runes_spec);
}

/// A rune whose mints have reached its cap cannot be minted.
pub proof fn lemma_cap_reached_means_not_mintable(entry: RuneEntry, height: u64)
    requires
        entry.terms.is_some(),
        entry.mints >= entry.terms.unwrap().cap.unwrap_or(0),
    ensures
        entry.spec_mintable(height).is_err(),
{
}

/// A transaction of a block whose state change changes nothing about
/// runes, or cannot be worked out, is passed over: nothing is staged for
/// it, it is not recorded with the block, and no event tells of it.
pub proof fn lemma_step_passes_over_what_changes_nothing(
    progress: BlockProgress,
    db: StoreView,
    chain: Chain,
    height: u32,
    block_time: u32,
    i: u32,
    tx: IndexedTransactionView,
)
    requires
        match index_runes_spec(
            progress.cache,
            db,
            height as u64,
            i,
            tx.transaction,
            deciphered(tx.transaction.scripts),
            minimum_rune(chain, height),
            tx.commitment,
        ) {
            Ok(change) => !change.has_rune_updates(),
            Err(_) => true,
        },
    ensures
        progress.step(db, chain, height, block_time, i, tx) == progress,
{
    reveal(BlockProgress::step);
}

} // verus!
