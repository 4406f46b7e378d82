//! Where an update ends: the store holds the blocks that were taken in, at
//! the heights at which they came, and counts them.

use crate::address_updater::AddressUpdaterView;
use crate::cache::CacheView;
use crate::ids::BlockHash;
use crate::laws::{lemma_prepared_frame, lemma_run_keeps_frame};
use crate::settings::Settings;
use crate::store::StoreView;
use crate::updater::{
    apply_block_spec, apply_blocks_spec, block_cache_settings, commit_spec, update_to_tip_spec,
    BlockProgress, FetchedBlockView,
};
use vstd::prelude::*;

verus! {

/// Whether a window over a store shows the first `k` of the blocks at the
/// heights from `start` on, counts the blocks up to there, and, if it
/// stages no block, has the count of the store.
pub open spec fn follows(
    cache: CacheView,
    db: StoreView,
    start: nat,
    blocks: Seq<FetchedBlockView>,
    k: nat,
) -> bool {
    &&& cache.update.block_count == start + k
    &&& cache.update.block_hashes == Map::<u64, BlockHash>::empty() ==> db.block_count
        == cache.update.block_count
    &&& forall|h: u64|
        start <= h < start + k ==> #[trigger] cache.block_hash(db, h) == Some(
            blocks[h - start].header.hash,
        )
}

/// Whether a store holds the first `k` of the blocks at the heights from
/// `start` on, and counts the blocks up to there.
pub open spec fn holds_chain(db: StoreView, start: nat, blocks: Seq<FetchedBlockView>, k: nat) -> bool {
    &&& db.block_count == start + k
    &&& forall|h: u64|
        start <= h < start + k ==> #[trigger] db.block_hashes.contains_key(h) && db.block_hashes[h]
            == blocks[h - start].header.hash
}

/// A commit brings to the store what the window showed of the chain, and
/// the window that follows shows the same.
pub proof fn lemma_commit_keeps_the_chain(
    cache: CacheView,
    addresses: AddressUpdaterView,
    db: StoreView,
    settings: Settings,
    start: nat,
    blocks: Seq<FetchedBlockView>,
    k: nat,
)
    requires
        follows(cache, db, start, blocks, k),
        commit_spec(cache, addresses, db, settings).error.is_none(),
    ensures
        holds_chain(commit_spec(cache, addresses, db, settings).db, start, blocks, k),
        follows(
            commit_spec(cache, addresses, db, settings).cache,
            commit_spec(cache, addresses, db, settings).db,
            start,
            blocks,
            k,
        ),
{
    reveal(commit_spec);
    let (batched, batch_error) = if settings.index_addresses {
        addresses.batch(cache, db)
    } else {
        (cache, None)
    };
    let told = if settings.index_addresses {
        batched.with_address_events(settings.chain)
    } else {
        batched
    };
    assert(told.update.block_hashes == cache.update.block_hashes);
    assert(told.update.block_count == cache.update.block_count);
    lemma_prepared_frame(told, db);
    let prepared = told.prepared(db).0;
    let done = commit_spec(cache, addresses, db, settings);
    assert(done.db == crate::cache::committed(db, prepared));
    assert(prepared.update.block_hashes == cache.update.block_hashes);
    if prepared.update.is_empty() {
        assert(cache.update.block_hashes =~= Map::<u64, BlockHash>::empty());
    }
    let updated = if prepared.update.is_empty() {
        db
    } else {
        db.apply_update(prepared.update, prepared.settings.mempool)
    };
    assert(done.db.block_hashes == updated.block_hashes);
    assert(done.db.block_count == updated.block_count);
    assert(done.db.block_count == start + k);
    assert forall|h: u64| start <= h < start + k implies #[trigger] done.db.block_hashes.contains_key(
        h,
    ) && done.db.block_hashes[h] == blocks[h - start].header.hash by {
        assert(cache.block_hash(db, h) == Some(blocks[h - start].header.hash));
        assert(updated.block_hashes.contains_key(h));
    }
    assert(done.cache.update.block_hashes =~= Map::<u64, BlockHash>::empty());
    assert forall|h: u64| start <= h < start + k implies #[trigger] done.cache.block_hash(done.db, h)
        == Some(blocks[h - start].header.hash) by {
        assert(done.db.block_hashes.contains_key(h));
    }
}

/// Taking in the next block keeps what the window shows of the chain and
/// adds the block at its height.
pub proof fn lemma_apply_block_follows(
    cache: CacheView,
    addresses: AddressUpdaterView,
    db: StoreView,
    settings: Settings,
    start: nat,
    blocks: Seq<FetchedBlockView>,
    k: nat,
    was_at_tip: bool,
)
    requires
        k < blocks.len(),
        follows(cache, db, start, blocks, k),
        apply_block_spec(cache, addresses, db, settings, blocks[k as int], was_at_tip).error.is_none(),
    ensures
        follows(
            apply_block_spec(cache, addresses, db, settings, blocks[k as int], was_at_tip).cache,
            apply_block_spec(cache, addresses, db, settings, blocks[k as int], was_at_tip).db,
            start,
            blocks,
            k + 1,
        ),
{
    reveal(apply_block_spec);
    let block = blocks[k as int];
    let height = cache.update.block_count;
    let begun = BlockProgress {
        cache,
        tx_ids: Seq::empty(),
        etched_runes: Seq::empty(),
        error: None,
    };
    lemma_run_keeps_frame(begun, db, settings.chain, height as u32, block.header.time, block.txdata, 0);
    let progress = crate::updater::record_block(cache, db, settings, block, height as u32);
    assert(crate::laws::same_frame(cache, progress.cache));
    let staged = crate::updater::stage_block(
        progress.cache,
        height,
        block,
        progress.tx_ids,
        progress.etched_runes,
    );
    assert(staged.update.block_hashes.contains_key(height));
    assert forall|h: u64| start <= h < start + k + 1 implies #[trigger] staged.block_hash(db, h)
        == Some(blocks[h - start].header.hash) by {
        if h < start + k {
            assert(cache.block_hash(db, h) == Some(blocks[h - start].header.hash));
        }
    }
    assert(follows(staged, db, start, blocks, k + 1));
    if staged.update.blocks.len() >= crate::updater::flush_size(settings.commit_interval) {
        let noted = if settings.index_addresses {
            crate::updater::note_txs(addresses, block.txdata, 0)
        } else {
            addresses
        };
        lemma_commit_keeps_the_chain(staged, noted, db, settings, start, blocks, k + 1);
    }
}

/// Taking in the blocks from index `from` on keeps what the window shows
/// of the chain and adds each block at its height.
pub proof fn lemma_apply_blocks_follow(
    cache: CacheView,
    addresses: AddressUpdaterView,
    db: StoreView,
    settings: Settings,
    start: nat,
    blocks: Seq<FetchedBlockView>,
    from: nat,
    was_at_tip: bool,
)
    requires
        from <= blocks.len(),
        follows(cache, db, start, blocks, from),
        apply_blocks_spec(cache, addresses, db, settings, blocks, from, was_at_tip).error.is_none(),
    ensures
        follows(
            apply_blocks_spec(cache, addresses, db, settings, blocks, from, was_at_tip).cache,
            apply_blocks_spec(cache, addresses, db, settings, blocks, from, was_at_tip).db,
            start,
            blocks,
            blocks.len(),
        ),
    decreases blocks.len() - from,
{
    if from < blocks.len() {
        let one = apply_block_spec(cache, addresses, db, settings, blocks[from as int], was_at_tip);
        lemma_apply_block_follows(cache, addresses, db, settings, start, blocks, from, was_at_tip);
        lemma_apply_blocks_follow(
            one.cache,
            one.addresses,
            one.db,
            settings,
            start,
            blocks,
            from + 1,
            was_at_tip,
        );
    }
}

/// An update that ends without an error brings every fetched block to
/// the store: the count of blocks has grown by their number, and the
/// store has the hash of each of them at its height. Where the blocks are
/// those of the node up to its tip, the index then matches the chain of
/// the node.
pub proof fn lemma_update_reaches_the_tip(
    db: StoreView,
    settings: Settings,
    blocks: Seq<FetchedBlockView>,
    was_at_tip: bool,
)
    requires
        update_to_tip_spec(db, settings, blocks, was_at_tip, false).error.is_none(),
    ensures
        holds_chain(
            update_to_tip_spec(db, settings, blocks, was_at_tip, false).db,
            db.block_count as nat,
            blocks,
            blocks.len(),
        ),
        update_to_tip_spec(db, settings, blocks, was_at_tip, false).cache.update.is_empty(),
{
    reveal(commit_spec);
    let fresh = CacheView::fresh(db, block_cache_settings(settings));
    let start = db.block_count as nat;
    assert(follows(fresh, db, start, blocks, 0));
    let done = apply_blocks_spec(fresh, AddressUpdaterView::empty(), db, settings, blocks, 0, was_at_tip);
    lemma_apply_blocks_follow(
        fresh,
        AddressUpdaterView::empty(),
        db,
        settings,
        start,
        blocks,
        0,
        was_at_tip,
    );
    lemma_commit_keeps_the_chain(
        done.cache,
        done.addresses,
        done.db,
        settings,
        start,
        blocks,
        blocks.len(),
    );
}

} // verus!
