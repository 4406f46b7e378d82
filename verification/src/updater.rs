use crate::address_updater::{AddressUpdater, AddressUpdaterView};
use crate::artifact::{deciphered, Transaction, TransactionView};
use crate::cache::{CacheView, UpdaterCache, UpdaterCacheSettings};
use crate::events::{event_views, Event, EventView};
use crate::ids::{BlockHash, OutPoint, SerializedTxid, SpenderReference};
use crate::model::{Block, BlockHeader, BlockView, InscriptionId, TransactionStateChangeView};
use crate::rollback::{Rollback, RollbackError};
use crate::rune_id::RuneId;
use crate::rune_parser::{index_runes_spec, minimum_rune, RuneParser, RuneParserError};
use crate::settings::{Chain, Settings};
use crate::store::{Store, StoreError, StoreView, StoreWithLock};
use crate::transaction_updater::{TransactionUpdater, TransactionUpdaterError};
use vstd::prelude::*;

verus! {

/// What the comparison of the indexed chain with the chain of the node
/// found.
#[derive(Debug, PartialEq, Copy, Clone, Eq, Structural)]
pub enum ReorgError {
    /// The chains agree again `depth` blocks below `height`.
    Recoverable { height: u64, depth: u64 },
    /// The chains do not agree within the recoverable depth.
    Unrecoverable,
    /// The store failed.
    StoreError(StoreError),
    /// The node did not tell the hash of a block that had to be compared.
    RPCError,
}

impl ReorgError {
    pub open spec fn spec_message(self) -> Seq<char> {
        match self {
            ReorgError::Recoverable { height, depth } => crate::text::decimal(depth as nat)
                + " block deep reorg detected at height "@ + crate::text::decimal(height as nat),
            ReorgError::Unrecoverable => "unrecoverable reorg detected"@,
            ReorgError::StoreError(_) => "store error"@,
            ReorgError::RPCError => "RPC error"@,
        }
    }

    pub fn to_string(&self) -> (s: String)
        ensures
            s@ == self.spec_message(),
    {
        match self {
            ReorgError::Recoverable { height, depth } => {
                let mut out: Vec<char> = Vec::new();
                crate::text::push_decimal(&mut out, *depth as u128);
                crate::text::push_str(&mut out, " block deep reorg detected at height ");
                crate::text::push_decimal(&mut out, *height as u128);
                assert(out@ =~= self.spec_message());
                crate::text::string_of(&out)
            },
            ReorgError::Unrecoverable => "unrecoverable reorg detected".to_owned(),
            ReorgError::StoreError(_) => "store error".to_owned(),
            ReorgError::RPCError => "RPC error".to_owned(),
        }
    }
}

/// Why an update stopped.
#[derive(Debug, PartialEq, Copy, Clone, Eq, Structural)]
pub enum UpdaterError {
    DB(StoreError),
    BitcoinReorg(ReorgError),
    TransactionUpdater(TransactionUpdaterError),
    RuneParser(RuneParserError),
    /// Taking a transaction back would have taken a counter below zero.
    Rollback(RollbackError),
    /// A block does not follow the last indexed block.
    Height,
    Mutex,
}

impl UpdaterError {
    /// Whether the engine must halt: the chains cannot be reconciled.
    pub fn is_halted(&self) -> (r: bool)
        ensures
            r == (*self == UpdaterError::BitcoinReorg(ReorgError::Unrecoverable)),
    {
        match self {
            UpdaterError::BitcoinReorg(ReorgError::Unrecoverable) => true,
            _ => false,
        }
    }
}

/// A transaction of a block or of the mempool, as the indexer sees it.
#[derive(Debug, PartialEq, Eq)]
pub struct IndexedTransaction {
    pub txid: SerializedTxid,
    pub transaction: Transaction,
    /// Whether the transaction commits to the name it etches, with the
    /// commitment confirmed deeply enough.
    pub commitment: bool,
    /// The inscription that serves as icon of the rune it etches.
    pub icon: Option<InscriptionId>,
}

pub struct IndexedTransactionView {
    pub txid: SerializedTxid,
    pub transaction: TransactionView,
    pub commitment: bool,
    pub icon: Option<InscriptionId>,
}

impl View for IndexedTransaction {
    type V = IndexedTransactionView;

    open spec fn view(&self) -> IndexedTransactionView {
        IndexedTransactionView {
            txid: self.txid,
            transaction: self.transaction@,
            commitment: self.commitment,
            icon: self.icon,
        }
    }
}

/// A block as fetched from the node.
#[derive(Debug, PartialEq, Eq)]
pub struct FetchedBlock {
    pub header: BlockHeader,
    pub txdata: Vec<IndexedTransaction>,
    /// The hashes that the node has for the blocks below this one: entry
    /// `i` is the hash at the height that lies `i + 1` below the height
    /// of this block. Needed only where the chains must be compared.
    pub node_hashes: Vec<BlockHash>,
}

pub struct FetchedBlockView {
    pub header: BlockHeader,
    pub txdata: Seq<IndexedTransactionView>,
    pub node_hashes: Seq<BlockHash>,
}

impl View for FetchedBlock {
    type V = FetchedBlockView;

    open spec fn view(&self) -> FetchedBlockView {
        FetchedBlockView {
            header: self.header,
            txdata: Seq::new(self.txdata@.len(), |i: int| self.txdata@[i]@),
            node_hashes: self.node_hashes@,
        }
    }
}

/// The depth at which the walk down from `height` finds the chains in
/// agreement, trying the depths from `depth` up to `max`: the first depth
/// at which the stored hash equals the hash of the node. A hash that the
/// store or the node does not have ends the walk with an error.
pub open spec fn walk_back(
    db: StoreView,
    node_hashes: Seq<BlockHash>,
    height: u64,
    depth: u64,
    max: u64,
) -> Result<(), ReorgError>
    decreases max - depth + 1,
{
    if depth == 0 || depth > max {
        Err(ReorgError::Unrecoverable)
    } else {
        let h: u64 = if height >= depth {
            (height - depth) as u64
        } else {
            0
        };
        if !db.block_hashes.contains_key(h) {
            Err(ReorgError::StoreError(StoreError::NotFound))
        } else if depth > node_hashes.len() {
            Err(ReorgError::RPCError)
        } else if db.block_hashes[h] == node_hashes[depth - 1] {
            Err(ReorgError::Recoverable { height, depth })
        } else if depth == max {
            Err(ReorgError::Unrecoverable)
        } else {
            walk_back(db, node_hashes, height, (depth + 1) as u64, max)
        }
    }
}

/// What comparing the block that arrives at `height` with the indexed
/// chain finds. All is well if the block names the stored hash of the
/// block below it as its parent, or if the store has no such hash. There
/// is no block below height zero to compare with. Else the chains are
/// walked back.
pub open spec fn reorg_check(
    db: StoreView,
    prev_blockhash: BlockHash,
    node_hashes: Seq<BlockHash>,
    height: u64,
    max: u64,
) -> Result<(), ReorgError> {
    if height == 0 {
        Err(ReorgError::Unrecoverable)
    } else if !db.block_hashes.contains_key((height - 1) as u64) {
        Ok(())
    } else if db.block_hashes[(height - 1) as u64] == prev_blockhash {
        Ok(())
    } else {
        walk_back(db, node_hashes, height, 1, max)
    }
}

/// Compares the block that arrives at `height` with the indexed chain.
pub fn detect_reorg(
    db: &StoreWithLock,
    prev_blockhash: &BlockHash,
    node_hashes: &Vec<BlockHash>,
    height: u64,
    max_recoverable_reorg_depth: u64,
) -> (r: Result<(), ReorgError>)
    ensures
        r == reorg_check(db@, *prev_blockhash, node_hashes@, height, max_recoverable_reorg_depth),
{
    let store = db.read();
    if height == 0 {
        return Err(ReorgError::Unrecoverable);
    }
    let prev_height = height - 1;
    match store.get_block_hash(prev_height) {
        Ok(index_prev_blockhash) => {
            if index_prev_blockhash == *prev_blockhash {
                return Ok(());
            }
        },
        Err(_) => {
            return Ok(());
        },
    }
    if max_recoverable_reorg_depth == 0 {
        return Err(ReorgError::Unrecoverable);
    }
    let ghost goal = walk_back(db@, node_hashes@, height, 1, max_recoverable_reorg_depth);
    let mut depth: u64 = 1;
    loop
        invariant
            1 <= depth <= max_recoverable_reorg_depth,
            store@ == db@,
            goal == walk_back(db@, node_hashes@, height, 1, max_recoverable_reorg_depth),
            goal == walk_back(db@, node_hashes@, height, depth, max_recoverable_reorg_depth),
            goal == reorg_check(
                db@,
                *prev_blockhash,
                node_hashes@,
                height,
                max_recoverable_reorg_depth,
            ),
        decreases max_recoverable_reorg_depth - depth,
    {
        let height_to_check = height.saturating_sub(depth);
        let index_block_hash = match store.get_block_hash(height_to_check) {
            Ok(h) => h,
            Err(e) => {
                return Err(ReorgError::StoreError(e));
            },
        };
        if depth > node_hashes.len() as u64 {
            return Err(ReorgError::RPCError);
        }
        let bitcoind_block_hash = node_hashes[(depth - 1) as usize];
        if index_block_hash == bitcoind_block_hash {
            return Err(ReorgError::Recoverable { height, depth });
        }
        if depth == max_recoverable_reorg_depth {
            return Err(ReorgError::Unrecoverable);
        }
        depth = depth + 1;
    }
}

/// The depth of a reorganisation is the first depth at which the chains
/// agree: a reorganisation of exactly the recoverable depth is found to be
/// recoverable.
pub proof fn lemma_reorg_at_max_depth_is_recoverable(
    db: StoreView,
    node_hashes: Seq<BlockHash>,
    height: u64,
    depth: u64,
    max: u64,
)
    requires
        1 <= depth <= max,
        max <= height,
        max <= node_hashes.len(),
        forall|d: u64|
            depth <= d <= max ==> #[trigger] db.block_hashes.contains_key((height - d) as u64),
        forall|d: u64|
            depth <= d < max ==> db.block_hashes[(height - d) as u64] != #[trigger] node_hashes[d
                - 1],
        db.block_hashes[(height - max) as u64] == node_hashes[max - 1],
    ensures
        walk_back(db, node_hashes, height, depth, max) == Err::<(), ReorgError>(
            ReorgError::Recoverable { height, depth: max },
        ),
    decreases max - depth,
{
    assert(db.block_hashes.contains_key((height - depth) as u64));
    if depth < max {
        assert(db.block_hashes[(height - depth) as u64] != node_hashes[depth - 1]);
        lemma_reorg_at_max_depth_is_recoverable(db, node_hashes, height, (depth + 1) as u64, max);
    }
}

/// A reorganisation deeper than the recoverable depth is found to be
/// unrecoverable: where the chains differ at every depth up to the
/// recoverable one, the walk ends without agreement.
pub proof fn lemma_reorg_below_max_depth_is_unrecoverable(
    db: StoreView,
    node_hashes: Seq<BlockHash>,
    height: u64,
    depth: u64,
    max: u64,
)
    requires
        1 <= depth <= max,
        max <= height,
        max <= node_hashes.len(),
        forall|d: u64|
            depth <= d <= max ==> #[trigger] db.block_hashes.contains_key((height - d) as u64),
        forall|d: u64|
            depth <= d <= max ==> db.block_hashes[(height - d) as u64] != #[trigger] node_hashes[d
                - 1],
    ensures
        walk_back(db, node_hashes, height, depth, max) == Err::<(), ReorgError>(
            ReorgError::Unrecoverable,
        ),
    decreases max - depth,
{
    assert(db.block_hashes.contains_key((height - depth) as u64));
    assert(db.block_hashes[(height - depth) as u64] != node_hashes[depth - 1]);
    if depth < max {
        lemma_reorg_below_max_depth_is_unrecoverable(
            db,
            node_hashes,
            height,
            (depth + 1) as u64,
            max,
        );
    }
}

/// How far the indexing of a block has come: the cache, the transactions
/// and runes recorded for the block, and the error that stopped the work,
/// if any.
pub struct BlockProgress {
    pub cache: CacheView,
    pub tx_ids: Seq<SerializedTxid>,
    pub etched_runes: Seq<RuneId>,
    pub error: Option<UpdaterError>,
}

/// The message to hand to the updater with a state change: the message of
/// the transaction if the state change etches a rune, else none.
pub open spec fn message_for(change: TransactionStateChangeView, tx: TransactionView) -> Option<
    crate::artifact::ArtifactView,
> {
    if change.etched.is_some() {
        deciphered(tx.scripts)
    } else {
        None
    }
}

impl BlockProgress {
    /// Indexes transaction `i` of a block: works out its effect and, if it
    /// touches runes, applies it and records the transaction. A
    /// transaction whose effect cannot be worked out is passed over; an
    /// effect that cannot be applied stops the block.
    #[verifier::opaque]
    pub open spec fn step(
        self,
        db: StoreView,
        chain: Chain,
        height: u32,
        block_time: u32,
        i: u32,
        tx: IndexedTransactionView,
    ) -> BlockProgress {
        match index_runes_spec(
            self.cache,
            db,
            height as u64,
            i,
            tx.transaction,
            deciphered(tx.transaction.scripts),
            minimum_rune(chain, height),
            tx.commitment,
        ) {
            Err(_) => self,
            Ok(change) => if !change.has_rune_updates() {
                self
            } else {
                let (cache, err) = self.cache.save(
                    db,
                    block_time,
                    height,
                    tx.txid,
                    message_for(change, tx.transaction),
                    change,
                    tx.icon,
                    false,
                );
                match err {
                    Some(e) => BlockProgress {
                        cache,
                        error: Some(UpdaterError::TransactionUpdater(e)),
                        ..self
                    },
                    None => BlockProgress {
                        cache,
                        tx_ids: self.tx_ids.push(tx.txid),
                        etched_runes: match change.etched {
                            Some((id, _)) => self.etched_runes.push(id),
                            None => self.etched_runes,
                        },
                        error: None,
                    },
                }
            },
        }
    }

    /// Indexes the transactions of a block from index `from` on, in order,
    /// up to the first error.
    pub open spec fn run(
        self,
        db: StoreView,
        chain: Chain,
        height: u32,
        block_time: u32,
        txs: Seq<IndexedTransactionView>,
        from: nat,
    ) -> BlockProgress
        decreases txs.len() - from,
    {
        if from >= txs.len() || self.error.is_some() {
            self
        } else {
            self.step(db, chain, height, block_time, from as u32, txs[from as int]).run(
                db,
                chain,
                height,
                block_time,
                txs,
                from + 1,
            )
        }
    }
}

/// The cache after a transaction of the mempool was indexed, and the error
/// that stopped the work, if any. A transaction that is already indexed
/// is passed over. Else its effect is worked out for the height of the
/// next block and applied as unconfirmed, and the transaction joins the
/// mempool set.
#[verifier::opaque]
pub open spec fn index_tx_spec(
    cache: CacheView,
    db: StoreView,
    chain: Chain,
    now: u32,
    tx: IndexedTransactionView,
) -> (CacheView, Option<UpdaterError>) {
    if cache.tx_exists(db, tx.txid) {
        (cache, None)
    } else if cache.update.block_count > u32::MAX {
        (cache, Some(UpdaterError::Height))
    } else {
        let height = cache.update.block_count as u32;
        match index_runes_spec(
            cache,
            db,
            height as u64,
            0,
            tx.transaction,
            deciphered(tx.transaction.scripts),
            minimum_rune(chain, height),
            tx.commitment,
        ) {
            Err(e) => (cache, Some(UpdaterError::RuneParser(e))),
            Ok(change) => {
                let (saved, err) = if change.has_rune_updates() {
                    cache.save(
                        db,
                        now,
                        height,
                        tx.txid,
                        message_for(change, tx.transaction),
                        change,
                        tx.icon,
                        true,
                    )
                } else {
                    (cache, None)
                };
                match err {
                    Some(e) => (saved, Some(UpdaterError::TransactionUpdater(e))),
                    None => (
                        if saved.settings.mempool {
                            CacheView {
                                update: crate::store::BatchUpdateView {
                                    mempool_txs: saved.update.mempool_txs.insert(tx.txid),
                                    ..saved.update
                                },
                                ..saved
                            }
                        } else {
                            saved
                        },
                        None,
                    ),
                }
            },
        }
    }
}

/// The store after the transactions of a block were taken back, last
/// first: each transaction whose state change is stored is reverted.
pub open spec fn revert_txs(db: StoreView, tx_ids: Seq<SerializedTxid>, mempool: bool) -> StoreView
    decreases tx_ids.len(),
{
    if tx_ids.len() == 0 {
        db
    } else {
        let txid = tx_ids.last();
        let next = match db.tx_state_change(txid, Some(mempool)) {
            Some(change) => db.revert(txid, change, mempool),
            None => db,
        };
        revert_txs(next, tx_ids.drop_last(), mempool)
    }
}

/// Whether the transactions can be taken back, last first, without a
/// counter falling below zero.
pub open spec fn revert_txs_fit(db: StoreView, tx_ids: Seq<SerializedTxid>, mempool: bool) -> bool
    decreases tx_ids.len(),
{
    if tx_ids.len() == 0 {
        true
    } else {
        let txid = tx_ids.last();
        match db.tx_state_change(txid, Some(mempool)) {
            Some(change) => db.revert_fits(txid, change, mempool) && revert_txs_fit(
                db.revert(txid, change, mempool),
                tx_ids.drop_last(),
                mempool,
            ),
            None => revert_txs_fit(db, tx_ids.drop_last(), mempool),
        }
    }
}

/// The error of a rollback that took a counter below zero, if it did.
pub open spec fn overflow_unless(fits: bool) -> Option<UpdaterError> {
    if fits {
        None
    } else {
        Some(UpdaterError::Rollback(RollbackError::Overflow))
    }
}

/// The store after a block was taken back: its transactions are reverted,
/// last first, and the record of the block and its hash are deleted.
pub open spec fn revert_block_spec(db: StoreView, height: u64, block: BlockView) -> StoreView {
    let reverted = revert_txs(db, block.tx_ids, false);
    StoreView {
        blocks: reverted.blocks.remove(block.header.hash),
        block_hashes: reverted.block_hashes.remove(height),
        ..reverted
    }
}

/// The store after the blocks at the heights `height - i`, for `i` from
/// `from` up to and including `depth`, were taken back in turn; or the
/// store as it is when a block is not found, with that error; or the store
/// after the first block whose rollback took a counter below zero, with
/// that error.
pub open spec fn revert_blocks(db: StoreView, height: u64, from: u64, depth: u64) -> (
    StoreView,
    Option<UpdaterError>,
)
    decreases depth - from,
{
    if from > depth || from > height {
        (db, None)
    } else {
        let h = (height - from) as u64;
        if !db.block_hashes.contains_key(h) || !db.blocks.contains_key(db.block_hashes[h]) {
            (db, Some(UpdaterError::DB(StoreError::NotFound)))
        } else {
            let reverted = revert_block_spec(db, h, db.blocks[db.block_hashes[h]]);
            if !revert_txs_fit(db, db.blocks[db.block_hashes[h]].tx_ids, false) {
                (reverted, Some(UpdaterError::Rollback(RollbackError::Overflow)))
            } else if from == depth {
                (reverted, None)
            } else {
                revert_blocks(reverted, height, (from + 1) as u64, depth)
            }
        }
    }
}

/// The store after a reorganisation of the given depth below `height` was
/// handled: the count of blocks falls to `height - depth`, and the `depth`
/// blocks from that height on are taken back, highest first.
pub open spec fn handle_reorg_spec(db: StoreView, height: u64, depth: u64) -> (
    StoreView,
    Option<UpdaterError>,
) {
    revert_blocks(
        StoreView {
            block_count: if height >= depth {
                (height - depth) as u64
            } else {
                0
            },
            ..db
        },
        height,
        1,
        depth,
    )
}

/// Whether the given transactions can leave the store without a counter
/// falling below zero.
pub open spec fn remove_txs_fit(db: StoreView, txids: Seq<SerializedTxid>, mempool: bool) -> bool
    decreases txids.len(),
{
    if txids.len() == 0 {
        true
    } else {
        let txid = txids[0];
        let left = StoreView { mempool_txs: db.mempool_txs.remove(txid), ..db };
        match left.tx_state_change(txid, Some(mempool)) {
            Some(change) => left.revert_fits(txid, change, mempool) && remove_txs_fit(
                left.revert(txid, change, mempool),
                txids.skip(1),
                mempool,
            ),
            None => remove_txs_fit(left, txids.skip(1), mempool),
        }
    }
}

/// The store after the given transactions left it: each leaves the mempool
/// set and, if its state change is stored, is reverted.
pub open spec fn remove_txs_spec(db: StoreView, txids: Seq<SerializedTxid>, mempool: bool) -> StoreView
    decreases txids.len(),
{
    if txids.len() == 0 {
        db
    } else {
        let txid = txids[0];
        let left = StoreView { mempool_txs: db.mempool_txs.remove(txid), ..db };
        let next = match left.tx_state_change(txid, Some(mempool)) {
            Some(change) => left.revert(txid, change, mempool),
            None => left,
        };
        remove_txs_spec(next, txids.skip(1), mempool)
    }
}

/// Indexes the transactions of a block in order and gives the record of
/// the block.
pub fn index_block(
    cache: &mut UpdaterCache,
    db: &StoreWithLock,
    chain: Chain,
    block: &FetchedBlock,
    height: u32,
) -> (r: Result<Block, UpdaterError>)
    requires
        block.txdata@.len() <= u32::MAX,
        forall|i: int|
            0 <= i < block.txdata@.len() ==> (#[trigger] block.txdata@[i]).transaction.outputs@.len()
                <= u32::MAX,
    ensures
        ({
            let done = (BlockProgress {
                cache: old(cache)@,
                tx_ids: Seq::empty(),
                etched_runes: Seq::empty(),
                error: None,
            }).run(db@, chain, height, block.header.time, block@.txdata, 0);
            &&& final(cache)@ == done.cache
            &&& match done.error {
                Some(e) => r == Err::<Block, UpdaterError>(e),
                None => r.is_ok() && r.unwrap()@ == (BlockView {
                    height: height as u64,
                    header: block.header,
                    tx_ids: done.tx_ids,
                    etched_runes: done.etched_runes,
                }),
            }
        }),
{
    reveal(BlockProgress::step);
    let rune_parser = RuneParser::new(chain, height, false);
    let transaction_updater = TransactionUpdater::new(false);
    let mut record = Block::empty_block(height as u64, block.header);
    let ghost start = BlockProgress {
        cache: cache@,
        tx_ids: Seq::empty(),
        etched_runes: Seq::empty(),
        error: None,
    };
    let ghost txs = block@.txdata;
    let mut i: usize = 0;
    while i < block.txdata.len()
        invariant
            i <= block.txdata.len(),
            block.txdata@.len() <= u32::MAX,
            forall|k: int|
                0 <= k < block.txdata@.len() ==> (#[trigger] block.txdata@[k]).transaction.outputs@.len()
                    <= u32::MAX,
            txs == block@.txdata,
            rune_parser.chain == chain,
            rune_parser.height == height,
            transaction_updater.mempool == false,
            record.height == height as u64,
            record.header == block.header,
            start == (BlockProgress {
                cache: old(cache)@,
                tx_ids: Seq::empty(),
                etched_runes: Seq::empty(),
                error: None,
            }),
            start.run(db@, chain, height, block.header.time, txs, 0) == (BlockProgress {
                cache: cache@,
                tx_ids: record.tx_ids@,
                etched_runes: record.etched_runes@,
                error: None,
            }).run(db@, chain, height, block.header.time, txs, i as nat),
        decreases block.txdata.len() - i,
    {
        let entry = &block.txdata[i];
        let ghost current = BlockProgress {
            cache: cache@,
            tx_ids: record.tx_ids@,
            etched_runes: record.etched_runes@,
            error: None,
        };
        proof {
            reveal(BlockProgress::step);
            assert(txs[i as int] == block.txdata@[i as int]@);
            assert(current.run(db@, chain, height, block.header.time, txs, i as nat)
                == current.step(db@, chain, height, block.header.time, i as u32, txs[i as int]).run(
                db@,
                chain,
                height,
                block.header.time,
                txs,
                (i + 1) as nat,
            ));
        }
        match rune_parser.index_runes(cache, db, i as u32, &entry.transaction, entry.commitment) {
            Ok(result) => {
                if result.has_rune_updates() {
                    match transaction_updater.save(
                        cache,
                        db,
                        block.header.time,
                        height,
                        entry.txid,
                        &entry.transaction,
                        &result,
                        entry.icon,
                    ) {
                        Ok(()) => {},
                        Err(e) => {
                            return Err(UpdaterError::TransactionUpdater(e));
                        },
                    }
                    record.tx_ids.push(entry.txid);
                    match result.etched {
                        Some((id, _)) => {
                            record.etched_runes.push(id);
                        },
                        None => {},
                    }
                }
            },
            Err(_) => {},
        }
        i = i + 1;
    }
    Ok(record)
}

/// Indexes a transaction of the mempool. `now` is the time in seconds
/// that the rune it etches gets as its timestamp.
pub fn index_tx(
    cache: &mut UpdaterCache,
    db: &StoreWithLock,
    chain: Chain,
    now: u32,
    entry: &IndexedTransaction,
) -> (r: Result<(), UpdaterError>)
    requires
        entry.transaction.outputs@.len() <= u32::MAX,
    ensures
        final(cache)@ == index_tx_spec(old(cache)@, db@, chain, now, entry@).0,
        match index_tx_spec(old(cache)@, db@, chain, now, entry@).1 {
            Some(e) => r == Err::<(), UpdaterError>(e),
            None => r.is_ok(),
        },
{
    reveal(index_tx_spec);
    match cache.does_tx_exist(db, entry.txid) {
        Ok(true) => {
            return Ok(());
        },
        _ => {},
    }
    let count = cache.get_block_count();
    if count > u32::MAX as u64 {
        return Err(UpdaterError::Height);
    }
    let height = count as u32;
    let rune_parser = RuneParser::new(chain, height, true);
    let result = match rune_parser.index_runes(
        cache,
        db,
        0,
        &entry.transaction,
        entry.commitment,
    ) {
        Ok(result) => result,
        Err(e) => {
            return Err(UpdaterError::RuneParser(e));
        },
    };
    if result.has_rune_updates() {
        let transaction_updater = TransactionUpdater::new(true);
        match transaction_updater.save(
            cache,
            db,
            now,
            height,
            entry.txid,
            &entry.transaction,
            &result,
            entry.icon,
        ) {
            Ok(()) => {},
            Err(e) => {
                return Err(UpdaterError::TransactionUpdater(e));
            },
        }
    }
    if cache.settings().mempool {
        cache.set_mempool_tx(entry.txid);
    }
    Ok(())
}

/// Takes a block back out of the store. All of the block is taken back in
/// any case; the result is the error if a counter would have fallen below
/// zero.
pub fn revert_block(store: &mut Store, height: u64, block: &Block) -> (r: Result<(), UpdaterError>)
    ensures
        final(store)@ == revert_block_spec(old(store)@, height, block@),
        match overflow_unless(revert_txs_fit(old(store)@, block@.tx_ids, false)) {
            Some(e) => r == Err::<(), UpdaterError>(e),
            None => r.is_ok(),
        },
{
    let rollback_updater = Rollback::new(false);
    let mut fits = true;
    let mut i: usize = block.tx_ids.len();
    proof {
        assert(block@.tx_ids.take(i as int) =~= block@.tx_ids);
    }
    while i > 0
        invariant
            i <= block.tx_ids.len(),
            rollback_updater.mempool == false,
            revert_txs(old(store)@, block@.tx_ids, false) == revert_txs(
                store@,
                block@.tx_ids.take(i as int),
                false,
            ),
            revert_txs_fit(old(store)@, block@.tx_ids, false) == (fits && revert_txs_fit(
                store@,
                block@.tx_ids.take(i as int),
                false,
            )),
        decreases i,
    {
        i = i - 1;
        let txid = block.tx_ids[i];
        proof {
            assert(block@.tx_ids.take(i + 1).last() == txid);
            assert(block@.tx_ids.take(i + 1).drop_last() =~= block@.tx_ids.take(i as int));
        }
        match store.get_tx_state_changes(&txid, Some(false)) {
            Ok(tx_state_changes) => {
                if rollback_updater.revert_transaction(store, &txid, &tx_state_changes).is_err() {
                    fits = false;
                }
            },
            Err(_) => {},
        }
    }
    store.delete_block(&block.header.hash);
    store.delete_block_hash(height);
    if fits {
        Ok(())
    } else {
        Err(UpdaterError::Rollback(RollbackError::Overflow))
    }
}

/// Takes back the `depth` blocks below `height`, highest first.
fn revert_blocks_below(store: &mut Store, height: u64, depth: u64) -> (r: Result<
    (),
    UpdaterError,
>)
    ensures
        final(store)@ == revert_blocks(old(store)@, height, 1, depth).0,
        match revert_blocks(old(store)@, height, 1, depth).1 {
            Some(e) => r == Err::<(), UpdaterError>(e),
            None => r.is_ok(),
        },
{
    let mut i: u64 = 1;
    while i <= depth && i <= height
        invariant
            1 <= i,
            revert_blocks(old(store)@, height, 1, depth) == revert_blocks(store@, height, i, depth),
        decreases depth - i,
    {
        let block_height_rolled_back = height - i;
        let block_hash = match store.get_block_hash(block_height_rolled_back) {
            Ok(h) => h,
            Err(e) => {
                return Err(UpdaterError::DB(e));
            },
        };
        let block = match store.get_block_by_hash(&block_hash) {
            Ok(b) => b,
            Err(e) => {
                return Err(UpdaterError::DB(e));
            },
        };
        match revert_block(store, block_height_rolled_back, &block) {
            Ok(()) => {},
            Err(e) => {
                return Err(e);
            },
        }
        if i == depth {
            return Ok(());
        }
        i = i + 1;
    }
    Ok(())
}

/// Handles a reorganisation of the given depth that was found when a
/// block arrived at `height`.
pub fn handle_reorg(db: &mut StoreWithLock, height: u64, depth: u64) -> (r: Result<
    (),
    UpdaterError,
>)
    ensures
        final(db)@ == handle_reorg_spec(old(db)@, height, depth).0,
        match handle_reorg_spec(old(db)@, height, depth).1 {
            Some(e) => r == Err::<(), UpdaterError>(e),
            None => r.is_ok(),
        },
{
    let store = db.write();
    store.set_block_count(height.saturating_sub(depth));
    revert_blocks_below(store, height, depth)
}

/// Takes the given transactions out of the store. All of them are taken
/// out in any case; the result is the error if a counter would have
/// fallen below zero.
pub fn remove_txs(db: &mut StoreWithLock, txids: &Vec<SerializedTxid>, mempool: bool) -> (r: Result<
    (),
    UpdaterError,
>)
    ensures
        final(db)@ == remove_txs_spec(old(db)@, txids@, mempool),
        match overflow_unless(remove_txs_fit(old(db)@, txids@, mempool)) {
            Some(e) => r == Err::<(), UpdaterError>(e),
            None => r.is_ok(),
        },
{
    let store = db.write();
    let rollback_updater = Rollback::new(mempool);
    let mut fits = true;
    let mut i: usize = 0;
    proof {
        assert(txids@.skip(0) =~= txids@);
    }
    while i < txids.len()
        invariant
            i <= txids.len(),
            rollback_updater.mempool == mempool,
            remove_txs_spec(old(db)@, txids@, mempool) == remove_txs_spec(
                store@,
                txids@.skip(i as int),
                mempool,
            ),
            remove_txs_fit(old(db)@, txids@, mempool) == (fits && remove_txs_fit(
                store@,
                txids@.skip(i as int),
                mempool,
            )),
        decreases txids.len() - i,
    {
        let txid = txids[i];
        proof {
            assert(txids@.skip(i as int)[0] == txid);
            assert(txids@.skip(i as int).skip(1) =~= txids@.skip(i + 1));
        }
        store.remove_mempool_tx(&txid);
        match store.get_tx_state_changes(&txid, Some(mempool)) {
            Ok(tx_state_changes) => {
                if rollback_updater.revert_transaction(store, &txid, &tx_state_changes).is_err() {
                    fits = false;
                }
            },
            Err(_) => {},
        }
        i = i + 1;
    }
    if fits {
        Ok(())
    } else {
        Err(UpdaterError::Rollback(RollbackError::Overflow))
    }
}

/// The number of blocks after which a window is committed, as a count of
/// entries.
pub open spec fn flush_size(commit_interval: u64) -> usize {
    if commit_interval > usize::MAX {
        usize::MAX
    } else {
        commit_interval as usize
    }
}

/// The views of the transactions.
pub open spec fn tx_views(txs: Seq<IndexedTransaction>) -> Seq<IndexedTransactionView> {
    Seq::new(txs.len(), |i: int| txs[i]@)
}

/// The outputs that the inputs of a transaction spend, from input `from`
/// on, noted with their spenders. The input of a coinbase spends nothing.
pub open spec fn note_inputs(
    addresses: AddressUpdaterView,
    txid: SerializedTxid,
    inputs: Seq<OutPoint>,
    from: nat,
) -> AddressUpdaterView
    decreases inputs.len() - from,
{
    if from >= inputs.len() {
        addresses
    } else {
        let next = if inputs[from as int].spec_is_null() {
            addresses
        } else {
            addresses.with_spent(inputs[from as int], SpenderReference { txid, vin: from as u32 })
        };
        note_inputs(next, txid, inputs, from + 1)
    }
}

/// The outputs of a transaction, from output `from` on, noted with their
/// scripts.
pub open spec fn note_outputs(
    addresses: AddressUpdaterView,
    txid: SerializedTxid,
    scripts: Seq<Seq<u8>>,
    from: nat,
) -> AddressUpdaterView
    decreases scripts.len() - from,
{
    if from >= scripts.len() {
        addresses
    } else {
        note_outputs(
            addresses.with_new(OutPoint { txid, vout: from as u32 }, scripts[from as int]),
            txid,
            scripts,
            from + 1,
        )
    }
}

/// What a transaction spends and creates, noted.
pub open spec fn note_tx(addresses: AddressUpdaterView, tx: IndexedTransactionView) -> AddressUpdaterView {
    note_outputs(
        note_inputs(addresses, tx.txid, tx.transaction.inputs, 0),
        tx.txid,
        tx.transaction.scripts,
        0,
    )
}

/// What the transactions from index `from` on spend and create, noted in
/// order.
pub open spec fn note_txs(
    addresses: AddressUpdaterView,
    txs: Seq<IndexedTransactionView>,
    from: nat,
) -> AddressUpdaterView
    decreases txs.len() - from,
{
    if from >= txs.len() {
        addresses
    } else {
        note_txs(note_tx(addresses, txs[from as int]), txs, from + 1)
    }
}

/// Whether the numbers of inputs and of outputs of the transaction fit the
/// 32 bits in which they are counted.
pub open spec fn tx_countable(tx: IndexedTransaction) -> bool {
    tx.transaction.inputs@.len() <= u32::MAX && tx.transaction.outputs@.len() <= u32::MAX
}

/// Whether the numbers of transactions, inputs and outputs of the block
/// fit the 32 bits in which they are counted.
pub open spec fn countable(block: FetchedBlock) -> bool {
    &&& block.txdata@.len() <= u32::MAX
    &&& forall|i: int| 0 <= i < block.txdata@.len() ==> tx_countable(#[trigger] block.txdata@[i])
}

/// Notes what one transaction spends and creates.
fn note_transaction(addresses: &mut AddressUpdater, entry: &IndexedTransaction)
    requires
        tx_countable(*entry),
    ensures
        final(addresses)@ == note_tx(old(addresses)@, entry@),
{
    let tx = &entry.transaction;
    let mut i: usize = 0;
    while i < tx.inputs.len()
        invariant
            i <= tx.inputs.len(),
            tx.inputs@.len() <= u32::MAX,
            tx == &entry.transaction,
            note_inputs(old(addresses)@, entry.txid, tx@.inputs, 0) == note_inputs(
                addresses@,
                entry.txid,
                tx@.inputs,
                i as nat,
            ),
        decreases tx.inputs.len() - i,
    {
        if !tx.inputs[i].is_null() {
            addresses.add_spent_outpoint(
                tx.inputs[i],
                SpenderReference { txid: entry.txid, vin: i as u32 },
            );
        }
        i = i + 1;
    }
    let ghost noted = addresses@;
    let mut k: usize = 0;
    while k < tx.outputs.len()
        invariant
            k <= tx.outputs.len(),
            tx.outputs@.len() <= u32::MAX,
            tx == &entry.transaction,
            note_outputs(noted, entry.txid, tx@.scripts, 0) == note_outputs(
                addresses@,
                entry.txid,
                tx@.scripts,
                k as nat,
            ),
        decreases tx.outputs.len() - k,
    {
        proof {
            assert(tx@.scripts[k as int] == tx.outputs@[k as int].script_pubkey@);
        }
        addresses.add_new_outpoint(
            OutPoint { txid: entry.txid, vout: k as u32 },
            tx.outputs[k].script_pubkey.clone(),
        );
        k = k + 1;
    }
}

/// Notes what the transactions spend and create, in order.
pub fn note_transactions(addresses: &mut AddressUpdater, txs: &Vec<IndexedTransaction>)
    requires
        forall|i: int| 0 <= i < txs@.len() ==> tx_countable(#[trigger] txs@[i]),
    ensures
        final(addresses)@ == note_txs(old(addresses)@, tx_views(txs@), 0),
{
    let ghost views = tx_views(txs@);
    let mut i: usize = 0;
    while i < txs.len()
        invariant
            i <= txs.len(),
            views == tx_views(txs@),
            forall|k: int| 0 <= k < txs@.len() ==> tx_countable(#[trigger] txs@[k]),
            note_txs(old(addresses)@, views, 0) == note_txs(addresses@, views, i as nat),
        decreases txs.len() - i,
    {
        proof {
            assert(views[i as int] == txs@[i as int]@);
        }
        note_transaction(addresses, &txs[i]);
        i = i + 1;
    }
}

/// What a commit leads to: the cache, the noted outputs, the store, the
/// events that are due for sending, and the error that stopped the commit,
/// if any.
pub struct Committed {
    pub cache: CacheView,
    pub addresses: AddressUpdaterView,
    pub db: StoreView,
    pub events: Seq<EventView>,
    pub error: Option<UpdaterError>,
}

/// What committing a window leads to. Where addresses are indexed, the
/// changes to the script index are staged first, with an event for each
/// address they concern. Then the window is committed to the store and its
/// events become due. An error leaves the store as it is and makes no event
/// due.
#[verifier::opaque]
pub open spec fn commit_spec(
    cache: CacheView,
    addresses: AddressUpdaterView,
    db: StoreView,
    settings: Settings,
) -> Committed {
    let (batched, batch_error) = if settings.index_addresses {
        addresses.batch(cache, db)
    } else {
        (cache, None)
    };
    if batch_error.is_some() {
        Committed {
            cache: batched,
            addresses,
            db,
            events: Seq::empty(),
            error: Some(UpdaterError::DB(batch_error.unwrap())),
        }
    } else {
        let told = if settings.index_addresses {
            batched.with_address_events(settings.chain)
        } else {
            batched
        };
        let noted = if settings.index_addresses {
            AddressUpdaterView::empty()
        } else {
            addresses
        };
        let (prepared, err) = told.prepared(db);
        match err {
            Some(e) => Committed {
                cache: prepared,
                addresses: noted,
                db,
                events: Seq::empty(),
                error: Some(UpdaterError::DB(e)),
            },
            None => Committed {
                cache: CacheView { events: Seq::empty(), ..prepared.after_flush() },
                addresses: noted,
                db: crate::cache::committed(db, prepared),
                events: prepared.events,
                error: None,
            },
        }
    }
}

/// Commits a window to the store and hands over the events that tell of
/// it.
pub fn commit(
    settings: &Settings,
    cache: &mut UpdaterCache,
    addresses: &mut AddressUpdater,
    db: &mut StoreWithLock,
) -> (r: Result<Vec<Event>, UpdaterError>)
    ensures
        ({
            let done = commit_spec(old(cache)@, old(addresses)@, old(db)@, *settings);
            &&& final(cache)@ == done.cache
            &&& final(addresses)@ == done.addresses
            &&& final(db)@ == done.db
            &&& match done.error {
                Some(e) => r == Err::<Vec<Event>, UpdaterError>(e),
                None => r.is_ok() && event_views(r.unwrap()@) == done.events,
            }
        }),
{
    reveal(commit_spec);
    if settings.index_addresses {
        match addresses.batch_update_script_pubkey(cache, db) {
            Ok(()) => {},
            Err(e) => {
                return Err(UpdaterError::DB(e));
            },
        }
        cache.add_address_events(settings.chain);
    }
    match cache.flush(db) {
        Ok(()) => {},
        Err(e) => {
            return Err(UpdaterError::DB(e));
        },
    }
    Ok(cache.send_events())
}

/// What taking in blocks leads to: the cache, the noted outputs, the
/// store, the events that became due, and the error that stopped the work,
/// if any.
pub struct Applied {
    pub cache: CacheView,
    pub addresses: AddressUpdaterView,
    pub db: StoreView,
    pub events: Seq<EventView>,
    pub error: Option<UpdaterError>,
}

/// The outcome with the given events before its own.
pub open spec fn after_events(events: Seq<EventView>, applied: Applied) -> Applied {
    Applied { events: events + applied.events, ..applied }
}

/// The outcome of the comparison of the chains before a block is taken in:
/// nothing to do, or the store after a recoverable reorganisation was
/// handled together with the error to report, or the error alone.
pub open spec fn reorg_outcome(db: StoreView, settings: Settings, block: FetchedBlockView, height: u64) -> (
    StoreView,
    Option<UpdaterError>,
) {
    match reorg_check(
        db,
        block.header.prev_blockhash,
        block.node_hashes,
        height,
        settings.max_recoverable_reorg_depth,
    ) {
        Ok(()) => (db, None),
        Err(ReorgError::Recoverable { height, depth }) => {
            let (rolled, err) = handle_reorg_spec(db, height, depth);
            (
                rolled,
                match err {
                    Some(e) => Some(e),
                    None => Some(
                        UpdaterError::BitcoinReorg(ReorgError::Recoverable { height, depth }),
                    ),
                },
            )
        },
        Err(e) => (db, Some(UpdaterError::BitcoinReorg(e))),
    }
}

/// The cache after the record of the block was made: below the first
/// height that can hold runes the record is empty and the cache is left
/// alone, else the transactions of the block are indexed.
pub open spec fn record_block(
    cache: CacheView,
    db: StoreView,
    settings: Settings,
    block: FetchedBlockView,
    height: u32,
) -> BlockProgress {
    let start = BlockProgress {
        cache,
        tx_ids: Seq::empty(),
        etched_runes: Seq::empty(),
        error: None,
    };
    if height < settings.chain.spec_first_rune_height() {
        start
    } else {
        start.run(db, settings.chain, height, block.header.time, block.txdata, 0)
    }
}

/// The cache with the record of a block staged as the next block of the
/// chain.
pub open spec fn stage_block(
    cache: CacheView,
    height: u64,
    block: FetchedBlockView,
    tx_ids: Seq<SerializedTxid>,
    etched_runes: Seq<RuneId>,
) -> CacheView {
    CacheView {
        update: crate::store::BatchUpdateView {
            blocks: cache.update.blocks.insert(
                block.header.hash,
                BlockView { height, header: block.header, tx_ids, etched_runes },
            ),
            block_hashes: cache.update.block_hashes.insert(height, block.header.hash),
            block_count: (height + 1) as u64,
            ..cache.update
        },
        last_block_height: Some(height),
        ..cache
    }
}

/// What taking in the next block of the chain leads to. If the engine was
/// at the tip, the chains are compared first. Then the record of the block
/// is made and staged, what the block spends and creates is noted where
/// addresses are indexed, and the window is committed if it is full.
#[verifier::opaque]
pub open spec fn apply_block_spec(
    cache: CacheView,
    addresses: AddressUpdaterView,
    db: StoreView,
    settings: Settings,
    block: FetchedBlockView,
    was_at_tip: bool,
) -> Applied {
    let height = cache.update.block_count;
    let (rolled, reorg) = if was_at_tip {
        reorg_outcome(db, settings, block, height)
    } else {
        (db, None)
    };
    if reorg.is_some() {
        Applied { cache, addresses, db: rolled, events: Seq::empty(), error: reorg }
    } else if height >= u32::MAX {
        Applied { cache, addresses, db, events: Seq::empty(), error: Some(UpdaterError::Height) }
    } else {
        let progress = record_block(cache, db, settings, block, height as u32);
        if progress.error.is_some() {
            Applied {
                cache: progress.cache,
                addresses,
                db,
                events: Seq::empty(),
                error: progress.error,
            }
        } else {
            let staged = stage_block(
                progress.cache,
                height,
                block,
                progress.tx_ids,
                progress.etched_runes,
            );
            let noted = if settings.index_addresses {
                note_txs(addresses, block.txdata, 0)
            } else {
                addresses
            };
            if staged.update.blocks.len() >= flush_size(settings.commit_interval) {
                let done = commit_spec(staged, noted, db, settings);
                Applied {
                    cache: done.cache,
                    addresses: done.addresses,
                    db: done.db,
                    events: done.events,
                    error: done.error,
                }
            } else {
                Applied { cache: staged, addresses: noted, db, events: Seq::empty(), error: None }
            }
        }
    }
}

/// What taking in the blocks from index `from` on leads to, in order, up
/// to the first error.
pub open spec fn apply_blocks_spec(
    cache: CacheView,
    addresses: AddressUpdaterView,
    db: StoreView,
    settings: Settings,
    blocks: Seq<FetchedBlockView>,
    from: nat,
    was_at_tip: bool,
) -> Applied
    decreases blocks.len() - from,
{
    if from >= blocks.len() {
        Applied { cache, addresses, db, events: Seq::empty(), error: None }
    } else {
        let one = apply_block_spec(cache, addresses, db, settings, blocks[from as int], was_at_tip);
        if one.error.is_some() {
            one
        } else {
            after_events(
                one.events,
                apply_blocks_spec(
                    one.cache,
                    one.addresses,
                    one.db,
                    settings,
                    blocks,
                    from + 1,
                    was_at_tip,
                ),
            )
        }
    }
}

/// The settings of the cache of the block pipeline.
pub open spec fn block_cache_settings(settings: Settings) -> UpdaterCacheSettings {
    UpdaterCacheSettings {
        max_recoverable_reorg_depth: settings.max_recoverable_reorg_depth,
        index_spent_outputs: settings.index_spent_outputs,
        mempool: false,
    }
}

/// The settings of the cache of the mempool pipeline.
pub open spec fn mempool_cache_settings(settings: Settings) -> UpdaterCacheSettings {
    UpdaterCacheSettings {
        max_recoverable_reorg_depth: settings.max_recoverable_reorg_depth,
        index_spent_outputs: settings.index_spent_outputs,
        mempool: true,
    }
}

/// What one update with the fetched blocks leads to: a new window is
/// begun over the store, the blocks are taken in in order, and what is left
/// in the window is committed. With `shutdown` set no block is taken in.
pub open spec fn update_to_tip_spec(
    db: StoreView,
    settings: Settings,
    blocks: Seq<FetchedBlockView>,
    was_at_tip: bool,
    shutdown: bool,
) -> Applied {
    let done = apply_blocks_spec(
        CacheView::fresh(db, block_cache_settings(settings)),
        AddressUpdaterView::empty(),
        db,
        settings,
        if shutdown {
            Seq::empty()
        } else {
            blocks
        },
        0,
        was_at_tip,
    );
    if done.error.is_some() {
        done
    } else {
        let last = commit_spec(done.cache, done.addresses, done.db, settings);
        Applied {
            cache: last.cache,
            addresses: last.addresses,
            db: last.db,
            events: done.events + last.events,
            error: last.error,
        }
    }
}

/// The cache after the transactions from index `from` on were indexed as
/// unconfirmed, in order, up to the first error.
pub open spec fn index_txs_spec(
    cache: CacheView,
    db: StoreView,
    chain: Chain,
    now: u32,
    txs: Seq<IndexedTransactionView>,
    from: nat,
) -> (CacheView, Option<UpdaterError>)
    decreases txs.len() - from,
{
    if from >= txs.len() {
        (cache, None)
    } else {
        let one = index_tx_spec(cache, db, chain, now, txs[from as int]);
        if one.1.is_some() {
            one
        } else {
            index_txs_spec(one.0, db, chain, now, txs, from + 1)
        }
    }
}

/// What indexing new transactions of the mempool leads to: a new window
/// for the mempool is begun, the transactions are indexed in order, what
/// they spend and create is noted where addresses are indexed, and the
/// window is committed. With an error nothing is committed. Without
/// transactions nothing happens.
pub open spec fn index_new_txs_spec(
    db: StoreView,
    settings: Settings,
    txs: Seq<IndexedTransactionView>,
    now: u32,
) -> (StoreView, Seq<EventView>, Option<UpdaterError>) {
    if txs.len() == 0 {
        (db, Seq::empty(), None)
    } else {
        let fresh = CacheView::fresh(db, mempool_cache_settings(settings));
        let (cache, err) = index_txs_spec(fresh, db, settings.chain, now, txs, 0);
        match err {
            Some(e) => (db, Seq::empty(), Some(e)),
            None => {
                let noted = if settings.index_addresses {
                    note_txs(AddressUpdaterView::empty(), txs, 0)
                } else {
                    AddressUpdaterView::empty()
                };
                let done = commit_spec(cache, noted, db, settings);
                (done.db, done.events, done.error)
            },
        }
    }
}

/// What one update of the mempool side leads to: the new transactions are
/// indexed and committed, then the transactions that left the mempool are
/// taken out. Where taking them out took a counter below zero, that is the
/// error.
pub open spec fn index_mempool_spec(
    db: StoreView,
    settings: Settings,
    new_txs: Seq<IndexedTransactionView>,
    removed: Seq<SerializedTxid>,
    now: u32,
) -> (StoreView, Seq<EventView>, Option<UpdaterError>) {
    let (indexed, events, err) = index_new_txs_spec(db, settings, new_txs, now);
    if err.is_some() {
        (indexed, events, err)
    } else {
        (
            remove_txs_spec(indexed, removed, true),
            events,
            overflow_unless(remove_txs_fit(indexed, removed, true)),
        )
    }
}

/// The transactions of `current` that are not stored, in their order: the
/// ones that are new to the mempool set.
pub open spec fn not_among(current: Seq<SerializedTxid>, stored: Set<SerializedTxid>) -> Seq<
    SerializedTxid,
>
    decreases current.len(),
{
    if current.len() == 0 {
        Seq::empty()
    } else {
        let before = not_among(current.drop_last(), stored);
        if stored.contains(current.last()) {
            before
        } else {
            before.push(current.last())
        }
    }
}

/// The elements of the list as a set.
pub open spec fn members(list: Seq<SerializedTxid>) -> Set<SerializedTxid> {
    Set::new(|t: SerializedTxid| list.contains(t))
}

/// Whether the list holds the transaction.
fn holds_txid(list: &Vec<SerializedTxid>, txid: &SerializedTxid) -> (r: bool)
    ensures
        r == list@.contains(*txid),
{
    let mut i: usize = 0;
    while i < list.len()
        invariant
            i <= list.len(),
            forall|j: int| 0 <= j < i ==> list@[j] != *txid,
        decreases list.len() - i,
    {
        if list[i] == *txid {
            return true;
        }
        i = i + 1;
    }
    false
}

/// The transactions of `list` that `other` does not hold, in their order.
fn difference(list: &Vec<SerializedTxid>, other: &Vec<SerializedTxid>) -> (r: Vec<SerializedTxid>)
    ensures
        r@ == not_among(list@, members(other@)),
{
    let mut out: Vec<SerializedTxid> = Vec::new();
    let mut i: usize = 0;
    while i < list.len()
        invariant
            i <= list.len(),
            out@ == not_among(list@.take(i as int), members(other@)),
        decreases list.len() - i,
    {
        proof {
            assert(list@.take(i + 1).drop_last() =~= list@.take(i as int));
        }
        if !holds_txid(other, &list[i]) {
            out.push(list[i]);
        }
        i = i + 1;
    }
    proof {
        assert(list@.take(list.len() as int) =~= list@);
    }
    out
}

/// Compares the mempool of the node with the stored mempool set: gives
/// the transactions that are new, in the order of the node, and those that
/// are gone, in the order of the store.
pub fn mempool_changes(db: &StoreWithLock, current: &Vec<SerializedTxid>) -> (r: (
    Vec<SerializedTxid>,
    Vec<SerializedTxid>,
))
    ensures
        r.0@ == not_among(current@, db@.mempool_txs),
        forall|t: SerializedTxid|
            #![trigger r.1@.contains(t)]
            r.1@.contains(t) <==> (db@.mempool_txs.contains(t) && !current@.contains(t)),
        r.1@.no_duplicates(),
{
    let stored = db.read().get_mempool_txids();
    proof {
        assert(members(stored@) =~= db@.mempool_txs);
    }
    let new_txs = difference(current, &stored);
    let removed_txs = difference(&stored, current);
    proof {
        lemma_not_among(stored@, members(current@));
    }
    (new_txs, removed_txs)
}

/// What is left of a list without the elements of a set: its elements are
/// those of the list that are not in the set, and none comes twice if none
/// did.
pub proof fn lemma_not_among(list: Seq<SerializedTxid>, other: Set<SerializedTxid>)
    ensures
        forall|t: SerializedTxid| #[trigger]
            not_among(list, other).contains(t) <==> (list.contains(t) && !other.contains(t)),
        list.no_duplicates() ==> not_among(list, other).no_duplicates(),
    decreases list.len(),
{
    if list.len() > 0 {
        let front = list.drop_last();
        let last = list.last();
        let before = not_among(front, other);
        lemma_not_among(front, other);
        let now = not_among(list, other);
        assert(now == if other.contains(last) {
            before
        } else {
            before.push(last)
        });
        assert forall|t: SerializedTxid| #[trigger]
            now.contains(t) <==> (list.contains(t) && !other.contains(t)) by {
            assert(before.contains(t) <==> (front.contains(t) && !other.contains(t)));
            if front.contains(t) {
                let j = choose|j: int| 0 <= j < front.len() && front[j] == t;
                assert(list[j] == t);
            }
            if list.contains(t) && t != last {
                let j = choose|j: int| 0 <= j < list.len() && list[j] == t;
                assert(front[j] == t);
            }
            assert(list[list.len() - 1] == last);
            if before.contains(t) {
                let i = choose|i: int| 0 <= i < before.len() && before[i] == t;
                assert(now[i] == t);
            }
            if now.contains(t) && !before.contains(t) {
                let i = choose|i: int| 0 <= i < now.len() && now[i] == t;
                if i < before.len() {
                    assert(before[i] == t);
                }
            }
            if !other.contains(last) {
                assert(now[before.len() as int] == last);
            }
        }
        if list.no_duplicates() {
            assert(front.no_duplicates());
            if !other.contains(last) {
                if front.contains(last) {
                    let j = choose|j: int| 0 <= j < front.len() && front[j] == last;
                    assert(list[j] == list[list.len() - 1]);
                }
                assert(!before.contains(last));
                assert forall|a: int, b: int|
                    0 <= a < now.len() && 0 <= b < now.len() && a != b implies now[a] != now[b] by {
                    if a < before.len() && b < before.len() {
                    } else if a < before.len() {
                        assert(before.contains(before[a]));
                    } else {
                        assert(before.contains(before[b]));
                    }
                }
            }
        }
    }
}

/// Moves the events of `more` behind those of `all`.
fn append_events(all: &mut Vec<Event>, more: Vec<Event>)
    ensures
        event_views(final(all)@) == event_views(old(all)@) + event_views(more@),
{
    let ghost added = more@;
    let mut more = more;
    all.append(&mut more);
    assert(event_views(all@) =~= event_views(old(all)@) + event_views(added));
}

/// The engine that follows the chain of the node.
pub struct Updater {
    settings: Settings,
    is_at_tip: bool,
}

impl Updater {
    pub closed spec fn settings(&self) -> Settings {
        self.settings
    }

    pub closed spec fn at_tip(&self) -> bool {
        self.is_at_tip
    }

    pub fn new(settings: Settings) -> (r: Self)
        ensures
            r.settings() == settings,
            !r.at_tip(),
    {
        Updater { settings, is_at_tip: false }
    }

    /// Whether the last update reached the tip of the chain of the node.
    pub fn is_at_tip(&self) -> (r: bool)
        ensures
            r == self.at_tip(),
    {
        self.is_at_tip
    }

    /// Takes in the next block of the chain and hands over the events of
    /// the window if the block made it full.
    pub fn apply_block(
        &self,
        cache: &mut UpdaterCache,
        addresses: &mut AddressUpdater,
        db: &mut StoreWithLock,
        block: &FetchedBlock,
        was_at_tip: bool,
    ) -> (r: Result<Vec<Event>, UpdaterError>)
        requires
            countable(*block),
        ensures
            ({
                let done = apply_block_spec(
                    old(cache)@,
                    old(addresses)@,
                    old(db)@,
                    self.settings(),
                    block@,
                    was_at_tip,
                );
                &&& final(cache)@ == done.cache
                &&& final(addresses)@ == done.addresses
                &&& final(db)@ == done.db
                &&& match done.error {
                    Some(e) => r == Err::<Vec<Event>, UpdaterError>(e),
                    None => r.is_ok() && event_views(r.unwrap()@) == done.events,
                }
            }),
    {
        reveal(apply_block_spec);
        let height = cache.get_block_count();
        if was_at_tip {
            match detect_reorg(
                db,
                &block.header.prev_blockhash,
                &block.node_hashes,
                height,
                self.settings.max_recoverable_reorg_depth(),
            ) {
                Ok(()) => {},
                Err(ReorgError::Recoverable { height, depth }) => {
                    match handle_reorg(db, height, depth) {
                        Ok(()) => {},
                        Err(e) => {
                            return Err(e);
                        },
                    }
                    return Err(
                        UpdaterError::BitcoinReorg(ReorgError::Recoverable { height, depth }),
                    );
                },
                Err(e) => {
                    return Err(UpdaterError::BitcoinReorg(e));
                },
            }
        }
        if height >= u32::MAX as u64 {
            return Err(UpdaterError::Height);
        }
        let min_height = self.settings.chain.first_rune_height();
        proof {
            crate::laws::lemma_run_keeps_frame(
                BlockProgress {
                    cache: cache@,
                    tx_ids: Seq::empty(),
                    etched_runes: Seq::empty(),
                    error: None,
                },
                db@,
                self.settings.chain,
                height as u32,
                block.header.time,
                block@.txdata,
                0,
            );
        }
        let record = if (height as u32) < min_height {
            Block::empty_block(height, block.header)
        } else {
            match index_block(cache, db, self.settings.chain, block, height as u32) {
                Ok(record) => record,
                Err(e) => {
                    return Err(e);
                },
            }
        };
        cache.set_new_block(record);
        if self.settings.index_addresses {
            proof {
                assert(tx_views(block.txdata@) =~= block@.txdata);
            }
            note_transactions(addresses, &block.txdata);
        }
        let size: usize = if self.settings.commit_interval > usize::MAX as u64 {
            usize::MAX
        } else {
            self.settings.commit_interval as usize
        };
        if cache.should_flush(size) {
            commit(&self.settings, cache, addresses, db)
        } else {
            let none: Vec<Event> = Vec::new();
            assert(event_views(none@) =~= Seq::<EventView>::empty());
            Ok(none)
        }
    }

    /// Brings the index up to the tip with the blocks that were fetched
    /// from the node: takes them in in order, commits what is left in the
    /// window, and, unless a shutdown was asked for, notes that the tip is
    /// reached. With `shutdown` set no block is taken in. Gives the events
    /// of everything that was committed.
    ///
    /// The mints of every rune stay within its cap. After an update
    /// without an error the store holds every fetched block at its height
    /// and counts them.
    pub fn update_to_tip(
        &mut self,
        db: &mut StoreWithLock,
        blocks: &Vec<FetchedBlock>,
        shutdown: bool,
    ) -> (r: Result<Vec<Event>, UpdaterError>)
        requires
            forall|i: int| 0 <= i < blocks@.len() ==> countable(#[trigger] blocks@[i]),
        ensures
            final(self).settings() == old(self).settings(),
            ({
                let done = update_to_tip_spec(
                    old(db)@,
                    old(self).settings(),
                    Seq::new(blocks@.len(), |i: int| blocks@[i]@),
                    old(self).at_tip(),
                    shutdown,
                );
                &&& final(db)@ == done.db
                &&& match done.error {
                    Some(e) => r == Err::<Vec<Event>, UpdaterError>(e) && !final(self).at_tip(),
                    None => {
                        &&& r.is_ok()
                        &&& event_views(r.unwrap()@) == done.events
                        &&& final(self).at_tip() == !shutdown
                    },
                }
            }),
            crate::laws::runes_within_caps(old(db)@.runes) ==> crate::laws::runes_within_caps(
                final(db)@.runes,
            ),
            r.is_ok() && !shutdown ==> crate::tip::holds_chain(
                final(db)@,
                old(db)@.block_count as nat,
                Seq::new(blocks@.len(), |i: int| blocks@[i]@),
                blocks@.len(),
            ),
    {
        let mut cache = match UpdaterCache::new(
            db,
            UpdaterCacheSettings::new(&self.settings, false),
        ) {
            Ok(c) => c,
            Err(e) => {
                return Err(UpdaterError::DB(e));
            },
        };
        let mut addresses = AddressUpdater::new();
        let mut all: Vec<Event> = Vec::new();
        let was_at_tip = self.is_at_tip;
        self.is_at_tip = false;
        let ghost views = Seq::new(blocks@.len(), |i: int| blocks@[i]@);
        let ghost waiting = if shutdown {
            Seq::empty()
        } else {
            views
        };
        let ghost whole = apply_blocks_spec(
            cache@,
            addresses@,
            db@,
            self.settings(),
            waiting,
            0,
            was_at_tip,
        );
        let ghost goal = update_to_tip_spec(
            old(db)@,
            old(self).settings(),
            views,
            old(self).at_tip(),
            shutdown,
        );
        proof {
            crate::laws::lemma_update_to_tip_keeps_caps(
                old(db)@,
                old(self).settings(),
                views,
                old(self).at_tip(),
                shutdown,
            );
            if !shutdown && goal.error.is_none() {
                crate::tip::lemma_update_reaches_the_tip(
                    old(db)@,
                    old(self).settings(),
                    views,
                    old(self).at_tip(),
                );
            }
            assert(event_views(all@) =~= Seq::<EventView>::empty());
            assert(after_events(event_views(all@), whole) == whole) by {
                assert(event_views(all@) + whole.events =~= whole.events);
            }
        }
        let mut i: usize = 0;
        if !shutdown {
            while i < blocks.len()
                invariant
                    i <= blocks.len(),
                    !shutdown,
                    waiting == views,
                    views == Seq::new(blocks@.len(), |k: int| blocks@[k]@),
                    forall|k: int| 0 <= k < blocks@.len() ==> countable(#[trigger] blocks@[k]),
                    self.settings() == old(self).settings(),
                    !self.at_tip(),
                    goal == update_to_tip_spec(
                        old(db)@,
                        old(self).settings(),
                        views,
                        old(self).at_tip(),
                        shutdown,
                    ),
                    whole == apply_blocks_spec(
                        CacheView::fresh(old(db)@, block_cache_settings(old(self).settings())),
                        AddressUpdaterView::empty(),
                        old(db)@,
                        old(self).settings(),
                        waiting,
                        0,
                        old(self).at_tip(),
                    ),
                    was_at_tip == old(self).at_tip(),
                    crate::laws::runes_within_caps(old(db)@.runes) ==> crate::laws::runes_within_caps(
                        goal.db.runes,
                    ),
                    goal.error.is_none() ==> crate::tip::holds_chain(
                        goal.db,
                        old(db)@.block_count as nat,
                        views,
                        views.len(),
                    ),
                    whole == after_events(
                        event_views(all@),
                        apply_blocks_spec(
                            cache@,
                            addresses@,
                            db@,
                            self.settings(),
                            waiting,
                            i as nat,
                            was_at_tip,
                        ),
                    ),
                decreases blocks.len() - i,
            {
                let ghost before = event_views(all@);
                let ghost one = apply_block_spec(
                    cache@,
                    addresses@,
                    db@,
                    self.settings(),
                    waiting[i as int],
                    was_at_tip,
                );
                proof {
                    assert(views[i as int] == blocks@[i as int]@);
                }
                match self.apply_block(&mut cache, &mut addresses, db, &blocks[i], was_at_tip) {
                    Ok(events) => {
                        append_events(&mut all, events);
                    },
                    Err(e) => {
                        return Err(e);
                    },
                }
                proof {
                    let rest = apply_blocks_spec(
                        cache@,
                        addresses@,
                        db@,
                        self.settings(),
                        waiting,
                        (i + 1) as nat,
                        was_at_tip,
                    );
                    assert(after_events(before, after_events(one.events, rest)) == after_events(
                        event_views(all@),
                        rest,
                    )) by {
                        assert(before + (one.events + rest.events) =~= (before + one.events)
                            + rest.events);
                    }
                }
                i = i + 1;
            }
        }
        match commit(&self.settings, &mut cache, &mut addresses, db) {
            Ok(events) => {
                append_events(&mut all, events);
            },
            Err(e) => {
                return Err(e);
            },
        }
        if !shutdown {
            self.is_at_tip = true;
        }
        Ok(all)
    }

    /// Brings the mempool side of the index up to date: the new
    /// transactions are indexed in the given order and committed, then the
    /// transactions that left the mempool are taken out. Gives the events
    /// of what was committed.
    ///
    /// The mints of every rune stay within its cap.
    pub fn index_mempool(
        &self,
        db: &mut StoreWithLock,
        new_txs: &Vec<IndexedTransaction>,
        removed_txs: &Vec<SerializedTxid>,
        now: u32,
    ) -> (r: Result<Vec<Event>, UpdaterError>)
        requires
            forall|i: int| 0 <= i < new_txs@.len() ==> tx_countable(#[trigger] new_txs@[i]),
        ensures
            ({
                let done = index_mempool_spec(
                    old(db)@,
                    self.settings(),
                    tx_views(new_txs@),
                    removed_txs@,
                    now,
                );
                &&& final(db)@ == done.0
                &&& match done.2 {
                    Some(e) => r == Err::<Vec<Event>, UpdaterError>(e),
                    None => r.is_ok() && event_views(r.unwrap()@) == done.1,
                }
            }),
            crate::laws::runes_within_caps(old(db)@.runes) ==> crate::laws::runes_within_caps(
                final(db)@.runes,
            ),
    {
        proof {
            crate::laws::lemma_index_mempool_keeps_caps(
                old(db)@,
                self.settings(),
                tx_views(new_txs@),
                removed_txs@,
                now,
            );
        }
        let events = match self.index_new_txs(db, new_txs, now) {
            Ok(events) => events,
            Err(e) => {
                return Err(e);
            },
        };
        match remove_txs(db, removed_txs, true) {
            Ok(()) => Ok(events),
            Err(e) => Err(e),
        }
    }

    /// Indexes new transactions of the mempool, in the given order, and
    /// commits them.
    pub fn index_new_txs(&self, db: &mut StoreWithLock, new_txs: &Vec<IndexedTransaction>, now: u32) -> (r:
        Result<Vec<Event>, UpdaterError>)
        requires
            forall|i: int| 0 <= i < new_txs@.len() ==> tx_countable(#[trigger] new_txs@[i]),
        ensures
            ({
                let done = index_new_txs_spec(old(db)@, self.settings(), tx_views(new_txs@), now);
                &&& final(db)@ == done.0
                &&& match done.2 {
                    Some(e) => r == Err::<Vec<Event>, UpdaterError>(e),
                    None => r.is_ok() && event_views(r.unwrap()@) == done.1,
                }
            }),
    {
        if new_txs.len() == 0 {
            let none: Vec<Event> = Vec::new();
            assert(event_views(none@) =~= Seq::<EventView>::empty());
            return Ok(none);
        }
        let mut cache = match UpdaterCache::new(
            db,
            UpdaterCacheSettings::new(&self.settings, true),
        ) {
            Ok(c) => c,
            Err(e) => {
                return Err(UpdaterError::DB(e));
            },
        };
        let ghost views = tx_views(new_txs@);
        let ghost start = cache@;
        let mut i: usize = 0;
        while i < new_txs.len()
            invariant
                i <= new_txs.len(),
                views == tx_views(new_txs@),
                forall|k: int| 0 <= k < new_txs@.len() ==> tx_countable(#[trigger] new_txs@[k]),
                db@ == old(db)@,
                start == CacheView::fresh(old(db)@, mempool_cache_settings(self.settings())),
                index_txs_spec(start, db@, self.settings().chain, now, views, 0) == index_txs_spec(
                    cache@,
                    db@,
                    self.settings().chain,
                    now,
                    views,
                    i as nat,
                ),
            decreases new_txs.len() - i,
        {
            proof {
                assert(views[i as int] == new_txs@[i as int]@);
            }
            match index_tx(&mut cache, db, self.settings.chain, now, &new_txs[i]) {
                Ok(()) => {},
                Err(e) => {
                    return Err(e);
                },
            }
            i = i + 1;
        }
        let mut addresses = AddressUpdater::new();
        if self.settings.index_addresses {
            note_transactions(&mut addresses, new_txs);
        }
        commit(&self.settings, &mut cache, &mut addresses, db)
    }

    /// Indexes one transaction that has just been seen in the mempool and
    /// commits it.
    pub fn index_new_tx(&self, db: &mut StoreWithLock, entry: IndexedTransaction, now: u32) -> (r:
        Result<Vec<Event>, UpdaterError>)
        requires
            tx_countable(entry),
        ensures
            ({
                let done = index_new_txs_spec(old(db)@, self.settings(), seq![entry@], now);
                &&& final(db)@ == done.0
                &&& match done.2 {
                    Some(e) => r == Err::<Vec<Event>, UpdaterError>(e),
                    None => r.is_ok() && event_views(r.unwrap()@) == done.1,
                }
            }),
    {
        let ghost view = entry@;
        let mut one: Vec<IndexedTransaction> = Vec::new();
        one.push(entry);
        proof {
            assert(tx_views(one@) =~= seq![view]);
        }
        self.index_new_txs(db, &one, now)
    }
}

} // verus!
