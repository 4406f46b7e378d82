use crate::artifact::{Transaction, TransactionView};
use crate::events::{event_views, Event, EventView};
use crate::ids::{
    BlockHash, BlockId, OutPoint, ScriptPubKey, SerializedTxid, SpenderReference,
};
use crate::model::{
    Block, BlockView, Location, RuneEntry, SpentInputView, TransactionStateChange,
    TransactionStateChangeView, TxOutEntry, TxOutEntryView,
};
use crate::rune::Rune;
use crate::rune_id::RuneId;
use crate::settings::{Chain, Settings};
use crate::store::{
    BatchDelete, BatchDeleteView, BatchUpdate, BatchUpdateView, SpkDelta, StoreError, StoreView,
    StoreWithLock,
};
use crate::table::{Key, Table};
use vstd::prelude::*;

verus! {

/// How a cache behaves: how deep a reorganisation may be undone, whether
/// spent outputs survive a purge, and whether the cache serves the mempool.
#[derive(Debug, PartialEq, Copy, Clone, Eq, Structural)]
pub struct UpdaterCacheSettings {
    pub max_recoverable_reorg_depth: u64,
    pub index_spent_outputs: bool,
    pub mempool: bool,
}

impl UpdaterCacheSettings {
    pub fn new(settings: &Settings, mempool: bool) -> (r: Self)
        ensures
            r == (UpdaterCacheSettings {
                max_recoverable_reorg_depth: settings.max_recoverable_reorg_depth,
                index_spent_outputs: settings.index_spent_outputs,
                mempool,
            }),
    {
        Self {
            max_recoverable_reorg_depth: settings.max_recoverable_reorg_depth(),
            index_spent_outputs: settings.index_spent_outputs,
            mempool,
        }
    }
}

/// The text of the address that a script pays to on a chain, if the script
/// has the form of an address.
pub uninterp spec fn address_text(chain: Chain, script: Seq<u8>) -> Option<Seq<char>>;

/// The address of a script.
///
/// Trusted: wraps `bitcoin::Address::from_script` for the network of the
/// chain, followed by the address's `to_string`; the result depends on
/// the script and the network alone. A script that has no address form
/// gives `None`.
#[verifier::external_body]
fn address_from_script(chain: Chain, script: &Vec<u8>) -> (r: Option<String>)
    ensures
        r.is_some() == address_text(chain, script@).is_some(),
        r.is_some() ==> r.unwrap()@ == address_text(chain, script@).unwrap(),
{
    let network = match chain {
        Chain::Mainnet => bitcoin::Network::Bitcoin,
        Chain::Testnet => bitcoin::Network::Testnet,
        Chain::Testnet4 => bitcoin::Network::Testnet4,
        Chain::Signet => bitcoin::Network::Signet,
        Chain::Regtest => bitcoin::Network::Regtest,
    };
    bitcoin::Address::from_script(bitcoin::Script::from_bytes(script), network)
        .ok()
        .map(|a| a.to_string())
}

/// The writes, deletions and events of one flush window, staged over the
/// store.
pub struct UpdaterCache {
    update: BatchUpdate,
    delete: BatchDelete,
    events: Vec<Event>,
    first_block_height: u64,
    last_block_height: Option<u64>,
    settings: UpdaterCacheSettings,
}

pub struct CacheView {
    pub update: BatchUpdateView,
    pub delete: BatchDeleteView,
    pub events: Seq<EventView>,
    pub first_block_height: u64,
    pub last_block_height: Option<u64>,
    pub settings: UpdaterCacheSettings,
}

impl View for UpdaterCache {
    type V = CacheView;

    closed spec fn view(&self) -> CacheView {
        CacheView {
            update: self.update@,
            delete: self.delete@,
            events: event_views(self.events@),
            first_block_height: self.first_block_height,
            last_block_height: self.last_block_height,
            settings: self.settings,
        }
    }
}

/// The outputs among the given consumed inputs.
pub open spec fn outpoints_of(inputs: Seq<SpentInputView>) -> Set<OutPoint> {
    Set::new(
        |o: OutPoint| exists|i: int| 0 <= i < inputs.len() && (#[trigger] inputs[i]).outpoint == o,
    )
}

/// The outputs that a transaction consumed.
pub open spec fn input_outpoints(change: TransactionStateChangeView) -> Set<OutPoint> {
    outpoints_of(change.inputs)
}

pub proof fn lemma_outpoints_of_step(inputs: Seq<SpentInputView>, i: int)
    requires
        0 <= i < inputs.len(),
    ensures
        outpoints_of(inputs.take(i + 1)) == outpoints_of(inputs.take(i)).insert(inputs[i].outpoint),
        outpoints_of(inputs.take(0)) == Set::<OutPoint>::empty(),
{
    let t0 = inputs.take(i);
    let t1 = inputs.take(i + 1);
    assert forall|o: OutPoint|
        outpoints_of(t1).contains(o) <==> outpoints_of(t0).insert(inputs[i].outpoint).contains(
            o,
        ) by {
        if outpoints_of(t1).contains(o) {
            let j = choose|j: int| 0 <= j < t1.len() && (#[trigger] t1[j]).outpoint == o;
            if j < i {
                assert(t0[j].outpoint == o);
            }
        }
        if outpoints_of(t0).contains(o) {
            let j = choose|j: int| 0 <= j < t0.len() && (#[trigger] t0[j]).outpoint == o;
            assert(t1[j].outpoint == o);
        }
        if o == inputs[i].outpoint {
            assert(t1[i].outpoint == o);
        }
    }
    assert(outpoints_of(t1) =~= outpoints_of(t0).insert(inputs[i].outpoint));
    assert(outpoints_of(inputs.take(0)) =~= Set::<OutPoint>::empty());
}

/// The events that tell of the scripts whose outputs changed: one for each
/// script that has the form of an address, in the order of the scripts.
pub open spec fn address_events(scripts: Seq<Seq<u8>>, chain: Chain, location: Location) -> Seq<
    EventView,
>
    decreases scripts.len(),
{
    if scripts.len() == 0 {
        Seq::empty()
    } else {
        let before = address_events(scripts.drop_last(), chain, location);
        match address_text(chain, scripts.last()) {
            Some(address) => before.push(EventView::AddressModified { address, location }),
            None => before,
        }
    }
}

impl CacheView {
    /// The cache of a window that has just begun over the given store.
    pub open spec fn fresh(db: StoreView, settings: UpdaterCacheSettings) -> CacheView {
        CacheView {
            update: BatchUpdateView::empty(db.rune_count, db.block_count, db.purged_blocks_count),
            delete: BatchDeleteView::empty(),
            events: Seq::empty(),
            first_block_height: db.block_count,
            last_block_height: None,
            settings,
        }
    }

    /// The hash of the block at a height, as staged or else as stored.
    pub open spec fn block_hash(self, db: StoreView, height: u64) -> Option<BlockHash> {
        if self.update.block_hashes.contains_key(height) {
            Some(self.update.block_hashes[height])
        } else {
            db.block_hashes.get(height)
        }
    }

    /// The block with a hash, as staged or else as stored.
    pub open spec fn block(self, db: StoreView, hash: BlockHash) -> Option<BlockView> {
        if self.update.blocks.contains_key(hash) {
            Some(self.update.blocks[hash])
        } else {
            db.blocks.get(hash)
        }
    }

    /// The block at a height, as staged or else as stored.
    pub open spec fn block_by_height(self, db: StoreView, height: u64) -> Option<BlockView> {
        match self.block_hash(db, height) {
            Some(hash) => self.block(db, hash),
            None => None,
        }
    }

    /// What an output holds, as staged or else as stored on either side.
    pub open spec fn tx_out(self, db: StoreView, outpoint: OutPoint) -> Option<TxOutEntryView> {
        if self.update.txouts.contains_key(outpoint) {
            Some(self.update.txouts[outpoint])
        } else {
            db.tx_out(outpoint, None)
        }
    }

    /// The cache with what the store holds for an output staged as it is,
    /// unless the output is staged already or the store does not know it.
    pub open spec fn precache(self, db: StoreView, outpoint: OutPoint) -> CacheView {
        if self.update.txouts.contains_key(outpoint) {
            self
        } else {
            match db.tx_out(outpoint, None) {
                Some(entry) => CacheView {
                    update: BatchUpdateView {
                        txouts: self.update.txouts.insert(outpoint, entry),
                        ..self.update
                    },
                    ..self
                },
                None => self,
            }
        }
    }

    /// The cache after the outputs were staged in turn as the store holds
    /// them.
    pub open spec fn precache_all(self, db: StoreView, outpoints: Seq<OutPoint>) -> CacheView
        decreases outpoints.len(),
    {
        if outpoints.len() == 0 {
            self
        } else {
            self.precache_all(db, outpoints.drop_last()).precache(db, outpoints.last())
        }
    }

    /// The block that confirmed a transaction, as staged or else as stored.
    pub open spec fn confirming_block(self, db: StoreView, txid: SerializedTxid) -> Option<BlockId> {
        if self.update.transaction_confirming_block.contains_key(txid) {
            Some(self.update.transaction_confirming_block[txid])
        } else {
            db.transaction_confirming_block.get(txid)
        }
    }

    /// The entry of a rune, as staged or else as stored.
    pub open spec fn rune(self, db: StoreView, rune_id: RuneId) -> Option<RuneEntry> {
        if self.update.runes.contains_key(rune_id) {
            Some(self.update.runes[rune_id])
        } else {
            db.runes.get(rune_id)
        }
    }

    /// The identifier of the rune with a name, as staged or else as stored.
    pub open spec fn rune_id(self, db: StoreView, rune: Rune) -> Option<RuneId> {
        if self.update.rune_ids.contains_key(rune) {
            Some(self.update.rune_ids[rune])
        } else {
            db.rune_ids.get(rune)
        }
    }

    /// The state change of a transaction, as staged or else as stored on the
    /// side of the cache.
    pub open spec fn tx_state_change(self, db: StoreView, txid: SerializedTxid) -> Option<
        TransactionStateChangeView,
    > {
        if self.update.tx_state_changes.contains_key(txid) {
            Some(self.update.tx_state_changes[txid])
        } else {
            db.tx_state_change(txid, Some(self.settings.mempool))
        }
    }

    /// Whether the transaction has been indexed: its state change is
    /// staged, or, for the mempool, it is in the mempool set, or, for the
    /// chain, its state change is stored.
    pub open spec fn tx_exists(self, db: StoreView, txid: SerializedTxid) -> bool {
        self.update.tx_state_changes.contains_key(txid) || if self.settings.mempool {
            db.mempool_txs.contains(txid)
        } else {
            db.tx_state_changes.contains_key(txid)
        }
    }

    /// The height of the last block of the chain as the cache sees it.
    pub open spec fn height_tip(self) -> u64 {
        if self.update.block_count == 0 {
            0
        } else {
            (self.update.block_count - 1) as u64
        }
    }

    /// Where the changes of the cache take place: in the mempool, or in the
    /// last block of the chain.
    pub open spec fn location(self) -> Location {
        if self.settings.mempool {
            Location { mempool: true, block_height: None }
        } else {
            Location { mempool: false, block_height: Some(self.height_tip()) }
        }
    }

    /// The cache with an event for each script with staged changes that
    /// has the form of an address, in the order of the scripts.
    pub open spec fn with_address_events(self, chain: Chain) -> CacheView {
        CacheView {
            events: self.events + address_events(
                self.update.script_pubkey_order,
                chain,
                self.location(),
            ),
            ..self
        }
    }

    /// The deletions staged for one transaction of a purged block: its
    /// state change, the reverse script entries of the outputs it consumed
    /// and, unless spent outputs are kept, those outputs.
    pub open spec fn stage_tx(self, db: StoreView, txid: SerializedTxid, keep_spent: bool) -> CacheView {
        let inputs = match self.tx_state_change(db, txid) {
            Some(change) => input_outpoints(change),
            None => Set::empty(),
        };
        CacheView {
            delete: BatchDeleteView {
                tx_outs: if keep_spent {
                    self.delete.tx_outs
                } else {
                    self.delete.tx_outs.union(inputs)
                },
                script_pubkeys_outpoints: self.delete.script_pubkeys_outpoints.union(inputs),
                tx_state_changes: self.delete.tx_state_changes.insert(txid),
            },
            ..self
        }
    }

    /// The deletions staged for the transactions of a purged block.
    pub open spec fn stage_txs(self, db: StoreView, txids: Seq<SerializedTxid>, keep_spent: bool) -> CacheView
        decreases txids.len(),
    {
        if txids.len() == 0 {
            self
        } else {
            self.stage_tx(db, txids[0], keep_spent).stage_txs(db, txids.skip(1), keep_spent)
        }
    }

    /// The cache after the block at a height was purged, or the error if
    /// the block is not known.
    pub open spec fn purge_block(self, db: StoreView, height: u64, keep_spent: bool) -> Result<
        CacheView,
        StoreError,
    > {
        match self.block_by_height(db, height) {
            None => Err(StoreError::NotFound),
            Some(block) => {
                let staged = self.stage_txs(db, block.tx_ids, keep_spent);
                Ok(
                    CacheView {
                        update: BatchUpdateView { purged_blocks_count: height, ..staged.update },
                        ..staged
                    },
                )
            },
        }
    }

    /// The cache after the blocks at the heights from `from` up to, but not
    /// including, `to` were purged in turn, with no error; or the cache as
    /// it is when the first block cannot be found, with that error.
    pub open spec fn purge_range(self, db: StoreView, from: u64, to: u64, keep_spent: bool) -> (
        CacheView,
        Option<StoreError>,
    )
        decreases to - from,
    {
        if from >= to {
            (self, None)
        } else {
            match self.purge_block(db, from, keep_spent) {
                Err(e) => (self, Some(e)),
                Ok(next) => next.purge_range(db, (from + 1) as u64, to, keep_spent),
            }
        }
    }

    /// The first height to purge: one past the last purged height, or, if
    /// that is later, the height that lies one more than the recoverable
    /// depth before the start of the window.
    pub open spec fn first_purgeable(self, depth: u64) -> u64 {
        let by_window: int = if self.first_block_height >= depth + 1 {
            self.first_block_height - (depth + 1)
        } else {
            0
        };
        let by_purged: int = if self.update.purged_blocks_count == u64::MAX {
            u64::MAX as int
        } else {
            self.update.purged_blocks_count + 1
        };
        if by_window >= by_purged {
            by_window as u64
        } else {
            by_purged as u64
        }
    }

    /// The cache after the purge that precedes a commit: where the window
    /// holds a block and its last block lies at least the recoverable depth
    /// above the start of the chain, the blocks from the first purgeable
    /// height up to, but not including, the height that lies the
    /// recoverable depth below the last block are purged.
    pub open spec fn prepare_to_delete(self, db: StoreView, depth: u64, keep_spent: bool) -> (
        CacheView,
        Option<StoreError>,
    ) {
        match self.last_block_height {
            None => (self, None),
            Some(last) => if last < depth {
                (self, None)
            } else {
                self.purge_range(db, self.first_purgeable(depth), (last - depth) as u64, keep_spent)
            },
        }
    }

    /// The cache as it is once its window has been committed.
    pub open spec fn after_flush(self) -> CacheView {
        CacheView {
            update: BatchUpdateView::empty(
                self.update.rune_count,
                self.update.block_count,
                self.update.purged_blocks_count,
            ),
            delete: BatchDeleteView::empty(),
            first_block_height: self.update.block_count,
            last_block_height: None,
            ..self
        }
    }

    /// The cache as it goes into the commit: purged, unless it serves the
    /// mempool; and the error that stopped the purge, if one did.
    pub open spec fn prepared(self, db: StoreView) -> (CacheView, Option<StoreError>) {
        if self.settings.mempool {
            (self, None)
        } else {
            self.prepare_to_delete(
                db,
                self.settings.max_recoverable_reorg_depth,
                self.settings.index_spent_outputs,
            )
        }
    }
}

/// The store after a prepared cache was committed to it: first the writes,
/// then the deletions.
pub open spec fn committed(db: StoreView, cache: CacheView) -> StoreView {
    let updated = if cache.update.is_empty() {
        db
    } else {
        db.apply_update(cache.update, cache.settings.mempool)
    };
    if cache.delete == BatchDeleteView::empty() {
        updated
    } else {
        updated.apply_delete(cache.delete)
    }
}

/// The outputs that the transactions consume, in order.
pub open spec fn inputs_of(txs: Seq<TransactionView>) -> Seq<OutPoint>
    decreases txs.len(),
{
    if txs.len() == 0 {
        Seq::empty()
    } else {
        inputs_of(txs.drop_last()) + txs.last().inputs
    }
}

/// Staging outputs as the store holds them changes nothing that is read
/// through the cache.
pub proof fn lemma_precache_keeps_reads(cache: CacheView, db: StoreView, outpoints: Seq<OutPoint>)
    ensures
        forall|o: OutPoint| #[trigger]
            cache.precache_all(db, outpoints).tx_out(db, o) == cache.tx_out(db, o),
    decreases outpoints.len(),
{
    if outpoints.len() > 0 {
        lemma_precache_keeps_reads(cache, db, outpoints.drop_last());
        let before = cache.precache_all(db, outpoints.drop_last());
        assert forall|o: OutPoint| #[trigger]
            before.precache(db, outpoints.last()).tx_out(db, o) == cache.tx_out(db, o) by {
            assert(before.tx_out(db, o) == cache.tx_out(db, o));
        }
    }
}

impl UpdaterCache {
    pub fn new(db: &StoreWithLock, settings: UpdaterCacheSettings) -> (r: Result<Self, StoreError>)
        ensures
            r.is_ok(),
            r.unwrap()@ == CacheView::fresh(db@, settings),
    {
        let store = db.read();
        let rune_count = store.get_runes_count();
        let block_count = store.get_block_count();
        let purged_blocks_count = store.get_purged_blocks_count();
        let cache = Self {
            update: BatchUpdate::new(rune_count, block_count, purged_blocks_count),
            delete: BatchDelete::new(),
            events: Vec::new(),
            first_block_height: block_count,
            last_block_height: None,
            settings,
        };
        assert(cache@.events =~= Seq::<EventView>::empty());
        Ok(cache)
    }

    pub fn settings(&self) -> (r: UpdaterCacheSettings)
        ensures
            r == self@.settings,
    {
        self.settings
    }

    pub fn get_runes_count(&self) -> (n: u64)
        ensures
            n == self@.update.rune_count,
    {
        self.update.rune_count
    }

    pub fn get_block_height_tip(&self) -> (n: u64)
        ensures
            n == self@.height_tip(),
    {
        self.update.block_count.saturating_sub(1)
    }

    pub fn get_block_count(&self) -> (n: u64)
        ensures
            n == self@.update.block_count,
    {
        self.update.block_count
    }

    pub fn get_purged_blocks_count(&self) -> (n: u64)
        ensures
            n == self@.update.purged_blocks_count,
    {
        self.update.purged_blocks_count
    }

    fn increment_block_count(&mut self)
        requires
            old(self)@.update.block_count < u64::MAX,
        ensures
            final(self)@ == (CacheView {
                update: BatchUpdateView {
                    block_count: (old(self)@.update.block_count + 1) as u64,
                    ..old(self)@.update
                },
                last_block_height: Some(old(self)@.update.block_count),
                ..old(self)@
            }),
    {
        self.last_block_height = Some(self.update.block_count);
        self.update.block_count = self.update.block_count + 1;
    }

    pub fn get_block_by_height(&self, db: &StoreWithLock, height: u64) -> (r: Result<
        Block,
        StoreError,
    >)
        ensures
            match r {
                Ok(b) => self@.block_by_height(db@, height) == Some(b@),
                Err(e) => e == StoreError::NotFound && self@.block_by_height(db@, height).is_none(),
            },
    {
        match self.update.block_hashes.get(&height) {
            Some(hash) => self.get_block(db, hash),
            None => {
                match db.read().get_block_hash(height) {
                    Ok(hash) => self.get_block(db, &hash),
                    Err(e) => Err(e),
                }
            },
        }
    }

    pub fn get_block(&self, db: &StoreWithLock, hash: &BlockHash) -> (r: Result<Block, StoreError>)
        ensures
            match r {
                Ok(b) => self@.block(db@, *hash) == Some(b@),
                Err(e) => e == StoreError::NotFound && self@.block(db@, *hash).is_none(),
            },
    {
        match self.update.blocks.get_cloned(hash) {
            Some(block) => Ok(block),
            None => db.read().get_block_by_hash(hash),
        }
    }

    /// Stages the record of the next block of the chain. The window then
    /// holds at least one block, so that with a commit interval of one
    /// block it is due for a commit.
    pub fn set_new_block(&mut self, block: Block)
        requires
            block.height == old(self)@.update.block_count,
            old(self)@.update.block_count < u64::MAX,
        ensures
            final(self)@ == (CacheView {
                update: BatchUpdateView {
                    blocks: old(self)@.update.blocks.insert(block.header.hash, block@),
                    block_hashes: old(self)@.update.block_hashes.insert(
                        block.height,
                        block.header.hash,
                    ),
                    block_count: (old(self)@.update.block_count + 1) as u64,
                    ..old(self)@.update
                },
                last_block_height: Some(old(self)@.update.block_count),
                ..old(self)@
            }),
            final(self)@.update.blocks.len() >= 1,
    {
        let hash: BlockHash = block.header.hash;
        let height = self.get_block_count();
        self.update.blocks.insert(hash, block);
        self.update.block_hashes.insert(height, hash);
        let staged = self.update.blocks.len();
        proof {
            assert(self.update.blocks@.dom().contains(hash));
            if staged == 0 {
                assert(self.update.blocks@.dom() =~= Set::<BlockHash>::empty());
            }
        }
        self.increment_block_count();
    }

    pub fn increment_runes_count(&mut self)
        requires
            old(self)@.update.rune_count < u64::MAX,
        ensures
            final(self)@ == (CacheView {
                update: BatchUpdateView {
                    rune_count: (old(self)@.update.rune_count + 1) as u64,
                    ..old(self)@.update
                },
                ..old(self)@
            }),
    {
        self.update.rune_count = self.update.rune_count + 1;
    }

    pub fn decrement_runes_count(&mut self)
        requires
            old(self)@.update.rune_count > 0,
        ensures
            final(self)@ == (CacheView {
                update: BatchUpdateView {
                    rune_count: (old(self)@.update.rune_count - 1) as u64,
                    ..old(self)@.update
                },
                ..old(self)@
            }),
    {
        self.update.rune_count = self.update.rune_count - 1;
    }

    pub fn get_tx_out(&self, db: &StoreWithLock, outpoint: &OutPoint) -> (r: Result<
        TxOutEntry,
        StoreError,
    >)
        ensures
            match r {
                Ok(e) => self@.tx_out(db@, *outpoint) == Some(e@),
                Err(e) => e == StoreError::NotFound && self@.tx_out(db@, *outpoint).is_none(),
            },
    {
        match self.update.txouts.get_cloned(outpoint) {
            Some(tx_out) => Ok(tx_out),
            None => db.read().get_tx_out(outpoint, None),
        }
    }

    /// What the given outputs hold; an output that holds nothing known is
    /// left out.
    pub fn get_tx_outs(&self, db: &StoreWithLock, outpoints: &Vec<OutPoint>) -> (r: Table<
        OutPoint,
        TxOutEntry,
    >)
        ensures
            forall|o: OutPoint|
                r@.contains_key(o) <==> (outpoints@.contains(o) && self@.tx_out(db@, o).is_some()),
            forall|o: OutPoint| #[trigger] r@.contains_key(o) ==> Some(r@[o]) == self@.tx_out(db@, o),
    {
        let mut results: Table<OutPoint, TxOutEntry> = Table::new();
        let mut i: usize = 0;
        while i < outpoints.len()
            invariant
                i <= outpoints.len(),
                forall|o: OutPoint|
                    results@.contains_key(o) <==> (outpoints@.take(i as int).contains(o)
                        && self@.tx_out(db@, o).is_some()),
                forall|o: OutPoint| #[trigger]
                    results@.contains_key(o) ==> Some(results@[o]) == self@.tx_out(db@, o),
            decreases outpoints.len() - i,
        {
            let outpoint = outpoints[i];
            proof {
                let t0 = outpoints@.take(i as int);
                let t1 = outpoints@.take(i + 1);
                assert(t1 =~= t0.push(outpoint));
                assert forall|o: OutPoint| t1.contains(o) <==> (t0.contains(o) || o
                    == outpoint) by {
                    if t1.contains(o) {
                        let j = choose|j: int| 0 <= j < t1.len() && t1[j] == o;
                        if j < i {
                            assert(t0[j] == o);
                        }
                    }
                    if t0.contains(o) {
                        let j = choose|j: int| 0 <= j < t0.len() && t0[j] == o;
                        assert(t1[j] == o);
                    }
                    if o == outpoint {
                        assert(t1[i as int] == o);
                    }
                }
            }
            match self.get_tx_out(db, &outpoint) {
                Ok(tx_out) => {
                    results.insert(outpoint, tx_out);
                },
                Err(_) => {},
            }
            i = i + 1;
        }
        assert(outpoints@.take(outpoints.len() as int) =~= outpoints@);
        results
    }

    /// Stages what the store holds for the outputs that the transactions
    /// consume, so that they are read once for the whole block. What is
    /// read through the cache stays the same.
    pub fn precache_tx_outs(&mut self, db: &StoreWithLock, txs: &Vec<Transaction>) -> (r: Result<
        (),
        StoreError,
    >)
        ensures
            r.is_ok(),
            final(self)@ == old(self)@.precache_all(
                db@,
                inputs_of(Seq::new(txs@.len(), |i: int| txs@[i]@)),
            ),
            forall|o: OutPoint| #[trigger]
                final(self)@.tx_out(db@, o) == old(self)@.tx_out(db@, o),
    {
        let ghost views = Seq::new(txs@.len(), |i: int| txs@[i]@);
        let ghost start = self@;
        let mut i: usize = 0;
        proof {
            assert(views.take(0) =~= Seq::<TransactionView>::empty());
        }
        while i < txs.len()
            invariant
                i <= txs.len(),
                views == Seq::new(txs@.len(), |i: int| txs@[i]@),
                start == old(self)@,
                self@ == start.precache_all(db@, inputs_of(views.take(i as int))),
            decreases txs.len() - i,
        {
            let inputs = &txs[i].inputs;
            let ghost done = inputs_of(views.take(i as int));
            let mut j: usize = 0;
            proof {
                assert(done + inputs@.take(0) =~= done);
            }
            while j < inputs.len()
                invariant
                    j <= inputs.len(),
                    self@ == start.precache_all(db@, done + inputs@.take(j as int)),
                decreases inputs.len() - j,
            {
                let outpoint = inputs[j];
                proof {
                    let longer = done + inputs@.take(j + 1);
                    assert(longer.drop_last() =~= done + inputs@.take(j as int));
                    assert(longer.last() == outpoint);
                }
                if !self.update.txouts.contains_key(&outpoint) {
                    match db.read().get_tx_out(&outpoint, None) {
                        Ok(entry) => {
                            self.update.txouts.insert(outpoint, entry);
                        },
                        Err(_) => {},
                    }
                }
                j = j + 1;
            }
            proof {
                assert(inputs@.take(j as int) =~= inputs@);
                assert(views.take(i + 1).drop_last() =~= views.take(i as int));
                assert(views.take(i + 1).last().inputs == inputs@);
            }
            i = i + 1;
        }
        proof {
            assert(views.take(i as int) =~= views);
            lemma_precache_keeps_reads(start, db@, inputs_of(views));
        }
        Ok(())
    }

    /// The block that confirmed a transaction.
    pub fn get_transaction_confirming_block(&self, db: &StoreWithLock, txid: SerializedTxid) -> (r:
        Result<BlockId, StoreError>)
        ensures
            match r {
                Ok(id) => self@.confirming_block(db@, txid) == Some(id),
                Err(e) => e == StoreError::NotFound && self@.confirming_block(db@, txid).is_none(),
            },
    {
        match self.update.transaction_confirming_block.get_cloned(&txid) {
            Some(id) => Ok(id),
            None => db.read().get_transaction_confirming_block(&txid),
        }
    }

    /// Stages the block that confirmed a transaction.
    pub fn set_transaction_confirming_block(&mut self, txid: SerializedTxid, block_id: BlockId)
        ensures
            final(self)@ == (CacheView {
                update: BatchUpdateView {
                    transaction_confirming_block: old(self)@.update.transaction_confirming_block
                        .insert(txid, block_id),
                    ..old(self)@.update
                },
                ..old(self)@
            }),
    {
        self.update.transaction_confirming_block.insert(txid, block_id);
    }

    pub fn set_tx_out(&mut self, outpoint: OutPoint, tx_out: TxOutEntry)
        ensures
            final(self)@ == (CacheView {
                update: BatchUpdateView {
                    txouts: old(self)@.update.txouts.insert(outpoint, tx_out@),
                    ..old(self)@.update
                },
                ..old(self)@
            }),
    {
        self.update.txouts.insert(outpoint, tx_out);
    }

    pub fn does_tx_exist(&self, db: &StoreWithLock, txid: SerializedTxid) -> (r: Result<
        bool,
        StoreError,
    >)
        ensures
            r == Ok::<bool, StoreError>(self@.tx_exists(db@, txid)),
    {
        if self.update.tx_state_changes.contains_key(&txid) {
            return Ok(true);
        }
        if self.settings.mempool {
            return Ok(db.read().is_tx_in_mempool(&txid));
        }
        let tx_state_changes = db.read().get_tx_state_changes(&txid, Some(self.settings.mempool));
        Ok(tx_state_changes.is_ok())
    }

    pub fn set_tx_state_changes(
        &mut self,
        txid: SerializedTxid,
        tx_state_changes: TransactionStateChange,
    )
        ensures
            final(self)@ == (CacheView {
                update: BatchUpdateView {
                    tx_state_changes: old(self)@.update.tx_state_changes.insert(
                        txid,
                        tx_state_changes@,
                    ),
                    ..old(self)@.update
                },
                ..old(self)@
            }),
    {
        self.update.tx_state_changes.insert(txid, tx_state_changes);
    }

    /// Appends a transaction to the list of those that touched a rune.
    pub fn add_rune_transaction(&mut self, rune_id: RuneId, txid: SerializedTxid)
        ensures
            final(self)@ == (CacheView {
                update: BatchUpdateView {
                    rune_transactions: old(self)@.update.rune_transactions.insert(
                        rune_id,
                        crate::store::list_at(old(self)@.update.rune_transactions, rune_id).push(
                            txid,
                        ),
                    ),
                    ..old(self)@.update
                },
                ..old(self)@
            }),
    {
        let mut list: Vec<SerializedTxid> = match self.update.rune_transactions.get_cloned(
            &rune_id,
        ) {
            Some(list) => list,
            None => Vec::new(),
        };
        list.push(txid);
        self.update.rune_transactions.insert(rune_id, list);
    }

    pub fn get_rune(&self, db: &StoreWithLock, rune_id: &RuneId) -> (r: Result<
        RuneEntry,
        StoreError,
    >)
        ensures
            match r {
                Ok(e) => self@.rune(db@, *rune_id) == Some(e),
                Err(e) => e == StoreError::NotFound && self@.rune(db@, *rune_id).is_none(),
            },
    {
        match self.update.runes.get_cloned(rune_id) {
            Some(rune) => Ok(rune),
            None => db.read().get_rune(rune_id),
        }
    }

    pub fn set_rune(&mut self, rune_id: RuneId, rune: RuneEntry)
        ensures
            final(self)@ == (CacheView {
                update: BatchUpdateView {
                    runes: old(self)@.update.runes.insert(rune_id, rune),
                    ..old(self)@.update
                },
                ..old(self)@
            }),
    {
        self.update.runes.insert(rune_id, rune);
    }

    pub fn get_rune_id(&self, db: &StoreWithLock, rune: &Rune) -> (r: Result<RuneId, StoreError>)
        ensures
            match r {
                Ok(id) => self@.rune_id(db@, *rune) == Some(id),
                Err(e) => e == StoreError::NotFound && self@.rune_id(db@, *rune).is_none(),
            },
    {
        match self.update.rune_ids.get_cloned(rune) {
            Some(rune_id) => Ok(rune_id),
            None => db.read().get_rune_id(rune),
        }
    }

    pub fn set_rune_id(&mut self, rune: Rune, rune_id: RuneId)
        ensures
            final(self)@ == (CacheView {
                update: BatchUpdateView {
                    rune_ids: old(self)@.update.rune_ids.insert(rune, rune_id),
                    ..old(self)@.update
                },
                ..old(self)@
            }),
    {
        self.update.rune_ids.insert(rune, rune_id);
    }

    pub fn set_rune_id_number(&mut self, number: u64, rune_id: RuneId)
        ensures
            final(self)@ == (CacheView {
                update: BatchUpdateView {
                    rune_numbers: old(self)@.update.rune_numbers.insert(number, rune_id),
                    ..old(self)@.update
                },
                ..old(self)@
            }),
    {
        self.update.rune_numbers.insert(number, rune_id);
    }

    pub fn set_mempool_tx(&mut self, txid: SerializedTxid)
        ensures
            final(self)@ == (CacheView {
                update: BatchUpdateView {
                    mempool_txs: old(self)@.update.mempool_txs.insert(txid),
                    ..old(self)@.update
                },
                ..old(self)@
            }),
    {
        self.update.mempool_txs.insert(txid);
    }

    /// Replaces the staged changes of the script index.
    pub fn set_script_pubkey_entries(&mut self, script_pubkey_entry: Table<ScriptPubKey, SpkDelta>)
        ensures
            final(self)@ == (CacheView {
                update: BatchUpdateView {
                    script_pubkeys: script_pubkey_entry@,
                    script_pubkey_order: script_pubkey_entry.spec_keys(),
                    ..old(self)@.update
                },
                ..old(self)@
            }),
    {
        self.update.script_pubkeys = script_pubkey_entry;
    }

    /// The scripts that the given outputs pay to, on the side of the cache.
    /// Unless `optimistic`, an output of which the store knows no script is
    /// an error; else it is left out.
    pub fn get_outpoints_to_script_pubkey(
        &self,
        db: &StoreWithLock,
        outpoints: &Vec<OutPoint>,
        optimistic: bool,
    ) -> (r: Result<Table<OutPoint, ScriptPubKey>, StoreError>)
        ensures
            match r {
                Ok(t) => {
                    &&& forall|o: OutPoint| #[trigger]
                        t@.contains_key(o) <==> (outpoints@.contains(o) && db@.reverse_scripts(
                            self@.settings.mempool,
                        ).contains_key(o))
                    &&& forall|o: OutPoint| #[trigger]
                        t@.contains_key(o) ==> t@[o] == db@.reverse_scripts(
                            self@.settings.mempool,
                        )[o]
                    &&& optimistic || forall|o: OutPoint|
                        outpoints@.contains(o) ==> db@.reverse_scripts(
                            self@.settings.mempool,
                        ).contains_key(o)
                },
                Err(e) => e == StoreError::NotFound && !optimistic && exists|o: OutPoint|
                    outpoints@.contains(o) && !db@.reverse_scripts(
                        self@.settings.mempool,
                    ).contains_key(o),
            },
    {
        let ghost known = db@.reverse_scripts(self@.settings.mempool);
        let mut results: Table<OutPoint, ScriptPubKey> = Table::new();
        let mut i: usize = 0;
        while i < outpoints.len()
            invariant
                i <= outpoints.len(),
                known == db@.reverse_scripts(self@.settings.mempool),
                forall|o: OutPoint| #[trigger]
                    results@.contains_key(o) <==> (outpoints@.take(i as int).contains(o)
                        && known.contains_key(o)),
                forall|o: OutPoint| #[trigger] results@.contains_key(o) ==> results@[o] == known[o],
                optimistic || forall|o: OutPoint|
                    outpoints@.take(i as int).contains(o) ==> known.contains_key(o),
            decreases outpoints.len() - i,
        {
            let outpoint = outpoints[i];
            proof {
                let t0 = outpoints@.take(i as int);
                let t1 = outpoints@.take(i + 1);
                assert(t1 =~= t0.push(outpoint));
                assert forall|o: OutPoint| t1.contains(o) <==> (t0.contains(o) || o
                    == outpoint) by {
                    if t1.contains(o) {
                        let j = choose|j: int| 0 <= j < t1.len() && t1[j] == o;
                        if j < i {
                            assert(t0[j] == o);
                        }
                    }
                    if t0.contains(o) {
                        let j = choose|j: int| 0 <= j < t0.len() && t0[j] == o;
                        assert(t1[j] == o);
                    }
                    if o == outpoint {
                        assert(t1[i as int] == o);
                    }
                }
            }
            let ghost before = results@;
            match db.read().get_outpoint_script_pubkey(&outpoint, self.settings.mempool) {
                Ok(script) => {
                    assert(known.contains_key(outpoint));
                    results.insert(outpoint, script);
                    assert(results@ == before.insert(outpoint, known[outpoint]));
                },
                Err(e) => {
                    assert(!known.contains_key(outpoint));
                    if !optimistic {
                        assert(outpoints@[i as int] == outpoint);
                        assert(outpoints@.contains(outpoint));
                        return Err(e);
                    }
                },
            }
            proof {
                assert forall|o: OutPoint| #[trigger]
                    results@.contains_key(o) <==> (outpoints@.take(i + 1).contains(o)
                        && known.contains_key(o)) by {
                    assert(outpoints@.take(i + 1).contains(o) <==> (outpoints@.take(
                        i as int,
                    ).contains(o) || o == outpoint));
                    assert(before.contains_key(o) <==> (outpoints@.take(i as int).contains(o)
                        && known.contains_key(o)));
                }
            }
            i = i + 1;
        }
        assert(outpoints@.take(outpoints.len() as int) =~= outpoints@);
        Ok(results)
    }

    /// Replaces the staged reverse entries from outputs to scripts.
    pub fn batch_set_outpoints_to_script_pubkey(&mut self, items: Table<OutPoint, ScriptPubKey>)
        ensures
            final(self)@ == (CacheView {
                update: BatchUpdateView { script_pubkeys_outpoints: items@, ..old(self)@.update },
                ..old(self)@
            }),
    {
        self.update.script_pubkeys_outpoints = items;
    }

    /// Stages the outputs that transactions of the mempool spend.
    pub fn batch_set_spent_outpoints_in_mempool(
        &mut self,
        outpoints: &Table<OutPoint, SpenderReference>,
    )
        ensures
            final(self)@ == (CacheView {
                update: BatchUpdateView {
                    spent_outpoints_in_mempool: old(
                        self,
                    )@.update.spent_outpoints_in_mempool.union_prefer_right(outpoints@),
                    ..old(self)@.update
                },
                ..old(self)@
            }),
    {
        self.update.spent_outpoints_in_mempool.extend(outpoints);
    }

    pub fn add_event(&mut self, event: Event)
        ensures
            final(self)@ == (CacheView { events: old(self)@.events.push(event@), ..old(self)@ }),
    {
        let ghost e = event@;
        self.events.push(event);
        assert(event_views(self.events@) =~= event_views(old(self).events@).push(e));
    }

    /// Whether the window holds at least `max_size` blocks.
    pub fn should_flush(&self, max_size: usize) -> (r: bool)
        ensures
            r == (self@.update.blocks.len() >= max_size),
    {
        self.update.blocks.len() >= max_size
    }

    /// Hands over the gathered events, oldest first, for sending, and
    /// forgets them.
    pub fn send_events(&mut self) -> (sent: Vec<Event>)
        ensures
            event_views(sent@) == old(self)@.events,
            final(self)@ == (CacheView { events: Seq::empty(), ..old(self)@ }),
    {
        let mut sent: Vec<Event> = Vec::new();
        core::mem::swap(&mut self.events, &mut sent);
        assert(event_views(self.events@) =~= Seq::<EventView>::empty());
        sent
    }
}

impl UpdaterCache {
    /// The state change of a transaction, as staged or else as stored on the
    /// side of the cache.
    pub fn get_tx_state_change(&self, db: &StoreWithLock, txid: &SerializedTxid) -> (r: Result<
        TransactionStateChange,
        StoreError,
    >)
        ensures
            match r {
                Ok(c) => self@.tx_state_change(db@, *txid) == Some(c@),
                Err(e) => e == StoreError::NotFound && self@.tx_state_change(db@, *txid).is_none(),
            },
    {
        match self.update.tx_state_changes.get_cloned(txid) {
            Some(change) => Ok(change),
            None => db.read().get_tx_state_changes(txid, Some(self.settings.mempool)),
        }
    }

    /// The state changes of the given transactions; a transaction of which
    /// none is known is left out.
    pub fn get_txs_state_changes(&self, db: &StoreWithLock, txids: &Vec<SerializedTxid>) -> (r:
        Table<SerializedTxid, TransactionStateChange>)
        ensures
            forall|t: SerializedTxid| #[trigger]
                r@.contains_key(t) <==> (txids@.contains(t) && self@.tx_state_change(
                    db@,
                    t,
                ).is_some()),
            forall|t: SerializedTxid| #[trigger]
                r@.contains_key(t) ==> Some(r@[t]) == self@.tx_state_change(db@, t),
    {
        let mut results: Table<SerializedTxid, TransactionStateChange> = Table::new();
        let mut i: usize = 0;
        while i < txids.len()
            invariant
                i <= txids.len(),
                forall|t: SerializedTxid| #[trigger]
                    results@.contains_key(t) <==> (txids@.take(i as int).contains(t)
                        && self@.tx_state_change(db@, t).is_some()),
                forall|t: SerializedTxid| #[trigger]
                    results@.contains_key(t) ==> Some(results@[t]) == self@.tx_state_change(db@, t),
            decreases txids.len() - i,
        {
            let txid = txids[i];
            let ghost before = results@;
            proof {
                let t0 = txids@.take(i as int);
                let t1 = txids@.take(i + 1);
                assert(t1 =~= t0.push(txid));
                assert forall|t: SerializedTxid| t1.contains(t) <==> (t0.contains(t) || t
                    == txid) by {
                    if t1.contains(t) {
                        let j = choose|j: int| 0 <= j < t1.len() && t1[j] == t;
                        if j < i {
                            assert(t0[j] == t);
                        }
                    }
                    if t0.contains(t) {
                        let j = choose|j: int| 0 <= j < t0.len() && t0[j] == t;
                        assert(t1[j] == t);
                    }
                    if t == txid {
                        assert(t1[i as int] == t);
                    }
                }
            }
            match self.get_tx_state_change(db, &txid) {
                Ok(change) => {
                    results.insert(txid, change);
                },
                Err(_) => {},
            }
            proof {
                assert forall|t: SerializedTxid| #[trigger]
                    results@.contains_key(t) <==> (txids@.take(i + 1).contains(t)
                        && self@.tx_state_change(db@, t).is_some()) by {
                    assert(before.contains_key(t) <==> (txids@.take(i as int).contains(t)
                        && self@.tx_state_change(db@, t).is_some()));
                }
                assert forall|t: SerializedTxid| #[trigger] results@.contains_key(t) implies Some(
                    results@[t],
                ) == self@.tx_state_change(db@, t) by {
                    if t != txid {
                        assert(before.contains_key(t));
                    }
                }
            }
            i = i + 1;
        }
        assert(txids@.take(txids.len() as int) =~= txids@);
        results
    }

    /// Stages the deletions for one transaction of a purged block.
    pub fn stage_tx(&mut self, db: &StoreWithLock, txid: SerializedTxid, index_spent_outputs: bool)
        ensures
            final(self)@ == old(self)@.stage_tx(db@, txid, index_spent_outputs),
    {
        match self.get_tx_state_change(db, &txid) {
            Ok(change) => {
                let ghost inputs = change@.inputs;
                let mut i: usize = 0;
                proof {
                    lemma_outpoints_of_step(inputs.push(inputs[0]), 0);
                    assert(inputs.push(inputs[0]).take(0) =~= inputs.take(0));
                    assert(old(self)@.delete.tx_outs.union(outpoints_of(inputs.take(0)))
                        =~= old(self)@.delete.tx_outs);
                    assert(old(self)@.delete.script_pubkeys_outpoints.union(
                        outpoints_of(inputs.take(0)),
                    ) =~= old(self)@.delete.script_pubkeys_outpoints);
                }
                while i < change.inputs.len()
                    invariant
                        i <= change.inputs.len(),
                        inputs == change@.inputs,
                        self@ == (CacheView {
                            delete: BatchDeleteView {
                                tx_outs: if index_spent_outputs {
                                    old(self)@.delete.tx_outs
                                } else {
                                    old(self)@.delete.tx_outs.union(
                                        outpoints_of(inputs.take(i as int)),
                                    )
                                },
                                script_pubkeys_outpoints: old(
                                    self,
                                )@.delete.script_pubkeys_outpoints.union(
                                    outpoints_of(inputs.take(i as int)),
                                ),
                                tx_state_changes: old(self)@.delete.tx_state_changes,
                            },
                            ..old(self)@
                        }),
                    decreases change.inputs.len() - i,
                {
                    let outpoint = change.inputs[i].outpoint;
                    proof {
                        lemma_outpoints_of_step(inputs, i as int);
                        assert(inputs[i as int].outpoint == outpoint);
                        let s0 = outpoints_of(inputs.take(i as int));
                        assert(old(self)@.delete.tx_outs.union(s0).insert(outpoint) =~= old(
                            self,
                        )@.delete.tx_outs.union(s0.insert(outpoint)));
                        assert(old(self)@.delete.script_pubkeys_outpoints.union(s0).insert(outpoint)
                            =~= old(self)@.delete.script_pubkeys_outpoints.union(
                            s0.insert(outpoint),
                        ));
                    }
                    if !index_spent_outputs {
                        self.delete.tx_outs.insert(outpoint);
                    }
                    self.delete.script_pubkeys_outpoints.insert(outpoint);
                    i = i + 1;
                }
                proof {
                    assert(inputs.take(inputs.len() as int) =~= inputs);
                }
            },
            Err(_) => {
                proof {
                    assert(old(self)@.delete.tx_outs.union(Set::<OutPoint>::empty()) =~= old(
                        self,
                    )@.delete.tx_outs);
                    assert(old(self)@.delete.script_pubkeys_outpoints.union(
                        Set::<OutPoint>::empty(),
                    ) =~= old(self)@.delete.script_pubkeys_outpoints);
                }
            },
        }
        self.delete.tx_state_changes.insert(txid);
    }

    /// Stages the deletion of what the transactions of the block at a
    /// height left behind, and moves the purge mark to that height.
    pub fn purge_block(&mut self, db: &StoreWithLock, height: u64, index_spent_outputs: bool) -> (r:
        Result<(), StoreError>)
        ensures
            match old(self)@.purge_block(db@, height, index_spent_outputs) {
                Ok(c) => r.is_ok() && final(self)@ == c,
                Err(e) => r == Err::<(), StoreError>(e) && final(self)@ == old(self)@,
            },
    {
        let block = match self.get_block_by_height(db, height) {
            Ok(block) => block,
            Err(e) => {
                return Err(e);
            },
        };
        let ghost txids = block@.tx_ids;
        let mut i: usize = 0;
        proof {
            assert(txids.skip(0) =~= txids);
        }
        while i < block.tx_ids.len()
            invariant
                i <= block.tx_ids.len(),
                txids == block@.tx_ids,
                old(self)@.stage_txs(db@, txids, index_spent_outputs) == self@.stage_txs(
                    db@,
                    txids.skip(i as int),
                    index_spent_outputs,
                ),
            decreases block.tx_ids.len() - i,
        {
            proof {
                assert(txids.skip(i as int)[0] == txids[i as int]);
                assert(txids.skip(i as int).skip(1) =~= txids.skip(i + 1));
            }
            self.stage_tx(db, block.tx_ids[i], index_spent_outputs);
            i = i + 1;
        }
        self.update.purged_blocks_count = height;
        Ok(())
    }

    /// Purges the blocks that have sunk below the recoverable depth.
    fn prepare_to_delete(
        &mut self,
        db: &StoreWithLock,
        max_recoverable_reorg_depth: u64,
        index_spent_outputs: bool,
    ) -> (r: Result<(), StoreError>)
        ensures
            final(self)@ == old(self)@.prepare_to_delete(
                db@,
                max_recoverable_reorg_depth,
                index_spent_outputs,
            ).0,
            match old(self)@.prepare_to_delete(
                db@,
                max_recoverable_reorg_depth,
                index_spent_outputs,
            ).1 {
                None => r.is_ok(),
                Some(e) => r == Err::<(), StoreError>(e),
            },
    {
        let last_block_height = match self.last_block_height {
            Some(h) => h,
            None => {
                return Ok(());
            },
        };
        if last_block_height < max_recoverable_reorg_depth {
            return Ok(());
        }
        let to: u64 = last_block_height - max_recoverable_reorg_depth;
        let by_window: u64 = if max_recoverable_reorg_depth < u64::MAX && self.first_block_height
            >= max_recoverable_reorg_depth + 1 {
            self.first_block_height - (max_recoverable_reorg_depth + 1)
        } else {
            0
        };
        let by_purged: u64 = self.update.purged_blocks_count.saturating_add(1);
        let from: u64 = if by_window >= by_purged {
            by_window
        } else {
            by_purged
        };
        assert(from == old(self)@.first_purgeable(max_recoverable_reorg_depth));
        let ghost target = old(self)@.prepare_to_delete(
            db@,
            max_recoverable_reorg_depth,
            index_spent_outputs,
        );
        let mut i: u64 = from;
        while i < to
            invariant
                target == old(self)@.prepare_to_delete(
                    db@,
                    max_recoverable_reorg_depth,
                    index_spent_outputs,
                ),
                target == self@.purge_range(db@, i, to, index_spent_outputs),
            decreases to - i,
        {
            match self.purge_block(db, i, index_spent_outputs) {
                Ok(()) => {},
                Err(e) => {
                    return Err(e);
                },
            }
            i = i + 1;
        }
        Ok(())
    }

    /// Commits the window to the store: purges what has sunk below the
    /// recoverable depth, writes, deletes, and begins a new window. If the
    /// purge fails, nothing is committed.
    pub fn flush(&mut self, db: &mut StoreWithLock) -> (r: Result<(), StoreError>)
        ensures
            match old(self)@.prepared(old(db)@).1 {
                None => r.is_ok() && final(db)@ == committed(
                    old(db)@,
                    old(self)@.prepared(old(db)@).0,
                ) && final(self)@ == old(self)@.prepared(old(db)@).0.after_flush(),
                Some(e) => r == Err::<(), StoreError>(e) && final(db)@ == old(db)@ && final(self)@
                    == old(self)@.prepared(old(db)@).0,
            },
    {
        if !self.settings.mempool {
            match self.prepare_to_delete(
                db,
                self.settings.max_recoverable_reorg_depth,
                self.settings.index_spent_outputs,
            ) {
                Ok(()) => {},
                Err(e) => {
                    return Err(e);
                },
            }
        }
        let store = db.write();
        if !self.update.is_empty() {
            store.batch_update(&self.update, self.settings.mempool);
        }
        if !self.delete.is_empty() {
            store.batch_delete(&self.delete);
        }
        self.update = BatchUpdate::new(
            self.update.rune_count,
            self.update.block_count,
            self.update.purged_blocks_count,
        );
        self.delete = BatchDelete::new();
        self.first_block_height = self.update.block_count;
        self.last_block_height = None;
        Ok(())
    }

    /// Gathers an event for each script with staged changes that has the
    /// form of an address, in the order in which the scripts were staged.
    pub fn add_address_events(&mut self, chain: Chain)
        ensures
            final(self)@ == old(self)@.with_address_events(chain),
    {
        let location = if self.settings.mempool {
            Location::mempool()
        } else {
            Location::block(self.get_block_height_tip())
        };
        let keys = self.update.script_pubkeys.keys();
        let ghost ks = self.update.script_pubkeys.spec_keys();
        let ghost before = self@.events;
        let mut i: usize = 0;
        proof {
            assert(ks.take(0) =~= Seq::<Seq<u8>>::empty());
            assert(before + address_events(ks.take(0), chain, location) =~= before);
        }
        while i < keys.len()
            invariant
                i <= keys.len(),
                keys@.len() == ks.len(),
                forall|j: int| 0 <= j < keys@.len() ==> (#[trigger] keys@[j])@ == ks[j],
                self@ == (CacheView {
                    events: before + address_events(ks.take(i as int), chain, location),
                    ..old(self)@
                }),
                before == old(self)@.events,
                ks == old(self)@.update.script_pubkey_order,
            decreases keys.len() - i,
        {
            proof {
                assert(ks.take(i + 1).drop_last() =~= ks.take(i as int));
                assert(ks.take(i + 1).last() == keys@[i as int]@);
            }
            match address_from_script(chain, &keys[i].bytes) {
                Some(address) => {
                    let ghost prev = self.events@;
                    let event = Event::AddressModified { address, location };
                    let ghost e = event@;
                    self.events.push(event);
                    proof {
                        assert(event_views(self.events@) =~= event_views(prev).push(e));
                        assert(before + address_events(ks.take(i + 1), chain, location) =~= (before
                            + address_events(ks.take(i as int), chain, location)).push(e));
                    }
                },
                None => {},
            }
            i = i + 1;
        }
        proof {
            assert(ks.take(keys.len() as int) =~= ks);
        }
    }
}

/// A second commit directly after a commit changes nothing: neither the
/// store nor the cache.
pub proof fn lemma_flush_twice_is_flush_once(cache: CacheView, db: StoreView)
    requires
        cache.prepared(db).1.is_none(),
    ensures
        ({
            let first = cache.prepared(db).0;
            let db1 = committed(db, first);
            let cache1 = first.after_flush();
            &&& cache1.prepared(db1) == (cache1, None::<StoreError>)
            &&& committed(db1, cache1) == db1
            &&& cache1.after_flush() == cache1
        }),
{
}

} // verus!
