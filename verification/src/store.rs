use crate::ids::{
    BlockHash, BlockId, OutPoint, ScriptPubKey, SerializedTxid, SpenderReference,
};
use crate::model::{
    copy_vec, Block, BlockView, RuneEntry, TransactionStateChange, TransactionStateChangeView,
    TxOutEntry, TxOutEntryView,
};
use crate::rune::Rune;
use crate::rune_id::RuneId;
use crate::table::{lemma_take_push_set, Key, KeySet, Table, Value};
use vstd::prelude::*;

verus! {

/// Why the store could not answer.
#[derive(Debug, PartialEq, Copy, Clone, Eq, Structural)]
pub enum StoreError {
    /// Nothing is stored under the key.
    NotFound,
    /// What is stored cannot be read.
    Corruption,
    /// A writer failed while it held the lock of the store.
    LockPoisoned,
    /// The medium failed.
    Io,
}

impl StoreError {
    pub fn is_not_found(&self) -> (r: bool)
        ensures
            r == (*self == StoreError::NotFound),
    {
        match self {
            StoreError::NotFound => true,
            _ => false,
        }
    }
}

/// The outputs that started and that stopped paying to a script.
#[derive(Debug, PartialEq, Eq)]
pub struct SpkDelta {
    pub new: Vec<OutPoint>,
    pub spent: Vec<OutPoint>,
}

pub struct SpkDeltaView {
    pub new: Seq<OutPoint>,
    pub spent: Seq<OutPoint>,
}

impl View for SpkDelta {
    type V = SpkDeltaView;

    open spec fn view(&self) -> SpkDeltaView {
        SpkDeltaView { new: self.new@, spent: self.spent@ }
    }
}

impl Value for SpkDelta {
    fn dup(&self) -> (r: Self) {
        SpkDelta { new: copy_vec(&self.new), spent: copy_vec(&self.spent) }
    }
}

/// The writes of one flush window.
pub struct BatchUpdate {
    pub blocks: Table<BlockHash, Block>,
    pub block_hashes: Table<u64, BlockHash>,
    pub txouts: Table<OutPoint, TxOutEntry>,
    pub tx_state_changes: Table<SerializedTxid, TransactionStateChange>,
    pub rune_transactions: Table<RuneId, Vec<SerializedTxid>>,
    pub runes: Table<RuneId, RuneEntry>,
    pub rune_ids: Table<Rune, RuneId>,
    pub rune_numbers: Table<u64, RuneId>,
    pub mempool_txs: KeySet<SerializedTxid>,
    pub script_pubkeys: Table<ScriptPubKey, SpkDelta>,
    pub script_pubkeys_outpoints: Table<OutPoint, ScriptPubKey>,
    pub spent_outpoints_in_mempool: Table<OutPoint, SpenderReference>,
    pub transaction_confirming_block: Table<SerializedTxid, BlockId>,
    pub rune_count: u64,
    pub block_count: u64,
    pub purged_blocks_count: u64,
}

pub struct BatchUpdateView {
    pub blocks: Map<BlockHash, BlockView>,
    pub block_hashes: Map<u64, BlockHash>,
    pub txouts: Map<OutPoint, TxOutEntryView>,
    pub tx_state_changes: Map<SerializedTxid, TransactionStateChangeView>,
    pub rune_transactions: Map<RuneId, Seq<SerializedTxid>>,
    pub runes: Map<RuneId, RuneEntry>,
    pub rune_ids: Map<Rune, RuneId>,
    pub rune_numbers: Map<u64, RuneId>,
    pub mempool_txs: Set<SerializedTxid>,
    pub script_pubkeys: Map<Seq<u8>, SpkDeltaView>,
    /// The scripts with staged changes, in the order in which they were
    /// staged.
    pub script_pubkey_order: Seq<Seq<u8>>,
    pub script_pubkeys_outpoints: Map<OutPoint, Seq<u8>>,
    pub spent_outpoints_in_mempool: Map<OutPoint, SpenderReference>,
    pub transaction_confirming_block: Map<SerializedTxid, BlockId>,
    pub rune_count: u64,
    pub block_count: u64,
    pub purged_blocks_count: u64,
}

impl BatchUpdateView {
    /// The window that holds no write and the given counters.
    pub open spec fn empty(rune_count: u64, block_count: u64, purged_blocks_count: u64) -> Self {
        BatchUpdateView {
            blocks: Map::empty(),
            block_hashes: Map::empty(),
            txouts: Map::empty(),
            tx_state_changes: Map::empty(),
            rune_transactions: Map::empty(),
            runes: Map::empty(),
            rune_ids: Map::empty(),
            rune_numbers: Map::empty(),
            mempool_txs: Set::empty(),
            script_pubkeys: Map::empty(),
            script_pubkey_order: Seq::empty(),
            script_pubkeys_outpoints: Map::empty(),
            spent_outpoints_in_mempool: Map::empty(),
            transaction_confirming_block: Map::empty(),
            rune_count,
            block_count,
            purged_blocks_count,
        }
    }

    /// Whether the window holds no write.
    pub open spec fn is_empty(self) -> bool {
        self == Self::empty(self.rune_count, self.block_count, self.purged_blocks_count)
    }
}

impl View for BatchUpdate {
    type V = BatchUpdateView;

    open spec fn view(&self) -> BatchUpdateView {
        BatchUpdateView {
            blocks: self.blocks@,
            block_hashes: self.block_hashes@,
            txouts: self.txouts@,
            tx_state_changes: self.tx_state_changes@,
            rune_transactions: self.rune_transactions@,
            runes: self.runes@,
            rune_ids: self.rune_ids@,
            rune_numbers: self.rune_numbers@,
            mempool_txs: self.mempool_txs@,
            script_pubkeys: self.script_pubkeys@,
            script_pubkey_order: self.script_pubkeys.spec_keys(),
            script_pubkeys_outpoints: self.script_pubkeys_outpoints@,
            spent_outpoints_in_mempool: self.spent_outpoints_in_mempool@,
            transaction_confirming_block: self.transaction_confirming_block@,
            rune_count: self.rune_count,
            block_count: self.block_count,
            purged_blocks_count: self.purged_blocks_count,
        }
    }
}

impl BatchUpdate {
    pub fn new(rune_count: u64, block_count: u64, purged_blocks_count: u64) -> (r: Self)
        ensures
            r@ == BatchUpdateView::empty(rune_count, block_count, purged_blocks_count),
    {
        BatchUpdate {
            blocks: Table::new(),
            block_hashes: Table::new(),
            txouts: Table::new(),
            tx_state_changes: Table::new(),
            rune_transactions: Table::new(),
            runes: Table::new(),
            rune_ids: Table::new(),
            rune_numbers: Table::new(),
            mempool_txs: KeySet::new(),
            script_pubkeys: Table::new(),
            script_pubkeys_outpoints: Table::new(),
            spent_outpoints_in_mempool: Table::new(),
            transaction_confirming_block: Table::new(),
            rune_count,
            block_count,
            purged_blocks_count,
        }
    }

    pub fn is_empty(&self) -> (r: bool)
        ensures
            r == self@.is_empty(),
    {
        proof {
            if self.script_pubkeys.spec_keys().len() == 0 {
                assert(self.script_pubkeys.spec_keys() =~= Seq::<Seq<u8>>::empty());
            }
        }
        self.blocks.is_empty() && self.block_hashes.is_empty() && self.txouts.is_empty()
            && self.tx_state_changes.is_empty() && self.rune_transactions.is_empty()
            && self.runes.is_empty() && self.rune_ids.is_empty() && self.rune_numbers.is_empty()
            && self.mempool_txs.is_empty() && self.script_pubkeys.is_empty()
            && self.script_pubkeys_outpoints.is_empty()
            && self.spent_outpoints_in_mempool.is_empty()
            && self.transaction_confirming_block.is_empty()
    }
}

/// The deletions of one flush window.
pub struct BatchDelete {
    pub tx_outs: KeySet<OutPoint>,
    pub script_pubkeys_outpoints: KeySet<OutPoint>,
    pub tx_state_changes: KeySet<SerializedTxid>,
}

pub struct BatchDeleteView {
    pub tx_outs: Set<OutPoint>,
    pub script_pubkeys_outpoints: Set<OutPoint>,
    pub tx_state_changes: Set<SerializedTxid>,
}

impl BatchDeleteView {
    pub open spec fn empty() -> Self {
        BatchDeleteView {
            tx_outs: Set::empty(),
            script_pubkeys_outpoints: Set::empty(),
            tx_state_changes: Set::empty(),
        }
    }
}

impl View for BatchDelete {
    type V = BatchDeleteView;

    open spec fn view(&self) -> BatchDeleteView {
        BatchDeleteView {
            tx_outs: self.tx_outs@,
            script_pubkeys_outpoints: self.script_pubkeys_outpoints@,
            tx_state_changes: self.tx_state_changes@,
        }
    }
}

impl BatchDelete {
    pub fn new() -> (r: Self)
        ensures
            r@ == BatchDeleteView::empty(),
    {
        BatchDelete {
            tx_outs: KeySet::new(),
            script_pubkeys_outpoints: KeySet::new(),
            tx_state_changes: KeySet::new(),
        }
    }

    pub fn is_empty(&self) -> (r: bool)
        ensures
            r == (self@ == BatchDeleteView::empty()),
    {
        self.tx_outs.is_empty() && self.script_pubkeys_outpoints.is_empty()
            && self.tx_state_changes.is_empty()
    }
}

/// The value under a key, or the empty sequence where the key is missing.
pub open spec fn list_at<K, T>(m: Map<K, Seq<T>>, k: K) -> Seq<T> {
    if m.contains_key(k) {
        m[k]
    } else {
        Seq::empty()
    }
}

/// The lists of `idx`, each followed by the list that `add` has for its
/// key.
pub open spec fn lists_after<K, T>(idx: Map<K, Seq<T>>, add: Map<K, Seq<T>>) -> Map<K, Seq<T>> {
    Map::new(
        |k: K| idx.contains_key(k) || add.contains_key(k),
        |k: K| list_at(idx, k) + list_at(add, k),
    )
}

/// The outputs that pay to a script after a change: those that paid to it
/// before and the new ones, without those that were spent.
pub open spec fn apply_delta(list: Seq<OutPoint>, delta: SpkDeltaView) -> Seq<OutPoint> {
    (list + delta.new).filter(|o: OutPoint| !delta.spent.contains(o))
}

/// An output that stopped to pay to a script is not among those that pay
/// to it after the change.
pub proof fn lemma_apply_delta_excludes_spent(
    list: Seq<OutPoint>,
    delta: SpkDeltaView,
    outpoint: OutPoint,
)
    requires
        delta.spent.contains(outpoint),
    ensures
        !apply_delta(list, delta).contains(outpoint),
{
    broadcast use vstd::seq_lib::group_filter_ensures;

    let keep = |o: OutPoint| !delta.spent.contains(o);
    let all = list + delta.new;
    if all.filter(keep).contains(outpoint) {
        let i = choose|i: int| 0 <= i < all.filter(keep).len() && all.filter(keep)[i] == outpoint;
        assert(keep(all.filter(keep)[i]));
    }
}

/// The script index after the changes of a flush window.
pub open spec fn spk_after(
    idx: Map<Seq<u8>, Seq<OutPoint>>,
    deltas: Map<Seq<u8>, SpkDeltaView>,
) -> Map<Seq<u8>, Seq<OutPoint>> {
    Map::new(
        |k: Seq<u8>| idx.contains_key(k) || deltas.contains_key(k),
        |k: Seq<u8>|
            if deltas.contains_key(k) {
                apply_delta(list_at(idx, k), deltas[k])
            } else {
                idx[k]
            },
    )
}

/// Everything the store holds. Outputs, state changes and the script index
/// exist twice: once for the chain and once for the mempool.
pub struct StoreView {
    pub blocks: Map<BlockHash, BlockView>,
    pub block_hashes: Map<u64, BlockHash>,
    pub txouts: Map<OutPoint, TxOutEntryView>,
    pub mempool_txouts: Map<OutPoint, TxOutEntryView>,
    pub tx_state_changes: Map<SerializedTxid, TransactionStateChangeView>,
    pub mempool_tx_state_changes: Map<SerializedTxid, TransactionStateChangeView>,
    pub rune_transactions: Map<RuneId, Seq<SerializedTxid>>,
    pub runes: Map<RuneId, RuneEntry>,
    pub rune_ids: Map<Rune, RuneId>,
    pub rune_numbers: Map<u64, RuneId>,
    pub mempool_txs: Set<SerializedTxid>,
    pub script_pubkeys: Map<Seq<u8>, Seq<OutPoint>>,
    pub mempool_script_pubkeys: Map<Seq<u8>, Seq<OutPoint>>,
    pub outpoint_script_pubkeys: Map<OutPoint, Seq<u8>>,
    pub mempool_outpoint_script_pubkeys: Map<OutPoint, Seq<u8>>,
    pub spent_outpoints_in_mempool: Map<OutPoint, SpenderReference>,
    pub transaction_confirming_block: Map<SerializedTxid, BlockId>,
    pub rune_count: u64,
    pub block_count: u64,
    pub purged_blocks_count: u64,
}

impl StoreView {
    /// The store after the writes of a window were committed. With
    /// `mempool` set, outputs, state changes and script entries go to the
    /// mempool side.
    pub open spec fn apply_update(self, u: BatchUpdateView, mempool: bool) -> StoreView {
        StoreView {
            blocks: self.blocks.union_prefer_right(u.blocks),
            block_hashes: self.block_hashes.union_prefer_right(u.block_hashes),
            txouts: if mempool {
                self.txouts
            } else {
                self.txouts.union_prefer_right(u.txouts)
            },
            mempool_txouts: if mempool {
                self.mempool_txouts.union_prefer_right(u.txouts)
            } else {
                self.mempool_txouts
            },
            tx_state_changes: if mempool {
                self.tx_state_changes
            } else {
                self.tx_state_changes.union_prefer_right(u.tx_state_changes)
            },
            mempool_tx_state_changes: if mempool {
                self.mempool_tx_state_changes.union_prefer_right(u.tx_state_changes)
            } else {
                self.mempool_tx_state_changes
            },
            rune_transactions: lists_after(self.rune_transactions, u.rune_transactions),
            runes: self.runes.union_prefer_right(u.runes),
            rune_ids: self.rune_ids.union_prefer_right(u.rune_ids),
            rune_numbers: self.rune_numbers.union_prefer_right(u.rune_numbers),
            mempool_txs: self.mempool_txs.union(u.mempool_txs),
            script_pubkeys: if mempool {
                self.script_pubkeys
            } else {
                spk_after(self.script_pubkeys, u.script_pubkeys)
            },
            mempool_script_pubkeys: if mempool {
                spk_after(self.mempool_script_pubkeys, u.script_pubkeys)
            } else {
                self.mempool_script_pubkeys
            },
            outpoint_script_pubkeys: if mempool {
                self.outpoint_script_pubkeys
            } else {
                self.outpoint_script_pubkeys.union_prefer_right(u.script_pubkeys_outpoints)
            },
            mempool_outpoint_script_pubkeys: if mempool {
                self.mempool_outpoint_script_pubkeys.union_prefer_right(u.script_pubkeys_outpoints)
            } else {
                self.mempool_outpoint_script_pubkeys
            },
            spent_outpoints_in_mempool: self.spent_outpoints_in_mempool.union_prefer_right(
                u.spent_outpoints_in_mempool,
            ),
            transaction_confirming_block: self.transaction_confirming_block.union_prefer_right(
                u.transaction_confirming_block,
            ),
            rune_count: u.rune_count,
            block_count: u.block_count,
            purged_blocks_count: u.purged_blocks_count,
        }
    }

    /// The store after the deletions of a window were committed.
    pub open spec fn apply_delete(self, d: BatchDeleteView) -> StoreView {
        StoreView {
            txouts: self.txouts.remove_keys(d.tx_outs),
            outpoint_script_pubkeys: self.outpoint_script_pubkeys.remove_keys(
                d.script_pubkeys_outpoints,
            ),
            tx_state_changes: self.tx_state_changes.remove_keys(d.tx_state_changes),
            ..self
        }
    }

    /// What is stored for an output. Without a side the side of the chain
    /// is asked first, so that what the mempool did to an output of the
    /// chain does not hide it.
    pub open spec fn tx_out(self, outpoint: OutPoint, mempool: Option<bool>) -> Option<
        TxOutEntryView,
    > {
        match mempool {
            Some(true) => self.mempool_txouts.get(outpoint),
            Some(false) => self.txouts.get(outpoint),
            None => if self.txouts.contains_key(outpoint) {
                self.txouts.get(outpoint)
            } else {
                self.mempool_txouts.get(outpoint)
            },
        }
    }

    /// The scripts of outputs, on the side given.
    pub open spec fn reverse_scripts(self, mempool: bool) -> Map<OutPoint, Seq<u8>> {
        if mempool {
            self.mempool_outpoint_script_pubkeys
        } else {
            self.outpoint_script_pubkeys
        }
    }

    /// The outputs of scripts, on the side given.
    pub open spec fn script_outpoints(self, mempool: bool) -> Map<Seq<u8>, Seq<OutPoint>> {
        if mempool {
            self.mempool_script_pubkeys
        } else {
            self.script_pubkeys
        }
    }

    /// The state change stored for a transaction. Without a side the side
    /// of the chain is asked first.
    pub open spec fn tx_state_change(self, txid: SerializedTxid, mempool: Option<bool>) -> Option<
        TransactionStateChangeView,
    > {
        match mempool {
            Some(true) => self.mempool_tx_state_changes.get(txid),
            Some(false) => self.tx_state_changes.get(txid),
            None => if self.tx_state_changes.contains_key(txid) {
                self.tx_state_changes.get(txid)
            } else {
                self.mempool_tx_state_changes.get(txid)
            },
        }
    }
}

/// The typed key-value store of the indexer.
pub struct Store {
    blocks: Table<BlockHash, Block>,
    block_hashes: Table<u64, BlockHash>,
    txouts: Table<OutPoint, TxOutEntry>,
    mempool_txouts: Table<OutPoint, TxOutEntry>,
    tx_state_changes: Table<SerializedTxid, TransactionStateChange>,
    mempool_tx_state_changes: Table<SerializedTxid, TransactionStateChange>,
    rune_transactions: Table<RuneId, Vec<SerializedTxid>>,
    runes: Table<RuneId, RuneEntry>,
    rune_ids: Table<Rune, RuneId>,
    rune_numbers: Table<u64, RuneId>,
    mempool_txs: KeySet<SerializedTxid>,
    script_pubkeys: Table<ScriptPubKey, Vec<OutPoint>>,
    mempool_script_pubkeys: Table<ScriptPubKey, Vec<OutPoint>>,
    outpoint_script_pubkeys: Table<OutPoint, ScriptPubKey>,
    mempool_outpoint_script_pubkeys: Table<OutPoint, ScriptPubKey>,
    spent_outpoints_in_mempool: Table<OutPoint, SpenderReference>,
    transaction_confirming_block: Table<SerializedTxid, BlockId>,
    rune_count: u64,
    block_count: u64,
    purged_blocks_count: u64,
}

impl View for Store {
    type V = StoreView;

    closed spec fn view(&self) -> StoreView {
        StoreView {
            blocks: self.blocks@,
            block_hashes: self.block_hashes@,
            txouts: self.txouts@,
            mempool_txouts: self.mempool_txouts@,
            tx_state_changes: self.tx_state_changes@,
            mempool_tx_state_changes: self.mempool_tx_state_changes@,
            rune_transactions: self.rune_transactions@,
            runes: self.runes@,
            rune_ids: self.rune_ids@,
            rune_numbers: self.rune_numbers@,
            mempool_txs: self.mempool_txs@,
            script_pubkeys: self.script_pubkeys@,
            mempool_script_pubkeys: self.mempool_script_pubkeys@,
            outpoint_script_pubkeys: self.outpoint_script_pubkeys@,
            mempool_outpoint_script_pubkeys: self.mempool_outpoint_script_pubkeys@,
            spent_outpoints_in_mempool: self.spent_outpoints_in_mempool@,
            transaction_confirming_block: self.transaction_confirming_block@,
            rune_count: self.rune_count,
            block_count: self.block_count,
            purged_blocks_count: self.purged_blocks_count,
        }
    }
}

/// The value stored under a key, or `NotFound`.
pub fn lookup<K: Key, V: Value>(table: &Table<K, V>, key: &K) -> (r: Result<V, StoreError>)
    ensures
        match r {
            Ok(v) => table@.contains_key(key@) && v@ == table@[key@],
            Err(e) => e == StoreError::NotFound && !table@.contains_key(key@),
        },
{
    match table.get_cloned(key) {
        Some(v) => Ok(v),
        None => Err(StoreError::NotFound),
    }
}

/// The two lists one after the other.
pub fn concat<T: Copy>(a: &Vec<T>, b: &Vec<T>) -> (r: Vec<T>)
    ensures
        r@ == a@ + b@,
{
    let mut out = copy_vec(a);
    let mut i: usize = 0;
    while i < b.len()
        invariant
            i <= b.len(),
            out@ == a@ + b@.take(i as int),
        decreases b.len() - i,
    {
        proof {
            assert(a@ + b@.take(i + 1) =~= (a@ + b@.take(i as int)).push(b@[i as int]));
        }
        out.push(b[i]);
        i = i + 1;
    }
    assert(b@.take(b.len() as int) =~= b@);
    out
}

/// Whether the list holds the output.
pub fn holds(list: &Vec<OutPoint>, outpoint: &OutPoint) -> (r: bool)
    ensures
        r == list@.contains(*outpoint),
{
    let mut i: usize = 0;
    while i < list.len()
        invariant
            i <= list.len(),
            forall|j: int| 0 <= j < i ==> list@[j] != *outpoint,
        decreases list.len() - i,
    {
        if list[i] == *outpoint {
            return true;
        }
        i = i + 1;
    }
    false
}

/// The outputs of `list` that `spent` does not hold, in their order.
pub fn without(list: &Vec<OutPoint>, spent: &Vec<OutPoint>) -> (r: Vec<OutPoint>)
    ensures
        r@ == list@.filter(|o: OutPoint| !spent@.contains(o)),
{
    let ghost keep = |o: OutPoint| !spent@.contains(o);
    let mut out: Vec<OutPoint> = Vec::new();
    let mut i: usize = 0;
    proof {
        reveal(Seq::filter);
        assert(list@.take(0).filter(keep) =~= Seq::<OutPoint>::empty());
    }
    while i < list.len()
        invariant
            i <= list.len(),
            keep == |o: OutPoint| !spent@.contains(o),
            out@ == list@.take(i as int).filter(keep),
        decreases list.len() - i,
    {
        proof {
            reveal(Seq::filter);
            assert(list@.take(i + 1).drop_last() =~= list@.take(i as int));
        }
        if !holds(spent, &list[i]) {
            out.push(list[i]);
        }
        i = i + 1;
    }
    assert(list@.take(list.len() as int) =~= list@);
    out
}

/// Appends to each list of `dst` the list that `add` has for its key.
fn merge_lists(
    dst: &mut Table<RuneId, Vec<SerializedTxid>>,
    add: &Table<RuneId, Vec<SerializedTxid>>,
)
    ensures
        final(dst)@ == lists_after(old(dst)@, add@),
{
    let keys = add.keys();
    let ghost ks = add.spec_keys();
    let mut i: usize = 0;
    proof {
        lemma_take_push_set(ks.push(RuneId { block: 0, tx: 0 }), 0);
        assert(ks.push(RuneId { block: 0, tx: 0 }).take(0) =~= ks.take(0));
        assert(lists_after(old(dst)@, add@.restrict(ks.take(0).to_set())) =~= old(dst)@);
    }
    while i < keys.len()
        invariant
            i <= keys.len(),
            keys@.len() == ks.len(),
            ks.no_duplicates(),
            forall|j: int| 0 <= j < keys@.len() ==> (#[trigger] keys@[j])@ == ks[j],
            forall|k: RuneId| ks.contains(k) <==> #[trigger] add@.contains_key(k),
            dst@ == lists_after(old(dst)@, add@.restrict(ks.take(i as int).to_set())),
        decreases keys.len() - i,
    {
        let key = keys[i];
        proof {
            assert(ks[i as int] == key);
            assert(ks.contains(key));
            lemma_take_push_set(ks, i as int);
            if ks.take(i as int).contains(key) {
                let j = choose|j: int| 0 <= j < i && ks.take(i as int)[j] == key;
                assert(ks[j] == ks[i as int]);
            }
        }
        let extra = add.get(&key).unwrap();
        let merged = match dst.get(&key) {
            Some(current) => concat(current, extra),
            None => copy_vec(extra),
        };
        proof {
            let t0 = ks.take(i as int).to_set();
            let t1 = ks.take(i + 1).to_set();
            assert(merged@ =~= list_at(old(dst)@, key) + add@[key]);
            assert(lists_after(old(dst)@, add@.restrict(t0)).insert(key, merged@) =~= lists_after(
                old(dst)@,
                add@.restrict(t1),
            ));
        }
        dst.insert(key, merged);
        i = i + 1;
    }
    proof {
        assert(ks.take(keys.len() as int) =~= ks);
        assert(add@.restrict(ks.to_set()) =~= add@);
    }
}

/// Applies the changes of a flush window to a script index.
fn merge_script_pubkeys(
    dst: &mut Table<ScriptPubKey, Vec<OutPoint>>,
    deltas: &Table<ScriptPubKey, SpkDelta>,
)
    ensures
        final(dst)@ == spk_after(old(dst)@, deltas@),
{
    let keys = deltas.keys();
    let ghost ks = deltas.spec_keys();
    let mut i: usize = 0;
    proof {
        lemma_take_push_set(ks.push(Seq::<u8>::empty()), 0);
        assert(ks.push(Seq::<u8>::empty()).take(0) =~= ks.take(0));
        assert(spk_after(old(dst)@, deltas@.restrict(ks.take(0).to_set())) =~= old(dst)@);
    }
    while i < keys.len()
        invariant
            i <= keys.len(),
            keys@.len() == ks.len(),
            ks.no_duplicates(),
            forall|j: int| 0 <= j < keys@.len() ==> (#[trigger] keys@[j])@ == ks[j],
            forall|k: Seq<u8>| ks.contains(k) <==> #[trigger] deltas@.contains_key(k),
            dst@ == spk_after(old(dst)@, deltas@.restrict(ks.take(i as int).to_set())),
        decreases keys.len() - i,
    {
        let key = keys[i].dup_key();
        proof {
            assert(ks[i as int] == key@);
            assert(ks.contains(key@));
            lemma_take_push_set(ks, i as int);
            if ks.take(i as int).contains(key@) {
                let j = choose|j: int| 0 <= j < i && ks.take(i as int)[j] == key@;
                assert(ks[j] == ks[i as int]);
            }
        }
        let delta = deltas.get(&key).unwrap();
        let joined = match dst.get(&key) {
            Some(current) => concat(current, &delta.new),
            None => copy_vec(&delta.new),
        };
        let merged = without(&joined, &delta.spent);
        proof {
            let t0 = ks.take(i as int).to_set();
            let t1 = ks.take(i + 1).to_set();
            assert(joined@ =~= list_at(old(dst)@, key@) + delta@.new);
            assert(spk_after(old(dst)@, deltas@.restrict(t0)).insert(key@, merged@) =~= spk_after(
                old(dst)@,
                deltas@.restrict(t1),
            ));
        }
        dst.insert(key, merged);
        i = i + 1;
    }
    proof {
        assert(ks.take(keys.len() as int) =~= ks);
        assert(deltas@.restrict(ks.to_set()) =~= deltas@);
    }
}

impl Store {
    /// A store that holds nothing.
    pub fn new() -> (s: Self)
        ensures
            s@.rune_count == 0,
            s@.block_count == 0,
            s@.purged_blocks_count == 0,
            s@.blocks == Map::<BlockHash, BlockView>::empty(),
            s@.block_hashes == Map::<u64, BlockHash>::empty(),
            s@.txouts == Map::<OutPoint, TxOutEntryView>::empty(),
            s@.mempool_txouts == Map::<OutPoint, TxOutEntryView>::empty(),
            s@.tx_state_changes == Map::<SerializedTxid, TransactionStateChangeView>::empty(),
            s@.mempool_tx_state_changes == Map::<
                SerializedTxid,
                TransactionStateChangeView,
            >::empty(),
            s@.rune_transactions == Map::<RuneId, Seq<SerializedTxid>>::empty(),
            s@.runes == Map::<RuneId, RuneEntry>::empty(),
            s@.rune_ids == Map::<Rune, RuneId>::empty(),
            s@.rune_numbers == Map::<u64, RuneId>::empty(),
            s@.mempool_txs == Set::<SerializedTxid>::empty(),
            s@.script_pubkeys == Map::<Seq<u8>, Seq<OutPoint>>::empty(),
            s@.mempool_script_pubkeys == Map::<Seq<u8>, Seq<OutPoint>>::empty(),
            s@.outpoint_script_pubkeys == Map::<OutPoint, Seq<u8>>::empty(),
            s@.mempool_outpoint_script_pubkeys == Map::<OutPoint, Seq<u8>>::empty(),
            s@.spent_outpoints_in_mempool == Map::<OutPoint, SpenderReference>::empty(),
            s@.transaction_confirming_block == Map::<SerializedTxid, BlockId>::empty(),
    {
        Store {
            blocks: Table::new(),
            block_hashes: Table::new(),
            txouts: Table::new(),
            mempool_txouts: Table::new(),
            tx_state_changes: Table::new(),
            mempool_tx_state_changes: Table::new(),
            rune_transactions: Table::new(),
            runes: Table::new(),
            rune_ids: Table::new(),
            rune_numbers: Table::new(),
            mempool_txs: KeySet::new(),
            script_pubkeys: Table::new(),
            mempool_script_pubkeys: Table::new(),
            outpoint_script_pubkeys: Table::new(),
            mempool_outpoint_script_pubkeys: Table::new(),
            spent_outpoints_in_mempool: Table::new(),
            transaction_confirming_block: Table::new(),
            rune_count: 0,
            block_count: 0,
            purged_blocks_count: 0,
        }
    }

    pub fn get_runes_count(&self) -> (n: u64)
        ensures
            n == self@.rune_count,
    {
        self.rune_count
    }

    pub fn get_block_count(&self) -> (n: u64)
        ensures
            n == self@.block_count,
    {
        self.block_count
    }

    pub fn get_purged_blocks_count(&self) -> (n: u64)
        ensures
            n == self@.purged_blocks_count,
    {
        self.purged_blocks_count
    }

    pub fn set_block_count(&mut self, count: u64)
        ensures
            final(self)@ == (StoreView { block_count: count, ..old(self)@ }),
    {
        self.block_count = count;
    }

    pub fn set_purged_blocks_count(&mut self, count: u64)
        ensures
            final(self)@ == (StoreView { purged_blocks_count: count, ..old(self)@ }),
    {
        self.purged_blocks_count = count;
    }

    pub fn set_runes_count(&mut self, count: u64)
        ensures
            final(self)@ == (StoreView { rune_count: count, ..old(self)@ }),
    {
        self.rune_count = count;
    }

    /// The block that confirmed a transaction.
    pub fn get_transaction_confirming_block(&self, txid: &SerializedTxid) -> (r: Result<
        BlockId,
        StoreError,
    >)
        ensures
            match r {
                Ok(id) => self@.transaction_confirming_block.contains_key(*txid) && id
                    == self@.transaction_confirming_block[*txid],
                Err(e) => e == StoreError::NotFound
                    && !self@.transaction_confirming_block.contains_key(*txid),
            },
    {
        lookup(&self.transaction_confirming_block, txid)
    }

    pub fn get_block_hash(&self, height: u64) -> (r: Result<BlockHash, StoreError>)
        ensures
            match r {
                Ok(h) => self@.block_hashes.contains_key(height) && h == self@.block_hashes[height],
                Err(e) => e == StoreError::NotFound && !self@.block_hashes.contains_key(height),
            },
    {
        lookup(&self.block_hashes, &height)
    }

    pub fn get_block_by_hash(&self, hash: &BlockHash) -> (r: Result<Block, StoreError>)
        ensures
            match r {
                Ok(b) => self@.blocks.contains_key(*hash) && b@ == self@.blocks[*hash],
                Err(e) => e == StoreError::NotFound && !self@.blocks.contains_key(*hash),
            },
    {
        lookup(&self.blocks, hash)
    }

    pub fn delete_block(&mut self, hash: &BlockHash)
        ensures
            final(self)@ == (StoreView { blocks: old(self)@.blocks.remove(*hash), ..old(self)@ }),
    {
        self.blocks.remove(hash);
    }

    pub fn delete_block_hash(&mut self, height: u64)
        ensures
            final(self)@ == (StoreView {
                block_hashes: old(self)@.block_hashes.remove(height),
                ..old(self)@
            }),
    {
        self.block_hashes.remove(&height);
    }

    pub fn get_tx_out(&self, outpoint: &OutPoint, mempool: Option<bool>) -> (r: Result<
        TxOutEntry,
        StoreError,
    >)
        ensures
            match r {
                Ok(e) => self@.tx_out(*outpoint, mempool) == Some(e@),
                Err(e) => e == StoreError::NotFound && self@.tx_out(*outpoint, mempool).is_none(),
            },
    {
        match mempool {
            Some(true) => lookup(&self.mempool_txouts, outpoint),
            Some(false) => lookup(&self.txouts, outpoint),
            None => {
                if self.txouts.contains_key(outpoint) {
                    lookup(&self.txouts, outpoint)
                } else {
                    lookup(&self.mempool_txouts, outpoint)
                }
            },
        }
    }

    /// Stores an output on the side given.
    pub fn set_tx_out(&mut self, outpoint: OutPoint, entry: TxOutEntry, mempool: bool)
        ensures
            mempool ==> final(self)@ == (StoreView {
                mempool_txouts: old(self)@.mempool_txouts.insert(outpoint, entry@),
                ..old(self)@
            }),
            !mempool ==> final(self)@ == (StoreView {
                txouts: old(self)@.txouts.insert(outpoint, entry@),
                ..old(self)@
            }),
    {
        if mempool {
            self.mempool_txouts.insert(outpoint, entry);
        } else {
            self.txouts.insert(outpoint, entry);
        }
    }

    /// Deletes an output on the side given.
    pub fn delete_tx_out(&mut self, outpoint: &OutPoint, mempool: bool)
        ensures
            mempool ==> final(self)@ == (StoreView {
                mempool_txouts: old(self)@.mempool_txouts.remove(*outpoint),
                ..old(self)@
            }),
            !mempool ==> final(self)@ == (StoreView {
                txouts: old(self)@.txouts.remove(*outpoint),
                ..old(self)@
            }),
    {
        if mempool {
            self.mempool_txouts.remove(outpoint);
        } else {
            self.txouts.remove(outpoint);
        }
    }

    pub fn get_tx_state_changes(&self, txid: &SerializedTxid, mempool: Option<bool>) -> (r: Result<
        TransactionStateChange,
        StoreError,
    >)
        ensures
            match r {
                Ok(c) => self@.tx_state_change(*txid, mempool) == Some(c@),
                Err(e) => e == StoreError::NotFound && self@.tx_state_change(
                    *txid,
                    mempool,
                ).is_none(),
            },
    {
        match mempool {
            Some(true) => lookup(&self.mempool_tx_state_changes, txid),
            Some(false) => lookup(&self.tx_state_changes, txid),
            None => {
                if self.tx_state_changes.contains_key(txid) {
                    lookup(&self.tx_state_changes, txid)
                } else {
                    lookup(&self.mempool_tx_state_changes, txid)
                }
            },
        }
    }

    /// Deletes the state change of a transaction on the side given.
    pub fn delete_tx_state_changes(&mut self, txid: &SerializedTxid, mempool: bool)
        ensures
            mempool ==> final(self)@ == (StoreView {
                mempool_tx_state_changes: old(self)@.mempool_tx_state_changes.remove(*txid),
                ..old(self)@
            }),
            !mempool ==> final(self)@ == (StoreView {
                tx_state_changes: old(self)@.tx_state_changes.remove(*txid),
                ..old(self)@
            }),
    {
        if mempool {
            self.mempool_tx_state_changes.remove(txid);
        } else {
            self.tx_state_changes.remove(txid);
        }
    }

    pub fn is_tx_in_mempool(&self, txid: &SerializedTxid) -> (r: bool)
        ensures
            r == self@.mempool_txs.contains(*txid),
    {
        self.mempool_txs.contains(txid)
    }

    /// The transactions of the mempool set, each once.
    pub fn get_mempool_txids(&self) -> (r: Vec<SerializedTxid>)
        ensures
            r@.no_duplicates(),
            forall|t: SerializedTxid| r@.contains(t) <==> #[trigger] self@.mempool_txs.contains(t),
    {
        let r = self.mempool_txs.items();
        proof {
            assert(r@ =~= self.mempool_txs.spec_items());
        }
        r
    }

    pub fn remove_mempool_tx(&mut self, txid: &SerializedTxid)
        ensures
            final(self)@ == (StoreView {
                mempool_txs: old(self)@.mempool_txs.remove(*txid),
                ..old(self)@
            }),
    {
        self.mempool_txs.remove(txid);
    }

    pub fn get_rune(&self, rune_id: &RuneId) -> (r: Result<RuneEntry, StoreError>)
        ensures
            match r {
                Ok(e) => self@.runes.contains_key(*rune_id) && e == self@.runes[*rune_id],
                Err(e) => e == StoreError::NotFound && !self@.runes.contains_key(*rune_id),
            },
    {
        lookup(&self.runes, rune_id)
    }

    pub fn set_rune(&mut self, rune_id: RuneId, entry: RuneEntry)
        ensures
            final(self)@ == (StoreView {
                runes: old(self)@.runes.insert(rune_id, entry),
                ..old(self)@
            }),
    {
        self.runes.insert(rune_id, entry);
    }

    /// Deletes a rune with its name and number entries.
    pub fn delete_rune(&mut self, rune_id: &RuneId, rune: &Rune, number: u64)
        ensures
            final(self)@ == (StoreView {
                runes: old(self)@.runes.remove(*rune_id),
                rune_ids: old(self)@.rune_ids.remove(*rune),
                rune_numbers: old(self)@.rune_numbers.remove(number),
                ..old(self)@
            }),
    {
        self.runes.remove(rune_id);
        self.rune_ids.remove(rune);
        self.rune_numbers.remove(&number);
    }

    /// Deletes a rune with its name entry.
    pub fn delete_rune_name(&mut self, rune_id: &RuneId, rune: &Rune)
        ensures
            final(self)@ == (StoreView {
                runes: old(self)@.runes.remove(*rune_id),
                rune_ids: old(self)@.rune_ids.remove(*rune),
                ..old(self)@
            }),
    {
        self.runes.remove(rune_id);
        self.rune_ids.remove(rune);
    }

    /// The rune with a number.
    pub fn get_rune_id_by_number(&self, number: u64) -> (r: Result<RuneId, StoreError>)
        ensures
            match r {
                Ok(id) => self@.rune_numbers.contains_key(number) && id
                    == self@.rune_numbers[number],
                Err(e) => e == StoreError::NotFound && !self@.rune_numbers.contains_key(number),
            },
    {
        lookup(&self.rune_numbers, &number)
    }

    pub fn get_rune_id(&self, rune: &Rune) -> (r: Result<RuneId, StoreError>)
        ensures
            match r {
                Ok(id) => self@.rune_ids.contains_key(*rune) && id == self@.rune_ids[*rune],
                Err(e) => e == StoreError::NotFound && !self@.rune_ids.contains_key(*rune),
            },
    {
        lookup(&self.rune_ids, rune)
    }

    /// The script that an output pays to, on the side given.
    pub fn get_outpoint_script_pubkey(&self, outpoint: &OutPoint, mempool: bool) -> (r: Result<
        ScriptPubKey,
        StoreError,
    >)
        ensures
            match r {
                Ok(s) => self@.reverse_scripts(mempool).contains_key(*outpoint) && s@
                    == self@.reverse_scripts(mempool)[*outpoint],
                Err(e) => e == StoreError::NotFound && !self@.reverse_scripts(mempool).contains_key(
                    *outpoint,
                ),
            },
    {
        if mempool {
            lookup(&self.mempool_outpoint_script_pubkeys, outpoint)
        } else {
            lookup(&self.outpoint_script_pubkeys, outpoint)
        }
    }

    /// The outputs that pay to a script, on the side given.
    pub fn get_script_pubkey_outpoints(&self, script_pubkey: &ScriptPubKey, mempool: bool) -> (r:
        Vec<OutPoint>)
        ensures
            r@ == list_at(self@.script_outpoints(mempool), script_pubkey@),
    {
        let found = if mempool {
            self.mempool_script_pubkeys.get(script_pubkey)
        } else {
            self.script_pubkeys.get(script_pubkey)
        };
        match found {
            Some(list) => copy_vec(list),
            None => Vec::new(),
        }
    }

    /// The transactions that touched a rune, oldest first.
    pub fn get_rune_transactions(&self, rune_id: &RuneId) -> (r: Vec<SerializedTxid>)
        ensures
            r@ == list_at(self@.rune_transactions, *rune_id),
    {
        match self.rune_transactions.get(rune_id) {
            Some(list) => copy_vec(list),
            None => Vec::new(),
        }
    }

    /// Replaces the list of the transactions that touched a rune; an empty
    /// list removes the entry.
    pub fn set_rune_transactions(&mut self, rune_id: RuneId, list: Vec<SerializedTxid>)
        ensures
            final(self)@ == (StoreView {
                rune_transactions: if list@.len() == 0 {
                    old(self)@.rune_transactions.remove(rune_id)
                } else {
                    old(self)@.rune_transactions.insert(rune_id, list@)
                },
                ..old(self)@
            }),
    {
        if list.len() == 0 {
            self.rune_transactions.remove(&rune_id);
        } else {
            self.rune_transactions.insert(rune_id, list);
        }
    }

    /// Commits the writes of a flush window in one step.
    pub fn batch_update(&mut self, update: &BatchUpdate, mempool: bool)
        ensures
            final(self)@ == old(self)@.apply_update(update@, mempool),
    {
        self.blocks.extend(&update.blocks);
        self.block_hashes.extend(&update.block_hashes);
        if mempool {
            self.mempool_txouts.extend(&update.txouts);
            self.mempool_tx_state_changes.extend(&update.tx_state_changes);
            merge_script_pubkeys(&mut self.mempool_script_pubkeys, &update.script_pubkeys);
            self.mempool_outpoint_script_pubkeys.extend(&update.script_pubkeys_outpoints);
        } else {
            self.txouts.extend(&update.txouts);
            self.tx_state_changes.extend(&update.tx_state_changes);
            merge_script_pubkeys(&mut self.script_pubkeys, &update.script_pubkeys);
            self.outpoint_script_pubkeys.extend(&update.script_pubkeys_outpoints);
        }
        merge_lists(&mut self.rune_transactions, &update.rune_transactions);
        self.runes.extend(&update.runes);
        self.rune_ids.extend(&update.rune_ids);
        self.rune_numbers.extend(&update.rune_numbers);
        self.mempool_txs.extend(&update.mempool_txs);
        self.spent_outpoints_in_mempool.extend(&update.spent_outpoints_in_mempool);
        self.transaction_confirming_block.extend(&update.transaction_confirming_block);
        self.rune_count = update.rune_count;
        self.block_count = update.block_count;
        self.purged_blocks_count = update.purged_blocks_count;
    }

    /// Commits the deletions of a flush window in one step.
    pub fn batch_delete(&mut self, delete: &BatchDelete)
        ensures
            final(self)@ == old(self)@.apply_delete(delete@),
    {
        self.txouts.remove_set(&delete.tx_outs);
        self.outpoint_script_pubkeys.remove_set(&delete.script_pubkeys_outpoints);
        self.tx_state_changes.remove_set(&delete.tx_state_changes);
    }
}

/// The one owner of the store. A shared borrow of it reads the store, and
/// as many may read as hold one; an exclusive borrow writes it, and no
/// one reads meanwhile. No lock is held: the borrows give what a
/// read-write lock would.
pub struct StoreWithLock {
    store: Store,
}

impl View for StoreWithLock {
    type V = StoreView;

    closed spec fn view(&self) -> StoreView {
        self.store@
    }
}

impl StoreWithLock {
    pub fn new(db: Store) -> (r: Self)
        ensures
            r@ == db@,
    {
        StoreWithLock { store: db }
    }

    /// The store, for reading.
    pub fn read(&self) -> (db: &Store)
        ensures
            db@ == self@,
    {
        &self.store
    }

    /// The store, for writing. What is written through the reference is
    /// what the owner holds afterwards.
    pub fn write(&mut self) -> (db: &mut Store)
        ensures
            db@ == old(self)@,
            final(self)@ == final(db)@,
    {
        &mut self.store
    }
}

} // verus!
