use crate::ids::SerializedTxid;
use crate::table::lemma_take_push_set;
use crate::txid_set::{
    count_get, count_insert, count_keys, select, set_insert, set_items, set_len, union, TxidCounts,
    TxidSet,
};
use std::collections::{HashMap, HashSet};
use vstd::prelude::*;

verus! {

/// What happened to transactions during one update cycle: which entered
/// and left the mempool, which entered and left the best chain, and how
/// often each entered and left the chain.
#[derive(Debug)]
pub struct TransactionUpdate {
    mempool_added: TxidSet,
    mempool_removed: TxidSet,
    block_added: TxidSet,
    block_removed: TxidSet,
    block_removed_counts: TxidCounts,
    block_added_counts: TxidCounts,
}

/// The mathematical content of a [`TransactionUpdate`].
pub struct TransactionUpdateView {
    pub mempool_added: Set<SerializedTxid>,
    pub mempool_removed: Set<SerializedTxid>,
    pub block_added: Set<SerializedTxid>,
    pub block_removed: Set<SerializedTxid>,
    pub block_removed_counts: Map<SerializedTxid, u32>,
    pub block_added_counts: Map<SerializedTxid, u32>,
}

/// The transitions of one update cycle, sorted by what they mean.
#[derive(Debug)]
pub struct CategorizedTxs {
    /// Left the mempool and entered the chain.
    pub mined_from_mempool: TxidSet,
    /// Left the chain and entered the mempool.
    pub reorged_back_to_mempool: TxidSet,
    /// Entered the mempool without having left the chain.
    pub new_in_mempool_only: TxidSet,
    /// Entered the chain without having left the mempool.
    pub new_block_only: TxidSet,
    /// Left the chain and entered neither the chain nor the mempool.
    pub reorged_out_entirely: TxidSet,
    /// Left the mempool without entering the chain.
    pub mempool_rbf_or_evicted: TxidSet,
    /// Left the chain and entered it again.
    pub reorged_out_and_remined: TxidSet,
}

/// Transactions that were added and transactions that were removed.
pub struct TransactionChangeSet {
    pub removed: TxidSet,
    pub added: TxidSet,
}

/// The map that gives the count 1 to each element of the set.
pub open spec fn ones(s: Set<SerializedTxid>) -> Map<SerializedTxid, u32> {
    Map::new(|t: SerializedTxid| s.contains(t), |t: SerializedTxid| 1u32)
}

/// The count recorded for a transaction, 0 where none is recorded.
pub open spec fn count_of(counts: Map<SerializedTxid, u32>, txid: SerializedTxid) -> u32 {
    if counts.contains_key(txid) {
        counts[txid]
    } else {
        0
    }
}

impl TransactionUpdateView {
    /// Everything that entered the mempool or the chain.
    pub open spec fn in_added(self) -> Set<SerializedTxid> {
        self.mempool_added.union(self.block_added)
    }

    /// Everything that left the mempool or the chain.
    pub open spec fn in_removed(self) -> Set<SerializedTxid> {
        self.mempool_removed.union(self.block_removed)
    }

    /// The transactions that are new to the system: they entered the
    /// mempool or the chain and left neither.
    pub open spec fn newly_added(self) -> Set<SerializedTxid> {
        self.in_added().difference(self.in_removed())
    }

    /// The transactions that left the system: they left the mempool or the
    /// chain and entered neither.
    pub open spec fn fully_removed(self) -> Set<SerializedTxid> {
        self.in_removed().difference(self.in_added())
    }

    /// Whether a transaction entered the chain more often than it left it,
    /// and left it at least once.
    pub open spec fn remined(self, txid: SerializedTxid) -> bool {
        self.block_added_counts.contains_key(txid) && self.block_removed_counts.contains_key(txid)
            && self.block_removed_counts[txid] > 0 && self.block_added_counts[txid]
            > self.block_removed_counts[txid]
    }
}

impl View for TransactionUpdate {
    type V = TransactionUpdateView;

    closed spec fn view(&self) -> TransactionUpdateView {
        TransactionUpdateView {
            mempool_added: self.mempool_added@,
            mempool_removed: self.mempool_removed@,
            block_added: self.block_added@,
            block_removed: self.block_removed@,
            block_removed_counts: self.block_removed_counts@,
            block_added_counts: self.block_added_counts@,
        }
    }
}

/// A copy of a set.
pub fn copy_set(s: &TxidSet) -> (r: TxidSet)
    ensures
        r@ == s@,
{
    let empty: TxidSet = HashSet::default();
    let r = union(s, &empty);
    assert(s@.union(empty@) =~= s@);
    r
}

/// The map that counts each element of the set once.
fn count_once(s: &TxidSet) -> (r: TxidCounts)
    ensures
        r@ == ones(s@),
{
    let mut counts: TxidCounts = HashMap::default();
    let xs = set_items(s);
    let mut i: usize = 0;
    while i < xs.len()
        invariant
            i <= xs.len(),
            counts@ == ones(xs@.take(i as int).to_set()),
        decreases xs.len() - i,
    {
        proof {
            lemma_take_push_set(xs@, i as int);
            assert(ones(xs@.take(i as int).to_set()).insert(xs@[i as int], 1u32) =~= ones(
                xs@.take(i + 1).to_set(),
            ));
        }
        count_insert(&mut counts, xs[i], 1);
        i = i + 1;
    }
    proof {
        assert(xs@.take(0).to_set() =~= Set::<SerializedTxid>::empty()) by {
            lemma_take_push_set(xs@.push(SerializedTxid { hi: 0, lo: 0 }), 0);
            assert(xs@.push(SerializedTxid { hi: 0, lo: 0 }).take(0) =~= xs@.take(0));
        }
        assert(xs@.take(xs.len() as int) =~= xs@);
    }
    counts
}

impl Default for TransactionUpdate {
    fn default() -> (r: Self)
        ensures
            r@.in_added() == Set::<SerializedTxid>::empty(),
            r@.in_removed() == Set::<SerializedTxid>::empty(),
            r@.block_added_counts == Map::<SerializedTxid, u32>::empty(),
            r@.block_removed_counts == Map::<SerializedTxid, u32>::empty(),
    {
        let r = TransactionUpdate::empty();
        assert(r@.in_added() =~= Set::<SerializedTxid>::empty());
        assert(r@.in_removed() =~= Set::<SerializedTxid>::empty());
        r
    }
}

impl TransactionUpdate {
    pub fn new(mempool: TransactionChangeSet, block: TransactionChangeSet) -> (r: Self)
        ensures
            r@ == (TransactionUpdateView {
                mempool_added: mempool.added@,
                mempool_removed: mempool.removed@,
                block_added: block.added@,
                block_removed: block.removed@,
                block_removed_counts: ones(block.removed@),
                block_added_counts: ones(block.added@),
            }),
    {
        let block_added_counts = count_once(&block.added);
        let block_removed_counts = count_once(&block.removed);
        Self {
            mempool_added: mempool.added,
            mempool_removed: mempool.removed,
            block_added: block.added,
            block_removed: block.removed,
            block_added_counts,
            block_removed_counts,
        }
    }

    /// An update in which nothing happened.
    pub fn empty() -> (r: Self)
        ensures
            r@ == (TransactionUpdateView {
                mempool_added: Set::empty(),
                mempool_removed: Set::empty(),
                block_added: Set::empty(),
                block_removed: Set::empty(),
                block_removed_counts: Map::empty(),
                block_added_counts: Map::empty(),
            }),
    {
        Self {
            mempool_added: HashSet::default(),
            mempool_removed: HashSet::default(),
            block_added: HashSet::default(),
            block_removed: HashSet::default(),
            block_added_counts: HashMap::default(),
            block_removed_counts: HashMap::default(),
        }
    }

    pub fn is_empty(&self) -> (r: bool)
        ensures
            r == (self@.mempool_added.is_empty() && self@.mempool_removed.is_empty()
                && self@.block_added.is_empty() && self@.block_removed.is_empty()),
    {
        self.mempool_added.is_empty() && self.mempool_removed.is_empty()
            && self.block_added.is_empty() && self.block_removed.is_empty()
    }

    /// Whether so many transactions entered the chain that the events
    /// should be sent before more are gathered.
    pub fn enough_events_to_send(&self) -> (r: bool)
        ensures
            r == (self@.block_added.len() > 10_000),
    {
        set_len(&self.block_added) > 10_000
    }

    /// How often the transaction entered the chain in this cycle.
    pub fn block_added_count(&self, txid: &SerializedTxid) -> (n: u32)
        ensures
            n == count_of(self@.block_added_counts, *txid),
    {
        match count_get(&self.block_added_counts, txid) {
            Some(n) => n,
            None => 0,
        }
    }

    /// How often the transaction left the chain in this cycle.
    pub fn block_removed_count(&self, txid: &SerializedTxid) -> (n: u32)
        ensures
            n == count_of(self@.block_removed_counts, *txid),
    {
        match count_get(&self.block_removed_counts, txid) {
            Some(n) => n,
            None => 0,
        }
    }

    /// Records that a transaction entered the chain.
    pub fn add_block_tx(&mut self, txid: SerializedTxid)
        requires
            count_of(old(self)@.block_added_counts, txid) < u32::MAX,
        ensures
            final(self)@ == (TransactionUpdateView {
                block_added: old(self)@.block_added.insert(txid),
                block_added_counts: old(self)@.block_added_counts.insert(
                    txid,
                    (count_of(old(self)@.block_added_counts, txid) + 1) as u32,
                ),
                ..old(self)@
            }),
    {
        set_insert(&mut self.block_added, txid);
        let count = match count_get(&self.block_added_counts, &txid) {
            Some(n) => n,
            None => 0,
        };
        count_insert(&mut self.block_added_counts, txid, count + 1);
    }

    /// Records that a transaction left the chain.
    pub fn remove_block_tx(&mut self, txid: SerializedTxid)
        requires
            count_of(old(self)@.block_removed_counts, txid) < u32::MAX,
        ensures
            final(self)@ == (TransactionUpdateView {
                block_removed: old(self)@.block_removed.insert(txid),
                block_removed_counts: old(self)@.block_removed_counts.insert(
                    txid,
                    (count_of(old(self)@.block_removed_counts, txid) + 1) as u32,
                ),
                ..old(self)@
            }),
    {
        set_insert(&mut self.block_removed, txid);
        let count = match count_get(&self.block_removed_counts, &txid) {
            Some(n) => n,
            None => 0,
        };
        count_insert(&mut self.block_removed_counts, txid, count + 1);
    }

    /// Adds what entered and left the mempool.
    pub fn update_mempool(&mut self, mempool: TransactionChangeSet)
        ensures
            final(self)@ == (TransactionUpdateView {
                mempool_added: old(self)@.mempool_added.union(mempool.added@),
                mempool_removed: old(self)@.mempool_removed.union(mempool.removed@),
                ..old(self)@
            }),
    {
        self.mempool_added = union(&self.mempool_added, &mempool.added);
        self.mempool_removed = union(&self.mempool_removed, &mempool.removed);
    }

    /// Forgets everything.
    pub fn reset(&mut self)
        ensures
            final(self)@ == (TransactionUpdateView {
                mempool_added: Set::empty(),
                mempool_removed: Set::empty(),
                block_added: Set::empty(),
                block_removed: Set::empty(),
                block_removed_counts: Map::empty(),
                block_added_counts: Map::empty(),
            }),
    {
        self.mempool_added = HashSet::default();
        self.mempool_removed = HashSet::default();
        self.block_added = HashSet::default();
        self.block_removed = HashSet::default();
        self.block_added_counts = HashMap::default();
        self.block_removed_counts = HashMap::default();
    }

    /// Sorts the transitions of the cycle by what they mean.
    pub fn categorize(&self) -> (r: CategorizedTxs)
        ensures
            r.mined_from_mempool@ == self@.mempool_removed.intersect(self@.block_added),
            r.reorged_back_to_mempool@ == self@.block_removed.intersect(self@.mempool_added),
            r.new_in_mempool_only@ == self@.mempool_added.difference(self@.block_removed),
            r.new_block_only@ == self@.block_added.difference(self@.mempool_removed),
            r.reorged_out_entirely@ == self@.block_removed.difference(
                self@.mempool_added.union(self@.block_added),
            ),
            r.mempool_rbf_or_evicted@ == self@.mempool_removed.difference(self@.block_added),
            r.reorged_out_and_remined@ == self@.block_removed.intersect(self@.block_added),
    {
        let entered = union(&self.mempool_added, &self.block_added);
        CategorizedTxs {
            mined_from_mempool: select(&self.mempool_removed, &self.block_added, true),
            reorged_back_to_mempool: select(&self.block_removed, &self.mempool_added, true),
            new_in_mempool_only: select(&self.mempool_added, &self.block_removed, false),
            new_block_only: select(&self.block_added, &self.mempool_removed, false),
            reorged_out_entirely: select(&self.block_removed, &entered, false),
            mempool_rbf_or_evicted: select(&self.mempool_removed, &self.block_added, false),
            reorged_out_and_remined: select(&self.block_removed, &self.block_added, true),
        }
    }

    /// The transactions that are new to the system and those that left it.
    /// A transaction that moved between mempool and chain is in neither.
    pub fn categorize_to_change_set(&self) -> (r: TransactionChangeSet)
        ensures
            r.added@ == self@.newly_added(),
            r.removed@ == self@.fully_removed(),
    {
        let in_added = union(&self.mempool_added, &self.block_added);
        let in_removed = union(&self.mempool_removed, &self.block_removed);
        let newly_added = select(&in_added, &in_removed, false);
        let fully_removed = select(&in_removed, &in_added, false);
        TransactionChangeSet { removed: fully_removed, added: newly_added }
    }

    /// What entered and left the mempool.
    pub fn categorize_to_mempool(&self) -> (r: TransactionChangeSet)
        ensures
            r.added@ == self@.mempool_added,
            r.removed@ == self@.mempool_removed,
    {
        TransactionChangeSet {
            added: copy_set(&self.mempool_added),
            removed: copy_set(&self.mempool_removed),
        }
    }

    /// The transactions that left the chain and entered it again more
    /// often than they left it.
    pub fn block_added_after_mined_and_reorg(&self) -> (r: TxidSet)
        ensures
            forall|t: SerializedTxid| r@.contains(t) <==> self@.remined(t),
    {
        let mut out: TxidSet = HashSet::default();
        let keys = count_keys(&self.block_added_counts);
        let mut i: usize = 0;
        while i < keys.len()
            invariant
                i <= keys.len(),
                keys@.to_set() == self@.block_added_counts.dom(),
                forall|t: SerializedTxid|
                    out@.contains(t) <==> (keys@.take(i as int).to_set().contains(t)
                        && self@.remined(t)),
            decreases keys.len() - i,
        {
            proof {
                lemma_take_push_set(keys@, i as int);
                assert(keys@.to_set().contains(keys@[i as int]));
            }
            let txid = keys[i];
            let added = count_get(&self.block_added_counts, &txid);
            match count_get(&self.block_removed_counts, &txid) {
                Some(removed) => {
                    if removed > 0 && added.unwrap() > removed {
                        set_insert(&mut out, txid);
                    }
                },
                None => {},
            }
            i = i + 1;
        }
        proof {
            assert(keys@.take(keys.len() as int) =~= keys@);
        }
        out
    }
}

/// A transaction that entered the one domain and left the other, or
/// entered and left one domain, is neither new to the system nor gone
/// from it.
pub proof fn lemma_moved_transaction_is_in_neither(u: TransactionUpdateView, txid: SerializedTxid)
    requires
        u.mempool_added.contains(txid) || u.block_added.contains(txid),
        u.mempool_removed.contains(txid) || u.block_removed.contains(txid),
    ensures
        !u.newly_added().contains(txid),
        !u.fully_removed().contains(txid),
{
}

/// No transaction is both new to the system and gone from it.
pub proof fn lemma_change_sets_disjoint(u: TransactionUpdateView)
    ensures
        u.newly_added().disjoint(u.fully_removed()),
{
}

} // verus!
