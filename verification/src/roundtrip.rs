use crate::artifact::ArtifactView;
use crate::cache::CacheView;
use crate::ids::{OutPoint, SerializedTxid};
use crate::model::{
    InscriptionId, RuneEntry, SpentInputView, TransactionStateChangeView, TxOutEntryView,
};
use crate::rune_amount::RuneAmount;
use crate::rune_id::RuneId;
use crate::rollback::drop_txid;
use crate::store::{list_at, StoreView};
use vstd::prelude::*;

verus! {

/// The runes as they are once the cache is committed: those of the store,
/// with the staged ones in their place.
pub open spec fn staged_runes(cache: CacheView, db: StoreView) -> Map<RuneId, RuneEntry> {
    db.runes.union_prefer_right(cache.update.runes)
}

/// Whether `b` is `a` with other staged runes and other events.
pub open spec fn only_runes(a: CacheView, b: CacheView) -> bool {
    b == (CacheView {
        update: crate::store::BatchUpdateView { runes: b.update.runes, ..a.update },
        events: b.events,
        ..a
    })
}

/// Burning one more amount after a list of amounts is burning the list
/// with the amount at its end.
pub proof fn lemma_burn_all_snoc(
    cache: CacheView,
    db: StoreView,
    height: u32,
    txid: SerializedTxid,
    burned: Seq<RuneAmount>,
    last: RuneAmount,
    mempool: bool,
)
    ensures
        cache.burn_all(db, height, txid, burned.push(last), mempool) == (if cache.burn_all(
            db,
            height,
            txid,
            burned,
            mempool,
        ).1.is_some() {
            cache.burn_all(db, height, txid, burned, mempool)
        } else {
            cache.burn_all(db, height, txid, burned, mempool).0.burn(
                db,
                height,
                txid,
                last,
                mempool,
            )
        }),
    decreases burned.len(),
{
    let all = burned.push(last);
    if burned.len() == 0 {
        assert(all.skip(1) =~= Seq::<RuneAmount>::empty());
        assert(all[0] == last);
        let (next, err) = cache.burn(db, height, txid, last, mempool);
        assert(next.burn_all(db, height, txid, all.skip(1), mempool) == (next, None::<
            crate::transaction_updater::TransactionUpdaterError,
        >));
    } else {
        assert(all.skip(1) =~= burned.skip(1).push(last));
        assert(all[0] == burned[0]);
        let (next, err) = cache.burn(db, height, txid, burned[0], mempool);
        if err.is_none() {
            lemma_burn_all_snoc(next, db, height, txid, burned.skip(1), last, mempool);
        }
    }
}

/// Burning changes nothing of a cache but the staged runes and the
/// events, and stages no rune that the cache does not see already.
pub proof fn lemma_burn_all_only_runes(
    cache: CacheView,
    db: StoreView,
    height: u32,
    txid: SerializedTxid,
    burned: Seq<RuneAmount>,
    mempool: bool,
)
    ensures
        only_runes(cache, cache.burn_all(db, height, txid, burned, mempool).0),
        staged_runes(cache.burn_all(db, height, txid, burned, mempool).0, db).dom()
            == staged_runes(cache, db).dom(),
    decreases burned.len(),
{
    if burned.len() > 0 {
        let (next, err) = cache.burn(db, height, txid, burned[0], mempool);
        assert(staged_runes(next, db).dom() =~= staged_runes(cache, db).dom());
        if err.is_none() {
            lemma_burn_all_only_runes(next, db, height, txid, burned.skip(1), mempool);
        }
    }
}

/// Taking the burned amounts off the counters again undoes the burning,
/// and no counter falls below zero.
pub proof fn lemma_unburn_all_undoes(
    cache: CacheView,
    db: StoreView,
    height: u32,
    txid: SerializedTxid,
    burned: Seq<RuneAmount>,
    mempool: bool,
    store: StoreView,
)
    requires
        cache.burn_all(db, height, txid, burned, mempool).1.is_none(),
        store.runes == staged_runes(cache.burn_all(db, height, txid, burned, mempool).0, db),
    ensures
        store.unburn_all(burned, mempool).runes == staged_runes(cache, db),
        store.unburn_all_fits(burned, mempool),
    decreases burned.len(),
{
    if burned.len() > 0 {
        let front = burned.drop_last();
        let last = burned.last();
        assert(front.push(last) =~= burned);
        lemma_burn_all_snoc(cache, db, height, txid, front, last, mempool);
        let (before, e) = cache.burn_all(db, height, txid, front, mempool);
        assert(e.is_none());
        let (after, e2) = before.burn(db, height, txid, last, mempool);
        assert(e2.is_none());
        let entry = before.rune(db, last.rune_id).unwrap();
        let undone = store.unburn(last, mempool);
        assert(staged_runes(before, db).contains_key(last.rune_id));
        assert(staged_runes(before, db)[last.rune_id] == entry);
        assert(undone.runes =~= staged_runes(before, db));
        assert(store.unburn_fits(last, mempool));
        lemma_unburn_all_undoes(cache, db, height, txid, front, mempool, undone);
    }
}

/// Taking burned amounts off the counters changes nothing of the store
/// but the runes.
pub proof fn lemma_unburn_all_only_runes(store: StoreView, burned: Seq<RuneAmount>, mempool: bool)
    ensures
        store.unburn_all(burned, mempool) == (StoreView {
            runes: store.unburn_all(burned, mempool).runes,
            ..store
        }),
    decreases burned.len(),
{
    if burned.len() > 0 {
        lemma_unburn_all_only_runes(
            store.unburn(burned.last(), mempool),
            burned.drop_last(),
            mempool,
        );
    }
}

/// Taking back what a state change did to the counters and the count of
/// runes restores them exactly: the counters of what it burned and minted,
/// be they the pending ones of the mempool or those of the chain, and the
/// entry, the name, the number and the count for the rune it etched.
pub proof fn lemma_counters_return(
    cache: CacheView,
    db: StoreView,
    block_time: u32,
    height: u32,
    txid: SerializedTxid,
    artifact: Option<ArtifactView>,
    change: TransactionStateChangeView,
    icon: Option<InscriptionId>,
    mempool: bool,
    store: StoreView,
)
    requires
        cache.save(db, block_time, height, txid, artifact, change, icon, mempool).1.is_none(),
        store.runes == staged_runes(
            cache.save(db, block_time, height, txid, artifact, change, icon, mempool).0,
            db,
        ),
        store.rune_count == cache.save(
            db,
            block_time,
            height,
            txid,
            artifact,
            change,
            icon,
            mempool,
        ).0.update.rune_count,
        store.rune_ids == db.rune_ids.union_prefer_right(
            cache.save(db, block_time, height, txid, artifact, change, icon, mempool).0.update.rune_ids,
        ),
        store.rune_numbers == db.rune_numbers.union_prefer_right(
            cache.save(
                db,
                block_time,
                height,
                txid,
                artifact,
                change,
                icon,
                mempool,
            ).0.update.rune_numbers,
        ),
        change.etched.is_some() ==> {
            &&& !staged_runes(cache, db).contains_key(change.etched.unwrap().0)
            &&& !db.rune_ids.union_prefer_right(cache.update.rune_ids).contains_key(
                change.etched.unwrap().1,
            )
            &&& !db.rune_numbers.union_prefer_right(cache.update.rune_numbers).contains_key(
                (cache.update.rune_count + 1) as u64,
            )
        },
    ensures
        ({
            let unetched = match change.etched {
                Some((id, rune)) => store.unetch(id, rune),
                None => store,
            };
            let unminted = match change.minted {
                Some(m) => unetched.unmint(m.rune_id, mempool),
                None => unetched,
            };
            let undone = unminted.unburn_all(change.burned, mempool);
            &&& change.etched.is_some() ==> store.rune_count > 0
            &&& change.minted.is_some() ==> unetched.unmint_fits(
                change.minted.unwrap().rune_id,
                mempool,
            )
            &&& unminted.unburn_all_fits(change.burned, mempool)
            &&& undone.runes == staged_runes(cache, db)
            &&& undone.rune_count == cache.update.rune_count
            &&& undone.rune_ids == db.rune_ids.union_prefer_right(cache.update.rune_ids)
            &&& undone.rune_numbers == db.rune_numbers.union_prefer_right(
                cache.update.rune_numbers,
            )
        }),
{
    reveal(CacheView::save);
    lemma_burn_all_only_runes(cache, db, height, txid, change.burned, mempool);
    let (burned, e1) = cache.burn_all(db, height, txid, change.burned, mempool);
    let (minted, e2) = match change.minted {
        Some(m) => burned.mint(db, height, txid, m, mempool),
        None => (burned, None),
    };
    let (etched, e3) = match change.etched {
        Some((id, rune)) => minted.etch(block_time, height, txid, id, rune, artifact, icon, mempool),
        None => (minted, None),
    };
    crate::laws::lemma_settle_keeps_runes(etched, db, height, txid, change, mempool);
    lemma_settle_keeps_names(etched, db, height, txid, change, mempool);
    let saved = etched.settle(db, height, txid, change, mempool);
    assert(saved.update.runes == etched.update.runes);
    assert(staged_runes(minted, db).dom() =~= staged_runes(cache, db).dom());
    let unetched = match change.etched {
        Some((id, rune)) => store.unetch(id, rune),
        None => store,
    };
    assert(unetched.runes =~= staged_runes(minted, db));
    assert(unetched.rune_ids =~= db.rune_ids.union_prefer_right(cache.update.rune_ids));
    assert(unetched.rune_numbers =~= db.rune_numbers.union_prefer_right(
        cache.update.rune_numbers,
    )) by {
        if change.etched.is_some() {
            let id = change.etched.unwrap().0;
            assert(store.runes.contains_key(id));
            assert(store.runes[id].number == (cache.update.rune_count + 1) as u64);
        }
    }
    let unminted = match change.minted {
        Some(m) => unetched.unmint(m.rune_id, mempool),
        None => unetched,
    };
    assert(unminted.runes =~= staged_runes(burned, db)) by {
        if change.minted.is_some() {
            let m = change.minted.unwrap();
            assert(staged_runes(burned, db).contains_key(m.rune_id));
        }
    }
    lemma_unburn_all_undoes(cache, db, height, txid, change.burned, mempool, unminted);
    lemma_unburn_all_only_runes(unminted, change.burned, mempool);
}

/// Whether `b` is `a` with other staged outputs, other state changes,
/// other lists of transactions and other events.
pub open spec fn only_settled(a: CacheView, b: CacheView) -> bool {
    b == (CacheView {
        update: crate::store::BatchUpdateView {
            txouts: b.update.txouts,
            tx_state_changes: b.update.tx_state_changes,
            rune_transactions: b.update.rune_transactions,
            ..a.update
        },
        events: b.events,
        ..a
    })
}

pub proof fn lemma_spend_all_only_settled(cache: CacheView, db: StoreView, inputs: Seq<SpentInputView>)
    ensures
        only_settled(cache, cache.spend_all(db, inputs)),
        cache.spend_all(db, inputs).update.tx_state_changes == cache.update.tx_state_changes,
        cache.spend_all(db, inputs).update.rune_transactions == cache.update.rune_transactions,
    decreases inputs.len(),
{
    if inputs.len() > 0 {
        lemma_spend_all_only_settled(cache.spend(db, inputs[0].outpoint), db, inputs.skip(1));
    }
}

pub proof fn lemma_produce_all_only_settled(
    cache: CacheView,
    height: u32,
    txid: SerializedTxid,
    outputs: Seq<TxOutEntryView>,
    from: nat,
    mempool: bool,
)
    ensures
        only_settled(cache, cache.produce_all(height, txid, outputs, from, mempool)),
        cache.produce_all(height, txid, outputs, from, mempool).update.tx_state_changes
            == cache.update.tx_state_changes,
        cache.produce_all(height, txid, outputs, from, mempool).update.rune_transactions
            == cache.update.rune_transactions,
    decreases outputs.len() - from,
{
    if from < outputs.len() {
        lemma_produce_all_only_settled(
            cache.produce(height, txid, from as u32, outputs[from as int], mempool),
            height,
            txid,
            outputs,
            from + 1,
            mempool,
        );
    }
}

pub proof fn lemma_touch_all_only_settled(cache: CacheView, ids: Seq<RuneId>, txid: SerializedTxid)
    ensures
        only_settled(cache, cache.touch_all(ids, txid)),
        cache.touch_all(ids, txid).update.tx_state_changes == cache.update.tx_state_changes,
        cache.touch_all(ids, txid).update.txouts == cache.update.txouts,
    decreases ids.len(),
{
    if ids.len() > 0 {
        lemma_touch_all_only_settled(cache.touch(ids[0], txid), ids.skip(1), txid);
    }
}

/// Settling a state change leaves the staged names, numbers and count of
/// runes alone.
pub proof fn lemma_settle_keeps_names(
    cache: CacheView,
    db: StoreView,
    height: u32,
    txid: SerializedTxid,
    change: TransactionStateChangeView,
    mempool: bool,
)
    ensures
        only_settled(cache, cache.settle(db, height, txid, change, mempool)),
{
    lemma_spend_all_only_settled(cache, db, change.inputs);
    let spent = cache.spend_all(db, change.inputs);
    lemma_produce_all_only_settled(spent, height, txid, change.outputs, 0, mempool);
    let produced = spent.produce_all(height, txid, change.outputs, 0, mempool);
    let recorded = CacheView {
        update: crate::store::BatchUpdateView {
            tx_state_changes: produced.update.tx_state_changes.insert(txid, change),
            ..produced.update
        },
        ..produced
    };
    lemma_touch_all_only_settled(recorded, change.rune_ids(), txid);
}

/// Dropping a transaction from a list with one more entry.
pub proof fn lemma_drop_push(list: Seq<SerializedTxid>, x: SerializedTxid, txid: SerializedTxid)
    ensures
        drop_txid(list.push(x), txid) == (if x != txid {
            drop_txid(list, txid).push(x)
        } else {
            drop_txid(list, txid)
        }),
{
    reveal(Seq::filter);
    assert(list.push(x).drop_last() =~= list);
}

/// A list that does not hold the transaction is left as it is.
pub proof fn lemma_drop_absent(list: Seq<SerializedTxid>, txid: SerializedTxid)
    requires
        !list.contains(txid),
    ensures
        drop_txid(list, txid) == list,
    decreases list.len(),
{
    reveal(Seq::filter);
    if list.len() > 0 {
        let front = list.drop_last();
        assert(front.push(list.last()) =~= list);
        assert(!front.contains(txid)) by {
            if front.contains(txid) {
                let i = choose|i: int| 0 <= i < front.len() && front[i] == txid;
                assert(list[i] == txid);
            }
        }
        assert(list[list.len() - 1] != txid);
        lemma_drop_absent(front, txid);
        lemma_drop_push(front, list.last(), txid);
    } else {
        assert(drop_txid(list, txid) =~= list);
    }
}

/// Dropping a transaction from two lists in a row is dropping it from
/// each.
pub proof fn lemma_drop_add(a: Seq<SerializedTxid>, b: Seq<SerializedTxid>, txid: SerializedTxid)
    ensures
        drop_txid(a + b, txid) == drop_txid(a, txid) + drop_txid(b, txid),
    decreases b.len(),
{
    if b.len() == 0 {
        reveal(Seq::filter);
        assert(a + b =~= a);
        assert(drop_txid(b, txid) =~= Seq::<SerializedTxid>::empty());
        assert(drop_txid(a, txid) + drop_txid(b, txid) =~= drop_txid(a, txid));
    } else {
        let front = b.drop_last();
        assert(front.push(b.last()) =~= b);
        assert((a + front).push(b.last()) =~= a + b);
        lemma_drop_add(a, front, txid);
        lemma_drop_push(a + front, b.last(), txid);
        lemma_drop_push(front, b.last(), txid);
        if b.last() != txid {
            assert((drop_txid(a, txid) + drop_txid(front, txid)).push(b.last()) =~= drop_txid(
                a,
                txid,
            ) + drop_txid(front, txid).push(b.last()));
        }
    }
}

/// Dropping a transaction twice is dropping it once.
pub proof fn lemma_drop_twice(list: Seq<SerializedTxid>, txid: SerializedTxid)
    ensures
        drop_txid(drop_txid(list, txid), txid) == drop_txid(list, txid),
    decreases list.len(),
{
    if list.len() == 0 {
        reveal(Seq::filter);
        assert(drop_txid(list, txid) =~= Seq::<SerializedTxid>::empty());
    } else {
        let front = list.drop_last();
        assert(front.push(list.last()) =~= list);
        lemma_drop_twice(front, txid);
        lemma_drop_push(front, list.last(), txid);
        if list.last() != txid {
            lemma_drop_push(drop_txid(front, txid), list.last(), txid);
        }
    }
}

/// Noting a transaction with runes leaves the lists as they are apart
/// from that transaction, and gives each of the runes a list that is not
/// empty.
pub proof fn lemma_touch_all_lists(cache: CacheView, ids: Seq<RuneId>, txid: SerializedTxid)
    ensures
        forall|id: RuneId|
            drop_txid(
                #[trigger] list_at(cache.touch_all(ids, txid).update.rune_transactions, id),
                txid,
            ) == drop_txid(list_at(cache.update.rune_transactions, id), txid),
        forall|id: RuneId| #[trigger]
            cache.touch_all(ids, txid).update.rune_transactions.contains_key(id) <==> (
            cache.update.rune_transactions.contains_key(id) || ids.contains(id)),
    decreases ids.len(),
{
    if ids.len() > 0 {
        let next = cache.touch(ids[0], txid);
        lemma_touch_all_lists(next, ids.skip(1), txid);
        let done = cache.touch_all(ids, txid).update.rune_transactions;
        assert forall|id: RuneId|
            drop_txid(#[trigger] list_at(done, id), txid) == drop_txid(
                list_at(cache.update.rune_transactions, id),
                txid,
            ) by {
            if id == ids[0] {
                lemma_drop_push(list_at(cache.update.rune_transactions, id), txid, txid);
            }
            assert(drop_txid(list_at(next.update.rune_transactions, id), txid) == drop_txid(
                list_at(cache.update.rune_transactions, id),
                txid,
            ));
        }
        assert forall|id: RuneId| #[trigger]
            done.contains_key(id) <==> (cache.update.rune_transactions.contains_key(id)
                || ids.contains(id)) by {
            if ids.skip(1).contains(id) {
                let i = choose|i: int| 0 <= i < ids.skip(1).len() && ids.skip(1)[i] == id;
                assert(ids[i + 1] == id);
            }
            if ids.contains(id) && id != ids[0] {
                let i = choose|i: int| 0 <= i < ids.len() && ids[i] == id;
                assert(ids.skip(1)[i - 1] == id);
            }
            assert(ids[0] == ids[0] && ids.contains(ids[0]));
            assert(next.update.rune_transactions.contains_key(id) <==> (
            cache.update.rune_transactions.contains_key(id) || id == ids[0]));
        }
    }
}

/// The list to store after a transaction was dropped: none if nothing is
/// left.
pub open spec fn kept_list(list: Seq<SerializedTxid>) -> Option<Seq<SerializedTxid>> {
    if list.len() == 0 {
        None
    } else {
        Some(list)
    }
}

/// Taking a transaction off the lists of runes drops it from the list of
/// each of these runes, leaves the other lists alone, and changes nothing
/// else of the store.
pub proof fn lemma_untouch_all_lists(store: StoreView, ids: Seq<RuneId>, txid: SerializedTxid)
    ensures
        store.untouch_all(ids, txid) == (StoreView {
            rune_transactions: store.untouch_all(ids, txid).rune_transactions,
            ..store
        }),
        forall|id: RuneId| #[trigger]
            store.untouch_all(ids, txid).rune_transactions.get(id) == (if ids.contains(id) {
                kept_list(drop_txid(list_at(store.rune_transactions, id), txid))
            } else {
                store.rune_transactions.get(id)
            }),
    decreases ids.len(),
{
    if ids.len() > 0 {
        let last = ids.last();
        let next = store.untouch(last, txid);
        lemma_untouch_all_lists(next, ids.drop_last(), txid);
        let done = store.untouch_all(ids, txid);
        assert forall|id: RuneId| #[trigger]
            done.rune_transactions.get(id) == (if ids.contains(id) {
                kept_list(drop_txid(list_at(store.rune_transactions, id), txid))
            } else {
                store.rune_transactions.get(id)
            }) by {
            let front = ids.drop_last();
            if front.contains(id) {
                let i = choose|i: int| 0 <= i < front.len() && front[i] == id;
                assert(ids[i] == id);
            }
            if ids.contains(id) && id != last {
                let i = choose|i: int| 0 <= i < ids.len() && ids[i] == id;
                assert(front[i] == id);
            }
            assert(ids[ids.len() - 1] == last);
            if id == last {
                lemma_drop_twice(list_at(store.rune_transactions, id), txid);
                let once = drop_txid(list_at(store.rune_transactions, id), txid);
                if once.len() == 0 {
                    reveal(Seq::filter);
                    assert(list_at(next.rune_transactions, id) =~= Seq::<SerializedTxid>::empty());
                    assert(drop_txid(Seq::<SerializedTxid>::empty(), txid) =~= Seq::<
                        SerializedTxid,
                    >::empty());
                }
            }
        }
    }
}

/// The outputs of the side given.
pub open spec fn side_of(store: StoreView, mempool: bool) -> Map<OutPoint, TxOutEntryView> {
    if mempool {
        store.mempool_txouts
    } else {
        store.txouts
    }
}

/// The outputs of the side given as they are once the cache is committed.
pub open spec fn staged_outputs(cache: CacheView, db: StoreView, mempool: bool) -> Map<
    OutPoint,
    TxOutEntryView,
> {
    side_of(db, mempool).union_prefer_right(cache.update.txouts)
}

/// Whether `b` is `a` with other outputs on the side given.
pub open spec fn only_side(a: StoreView, b: StoreView, mempool: bool) -> bool {
    b == (if mempool {
        StoreView { mempool_txouts: b.mempool_txouts, ..a }
    } else {
        StoreView { txouts: b.txouts, ..a }
    })
}

impl CacheView {
    /// The cache after the first `n` outputs were staged, in order.
    pub open spec fn produce_upto(
        self,
        height: u32,
        txid: SerializedTxid,
        outputs: Seq<TxOutEntryView>,
        n: nat,
        mempool: bool,
    ) -> CacheView
        decreases n,
    {
        if n == 0 {
            self
        } else {
            self.produce_upto(height, txid, outputs, (n - 1) as nat, mempool).produce(
                height,
                txid,
                (n - 1) as u32,
                outputs[n - 1],
                mempool,
            )
        }
    }

    /// The cache after the first `n` inputs were marked as spent, in order.
    pub open spec fn spend_upto(self, db: StoreView, inputs: Seq<SpentInputView>, n: nat) -> CacheView
        decreases n,
    {
        if n == 0 {
            self
        } else {
            self.spend_upto(db, inputs, (n - 1) as nat).spend(db, inputs[n - 1].outpoint)
        }
    }
}

pub proof fn lemma_produce_all_is_upto(
    cache: CacheView,
    height: u32,
    txid: SerializedTxid,
    outputs: Seq<TxOutEntryView>,
    k: nat,
    mempool: bool,
)
    requires
        k <= outputs.len(),
    ensures
        cache.produce_upto(height, txid, outputs, k, mempool).produce_all(
            height,
            txid,
            outputs,
            k,
            mempool,
        ) == cache.produce_all(height, txid, outputs, 0, mempool),
    decreases k,
{
    if k > 0 {
        lemma_produce_all_is_upto(cache, height, txid, outputs, (k - 1) as nat, mempool);
    }
}

pub proof fn lemma_spend_all_is_upto(
    cache: CacheView,
    db: StoreView,
    inputs: Seq<SpentInputView>,
    k: nat,
)
    requires
        k <= inputs.len(),
    ensures
        cache.spend_upto(db, inputs, k).spend_all(db, inputs.skip(k as int)) == cache.spend_all(
            db,
            inputs,
        ),
    decreases k,
{
    if k > 0 {
        lemma_spend_all_is_upto(cache, db, inputs, (k - 1) as nat);
        let before = cache.spend_upto(db, inputs, (k - 1) as nat);
        assert(inputs.skip(k - 1)[0] == inputs[k - 1]);
        assert(inputs.skip(k - 1).skip(1) =~= inputs.skip(k as int));
    } else {
        assert(inputs.skip(0) =~= inputs);
    }
}

/// Staging outputs of a transaction stages nothing but outputs of that
/// transaction with the indices that were staged.
pub proof fn lemma_produce_upto_keys(
    cache: CacheView,
    db: StoreView,
    height: u32,
    txid: SerializedTxid,
    outputs: Seq<TxOutEntryView>,
    n: nat,
    mempool: bool,
)
    requires
        n <= u32::MAX,
    ensures
        forall|o: OutPoint| #[trigger]
            staged_outputs(
                cache.produce_upto(height, txid, outputs, n, mempool),
                db,
                mempool,
            ).contains_key(o) ==> staged_outputs(cache, db, mempool).contains_key(o) || (o.txid
                == txid && o.vout < n),
    decreases n,
{
    if n > 0 {
        lemma_produce_upto_keys(cache, db, height, txid, outputs, (n - 1) as nat, mempool);
        let before = cache.produce_upto(height, txid, outputs, (n - 1) as nat, mempool);
        let now = cache.produce_upto(height, txid, outputs, n, mempool);
        let key = OutPoint { txid, vout: (n - 1) as u32 };
        assert forall|o: OutPoint| #[trigger]
            staged_outputs(now, db, mempool).contains_key(o) implies staged_outputs(
            cache,
            db,
            mempool,
        ).contains_key(o) || (o.txid == txid && o.vout < n) by {
            if o != key {
                assert(staged_outputs(before, db, mempool).contains_key(o));
            }
        }
    }
}

/// Deleting the outputs that a transaction produced undoes staging them,
/// provided that none of them existed before.
pub proof fn lemma_unproduce_all_undoes(
    cache: CacheView,
    db: StoreView,
    height: u32,
    txid: SerializedTxid,
    outputs: Seq<TxOutEntryView>,
    n: nat,
    mempool: bool,
    store: StoreView,
)
    requires
        n <= outputs.len(),
        n <= u32::MAX,
        side_of(store, mempool) == staged_outputs(
            cache.produce_upto(height, txid, outputs, n, mempool),
            db,
            mempool,
        ),
        forall|v: int|
            0 <= v < n && outputs[v].runes.len() > 0 ==> !#[trigger] staged_outputs(
                cache,
                db,
                mempool,
            ).contains_key(OutPoint { txid, vout: v as u32 }),
    ensures
        side_of(store.unproduce_all(txid, outputs, n, mempool), mempool) == staged_outputs(
            cache,
            db,
            mempool,
        ),
        only_side(store, store.unproduce_all(txid, outputs, n, mempool), mempool),
    decreases n,
{
    if n > 0 {
        let before = cache.produce_upto(height, txid, outputs, (n - 1) as nat, mempool);
        let key = OutPoint { txid, vout: (n - 1) as u32 };
        let undone = store.unproduce(txid, (n - 1) as u32, outputs[n - 1], mempool);
        lemma_produce_upto_keys(cache, db, height, txid, outputs, (n - 1) as nat, mempool);
        if outputs[n - 1].runes.len() > 0 {
            assert(!staged_outputs(cache, db, mempool).contains_key(key));
            assert(!staged_outputs(before, db, mempool).contains_key(key));
        }
        assert(side_of(undone, mempool) =~= staged_outputs(before, db, mempool));
        lemma_unproduce_all_undoes(
            cache,
            db,
            height,
            txid,
            outputs,
            (n - 1) as nat,
            mempool,
            undone,
        );
    }
}

/// Whether the spending of an output can be taken back exactly: an output
/// that is known is unspent; for the chain it is an output of the chain,
/// for the mempool it is not held on both sides.
pub open spec fn restorable(cache: CacheView, db: StoreView, outpoint: OutPoint, mempool: bool) -> bool {
    match cache.tx_out(db, outpoint) {
        None => true,
        Some(entry) => !entry.spent && if mempool {
            !(db.txouts.contains_key(outpoint) && staged_outputs(cache, db, true).contains_key(
                outpoint,
            ))
        } else {
            staged_outputs(cache, db, false).contains_key(outpoint)
        },
    }
}

/// Marking some inputs as spent changes nothing about any other output.
pub proof fn lemma_spend_upto_other(
    cache: CacheView,
    db: StoreView,
    inputs: Seq<SpentInputView>,
    n: nat,
    outpoint: OutPoint,
    mempool: bool,
)
    requires
        n <= inputs.len(),
        forall|i: int| 0 <= i < n ==> (#[trigger] inputs[i]).outpoint != outpoint,
    ensures
        cache.spend_upto(db, inputs, n).tx_out(db, outpoint) == cache.tx_out(db, outpoint),
        staged_outputs(cache.spend_upto(db, inputs, n), db, mempool).contains_key(outpoint)
            == staged_outputs(cache, db, mempool).contains_key(outpoint),
        staged_outputs(cache, db, mempool).contains_key(outpoint) ==> staged_outputs(
            cache.spend_upto(db, inputs, n),
            db,
            mempool,
        )[outpoint] == staged_outputs(cache, db, mempool)[outpoint],
        restorable(cache, db, outpoint, mempool) ==> restorable(
            cache.spend_upto(db, inputs, n),
            db,
            outpoint,
            mempool,
        ),
    decreases n,
{
    if n > 0 {
        lemma_spend_upto_other(cache, db, inputs, (n - 1) as nat, outpoint, mempool);
        assert(inputs[n - 1].outpoint != outpoint);
    }
}

/// Unspending the inputs of a transaction undoes marking them as spent,
/// provided that they are distinct and that the spending of each can be
/// taken back exactly.
pub proof fn lemma_unspend_all_undoes(
    cache: CacheView,
    db: StoreView,
    inputs: Seq<SpentInputView>,
    n: nat,
    mempool: bool,
    store: StoreView,
)
    requires
        n <= inputs.len(),
        side_of(store, mempool) == staged_outputs(cache.spend_upto(db, inputs, n), db, mempool),
        mempool ==> store.txouts == db.txouts,
        forall|i: int, j: int|
            0 <= i < j < n ==> (#[trigger] inputs[i]).outpoint != (#[trigger] inputs[j]).outpoint,
        forall|i: int| 0 <= i < n ==> restorable(cache, db, (#[trigger] inputs[i]).outpoint, mempool),
    ensures
        side_of(store.unspend_all(inputs.take(n as int), mempool), mempool) == staged_outputs(
            cache,
            db,
            mempool,
        ),
        only_side(store, store.unspend_all(inputs.take(n as int), mempool), mempool),
    decreases n,
{
    if n > 0 {
        let before = cache.spend_upto(db, inputs, (n - 1) as nat);
        let o = inputs[n - 1].outpoint;
        let after = before.spend(db, o);
        assert(inputs.take(n as int).last() == inputs[n - 1]);
        assert(inputs.take(n as int).drop_last() =~= inputs.take(n - 1));
        let undone = store.unspend(o, mempool);
        lemma_spend_upto_other(cache, db, inputs, (n - 1) as nat, o, mempool);
        assert(restorable(before, db, o, mempool));
        assert(side_of(undone, mempool) =~= staged_outputs(before, db, mempool));
        lemma_unspend_all_undoes(cache, db, inputs, (n - 1) as nat, mempool, undone);
    } else {
        assert(inputs.take(0) =~= Seq::<SpentInputView>::empty());
    }
}

/// Marking inputs as spent stages nothing but these inputs.
pub proof fn lemma_spend_upto_keys(
    cache: CacheView,
    db: StoreView,
    inputs: Seq<SpentInputView>,
    n: nat,
    mempool: bool,
)
    requires
        n <= inputs.len(),
    ensures
        forall|o: OutPoint| #[trigger]
            staged_outputs(cache.spend_upto(db, inputs, n), db, mempool).contains_key(o)
                ==> staged_outputs(cache, db, mempool).contains_key(o) || exists|i: int|
                0 <= i < n && (#[trigger] inputs[i]).outpoint == o,
    decreases n,
{
    if n > 0 {
        lemma_spend_upto_keys(cache, db, inputs, (n - 1) as nat, mempool);
        let before = cache.spend_upto(db, inputs, (n - 1) as nat);
        let now = cache.spend_upto(db, inputs, n);
        let key = inputs[n - 1].outpoint;
        assert forall|o: OutPoint| #[trigger]
            staged_outputs(now, db, mempool).contains_key(o) implies staged_outputs(
            cache,
            db,
            mempool,
        ).contains_key(o) || exists|i: int| 0 <= i < n && (#[trigger] inputs[i]).outpoint == o by {
            if o != key {
                assert(staged_outputs(before, db, mempool).contains_key(o));
                if !staged_outputs(cache, db, mempool).contains_key(o) {
                    let i = choose|i: int| 0 <= i < n - 1 && (#[trigger] inputs[i]).outpoint == o;
                    assert(0 <= i < n && inputs[i].outpoint == o);
                }
            } else {
                assert(inputs[n - 1].outpoint == o);
            }
        }
    }
}

/// The state changes of the side given.
pub open spec fn changes_of(store: StoreView, mempool: bool) -> Map<
    SerializedTxid,
    TransactionStateChangeView,
> {
    if mempool {
        store.mempool_tx_state_changes
    } else {
        store.tx_state_changes
    }
}

/// The parts of what applying a state change to a window stages.
pub struct SaveShape {
    pub etched: CacheView,
    pub spent: CacheView,
    pub produced: CacheView,
    pub recorded: CacheView,
    pub saved: CacheView,
}

} // verus!
