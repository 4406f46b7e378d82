//! What taking a transaction back does: to the counters of the runes, to
//! the outputs, and to the mempool set.

use crate::circulation::place;
use crate::ids::{OutPoint, SerializedTxid};
use crate::laws::{
    lemma_unproduce_all_keeps_runes, lemma_unspend_all_keeps_runes, lemma_untouch_all_keeps_runes,
};
use crate::model::{RuneEntry, SpentInputView, TransactionStateChangeView, TxOutEntryView};
use crate::rollback::minus;
use crate::roundtrip::{lemma_unburn_all_only_runes, lemma_untouch_all_lists, side_of};
use crate::rune_amount::RuneAmount;
use crate::rune_id::RuneId;
use crate::store::StoreView;
use crate::updater::remove_txs_spec;
use vstd::prelude::*;

verus! {

/// Whether two entries of a rune agree in everything but what was burned
/// of the rune, on the side of the chain or pending.
pub open spec fn same_but_burned(a: RuneEntry, b: RuneEntry) -> bool {
    b == (RuneEntry { burned: b.burned, pending_burns: b.pending_burns, ..a })
}

/// Whether two entries of a rune agree in everything but the pending
/// counters.
pub open spec fn same_confirmed(a: RuneEntry, b: RuneEntry) -> bool {
    b == (RuneEntry { pending_mints: b.pending_mints, pending_burns: b.pending_burns, ..a })
}

/// Taking burned amounts off the counters keeps every rune, and changes
/// nothing of a rune but what was burned: for the mempool only the
/// pending burns, on the side of the chain only the burned amount.
pub proof fn lemma_unburn_all_touches_burns_only(
    db: StoreView,
    burned: Seq<RuneAmount>,
    mempool: bool,
)
    ensures
        db.unburn_all(burned, mempool).runes.dom() == db.runes.dom(),
        forall|id: RuneId| #[trigger]
            db.runes.contains_key(id) ==> {
                &&& same_but_burned(db.runes[id], db.unburn_all(burned, mempool).runes[id])
                &&& mempool ==> db.unburn_all(burned, mempool).runes[id].burned
                    == db.runes[id].burned
                &&& !mempool ==> db.unburn_all(burned, mempool).runes[id].pending_burns
                    == db.runes[id].pending_burns
            },
    decreases burned.len(),
{
    if burned.len() > 0 {
        let next = db.unburn(burned.last(), mempool);
        assert(next.runes.dom() =~= db.runes.dom());
        lemma_unburn_all_touches_burns_only(next, burned.drop_last(), mempool);
        assert forall|id: RuneId| #[trigger] db.runes.contains_key(id) implies {
            &&& same_but_burned(db.runes[id], db.unburn_all(burned, mempool).runes[id])
            &&& mempool ==> db.unburn_all(burned, mempool).runes[id].burned == db.runes[id].burned
            &&& !mempool ==> db.unburn_all(burned, mempool).runes[id].pending_burns
                == db.runes[id].pending_burns
        } by {
            assert(next.runes.contains_key(id));
        }
    }
}

/// The store at the point at which the counters are set back holds the
/// runes as they were.
pub proof fn lemma_unsettled_keeps_runes(
    db: StoreView,
    txid: SerializedTxid,
    change: TransactionStateChangeView,
    mempool: bool,
)
    ensures
        db.unsettled(txid, change, mempool).runes == db.runes,
        db.unsettled(txid, change, mempool).rune_count == db.rune_count,
        db.unsettled(txid, change, mempool).mempool_txs == db.mempool_txs,
{
    lemma_untouch_all_keeps_runes(db, change.rune_ids(), txid);
    lemma_untouch_all_lists(db, change.rune_ids(), txid);
    let untouched = db.untouch_all(change.rune_ids(), txid).forget(txid, mempool);
    lemma_unproduce_all_keeps_runes(untouched, txid, change.outputs, change.outputs.len(), mempool);
    lemma_unproduce_all_frame(untouched, txid, change.outputs, change.outputs.len(), mempool);
    let unproduced = untouched.unproduce_all(txid, change.outputs, change.outputs.len(), mempool);
    lemma_unspend_all_keeps_runes(unproduced, change.inputs, mempool);
    lemma_unspend_all_frame(unproduced, change.inputs, mempool);
}

proof fn lemma_unproduce_all_frame(
    db: StoreView,
    txid: SerializedTxid,
    outputs: Seq<TxOutEntryView>,
    below: nat,
    mempool: bool,
)
    ensures
        db.unproduce_all(txid, outputs, below, mempool).rune_count == db.rune_count,
        db.unproduce_all(txid, outputs, below, mempool).mempool_txs == db.mempool_txs,
        db.unproduce_all(txid, outputs, below, mempool).tx_state_changes == db.tx_state_changes,
    decreases below,
{
    if below > 0 {
        lemma_unproduce_all_frame(
            db.unproduce(txid, (below - 1) as u32, outputs[below - 1], mempool),
            txid,
            outputs,
            (below - 1) as nat,
            mempool,
        );
    }
}

proof fn lemma_unspend_all_frame(db: StoreView, inputs: Seq<SpentInputView>, mempool: bool)
    ensures
        db.unspend_all(inputs, mempool).rune_count == db.rune_count,
        db.unspend_all(inputs, mempool).mempool_txs == db.mempool_txs,
        db.unspend_all(inputs, mempool).tx_state_changes == db.tx_state_changes,
    decreases inputs.len(),
{
    if inputs.len() > 0 {
        lemma_unspend_all_frame(
            db.unspend(inputs.last().outpoint, mempool),
            inputs.drop_last(),
            mempool,
        );
    }
}

/// Taking a transaction of the mempool back never touches what is
/// confirmed: every rune that is left has its mints and its burned amount
/// as before, and everything else but the pending counters. Only the rune
/// that the transaction etched is forgotten.
pub proof fn lemma_mempool_revert_keeps_confirmed_counters(
    db: StoreView,
    txid: SerializedTxid,
    change: TransactionStateChangeView,
)
    ensures
        forall|id: RuneId| #[trigger]
            db.revert(txid, change, true).runes.contains_key(id) ==> db.runes.contains_key(id)
                && same_confirmed(db.runes[id], db.revert(txid, change, true).runes[id]),
        forall|id: RuneId|
            db.runes.contains_key(id) && !(change.etched.is_some() && change.etched.unwrap().0
                == id) ==> #[trigger] db.revert(txid, change, true).runes.contains_key(id),
        db.revert(txid, change, true).mempool_txs == db.mempool_txs,
{
    lemma_unsettled_keeps_runes(db, txid, change, true);
    let unspent = db.unsettled(txid, change, true);
    let unetched = match change.etched {
        Some((id, rune)) => unspent.unetch(id, rune),
        None => unspent,
    };
    let unminted = match change.minted {
        Some(m) => unetched.unmint(m.rune_id, true),
        None => unetched,
    };
    lemma_unburn_all_touches_burns_only(unminted, change.burned, true);
    lemma_unburn_all_only_runes(unminted, change.burned, true);
    let after = db.revert(txid, change, true);
    assert(after == unminted.unburn_all(change.burned, true));
    assert forall|id: RuneId| #[trigger] after.runes.contains_key(id) implies db.runes.contains_key(
        id,
    ) && same_confirmed(db.runes[id], after.runes[id]) by {
        assert(unminted.runes.contains_key(id));
        assert(unetched.runes.contains_key(id));
    }
    assert forall|id: RuneId|
        db.runes.contains_key(id) && !(change.etched.is_some() && change.etched.unwrap().0
            == id) implies #[trigger] after.runes.contains_key(id) by {
        assert(unetched.runes.contains_key(id));
        assert(unminted.runes.contains_key(id));
    }
}

/// Taking a transaction back takes its mint off the counter of the rune:
/// on the side of the chain the mints fall by one, for the mempool the
/// pending mints; a counter at zero stays at zero. This holds of a rune
/// that the transaction did not itself etch.
pub proof fn lemma_revert_takes_the_mint_back(
    db: StoreView,
    txid: SerializedTxid,
    change: TransactionStateChangeView,
    mempool: bool,
)
    requires
        change.minted.is_some(),
        db.runes.contains_key(change.minted.unwrap().rune_id),
        change.etched.is_some() ==> change.etched.unwrap().0 != change.minted.unwrap().rune_id,
    ensures
        ({
            let id = change.minted.unwrap().rune_id;
            let after = db.revert(txid, change, mempool).runes;
            &&& after.contains_key(id)
            &&& mempool ==> after[id].pending_mints == minus(db.runes[id].pending_mints, 1)
                && after[id].mints == db.runes[id].mints
            &&& !mempool ==> after[id].mints == minus(db.runes[id].mints, 1)
                && after[id].pending_mints == db.runes[id].pending_mints
        }),
{
    lemma_unsettled_keeps_runes(db, txid, change, mempool);
    let unspent = db.unsettled(txid, change, mempool);
    let unetched = match change.etched {
        Some((id, rune)) => unspent.unetch(id, rune),
        None => unspent,
    };
    let id = change.minted.unwrap().rune_id;
    assert(unetched.runes.contains_key(id));
    let unminted = unetched.unmint(id, mempool);
    assert(unminted.runes.contains_key(id));
    lemma_unburn_all_touches_burns_only(unminted, change.burned, mempool);
    assert(db.revert(txid, change, mempool) == unminted.unburn_all(change.burned, mempool));
}

/// Deleting the outputs that a transaction produced leaves none of those
/// that held runes, and nothing new.
proof fn lemma_unproduce_all_deletes(
    db: StoreView,
    txid: SerializedTxid,
    outputs: Seq<TxOutEntryView>,
    below: nat,
    mempool: bool,
)
    requires
        below <= outputs.len(),
        outputs.len() <= u32::MAX,
    ensures
        forall|v: int|
            0 <= v < below && outputs[v].runes.len() > 0 ==> !side_of(
                db.unproduce_all(txid, outputs, below, mempool),
                mempool,
            ).contains_key(#[trigger] place(txid, v)),
        forall|o: OutPoint| #[trigger]
            side_of(db.unproduce_all(txid, outputs, below, mempool), mempool).contains_key(o)
                ==> side_of(db, mempool).contains_key(o),
    decreases below,
{
    if below > 0 {
        let next = db.unproduce(txid, (below - 1) as u32, outputs[below - 1], mempool);
        lemma_unproduce_all_deletes(next, txid, outputs, (below - 1) as nat, mempool);
        let after = db.unproduce_all(txid, outputs, below, mempool);
        assert(after == next.unproduce_all(txid, outputs, (below - 1) as nat, mempool));
        assert forall|o: OutPoint| #[trigger] side_of(after, mempool).contains_key(o) implies side_of(
            db,
            mempool,
        ).contains_key(o) by {
            assert(side_of(next, mempool).contains_key(o));
        }
        assert forall|v: int| 0 <= v < below && outputs[v].runes.len() > 0 implies !side_of(
            after,
            mempool,
        ).contains_key(#[trigger] place(txid, v)) by {
            if v == below - 1 {
                assert(!side_of(next, mempool).contains_key(place(txid, v)));
                if side_of(after, mempool).contains_key(place(txid, v)) {
                    assert(side_of(next, mempool).contains_key(place(txid, v)));
                }
            }
        }
    }
}

/// Taking back the spending of outputs on the side of the chain adds no
/// output, and leaves each of the named outputs that the chain holds
/// unspent.
proof fn lemma_unspend_all_unspends(db: StoreView, inputs: Seq<SpentInputView>)
    ensures
        db.unspend_all(inputs, false).txouts.dom() == db.txouts.dom(),
        forall|i: int|
            0 <= i < inputs.len() && db.txouts.contains_key((#[trigger] inputs[i]).outpoint)
                ==> !db.unspend_all(inputs, false).txouts[inputs[i].outpoint].spent,
        forall|o: OutPoint| #[trigger]
            db.txouts.contains_key(o) && !db.txouts[o].spent ==> !db.unspend_all(
                inputs,
                false,
            ).txouts[o].spent,
    decreases inputs.len(),
{
    if inputs.len() > 0 {
        let next = db.unspend(inputs.last().outpoint, false);
        assert(next.txouts.dom() =~= db.txouts.dom());
        lemma_unspend_all_unspends(next, inputs.drop_last());
        let after = db.unspend_all(inputs, false);
        assert forall|i: int|
            0 <= i < inputs.len() && db.txouts.contains_key(
                (#[trigger] inputs[i]).outpoint,
            ) implies !after.txouts[inputs[i].outpoint].spent by {
            let o = inputs[i].outpoint;
            if i == inputs.len() - 1 {
                assert(next.txouts.contains_key(o) && !next.txouts[o].spent);
            } else {
                assert(inputs.drop_last()[i] == inputs[i]);
                assert(next.txouts.contains_key(o));
            }
        }
        assert forall|o: OutPoint| #[trigger]
            db.txouts.contains_key(o) && !db.txouts[o].spent implies !after.txouts[o].spent by {
            assert(next.txouts.contains_key(o) && !next.txouts[o].spent);
        }
    }
}

/// Taking a transaction of the chain back deletes every output of it that
/// held runes, and leaves every output that it consumed, and that the
/// chain still holds, unspent.
pub proof fn lemma_revert_deletes_outputs_and_unspends_inputs(
    db: StoreView,
    txid: SerializedTxid,
    change: TransactionStateChangeView,
)
    requires
        change.outputs.len() <= u32::MAX,
    ensures
        forall|v: int|
            0 <= v < change.outputs.len() && change.outputs[v].runes.len() > 0 ==> !db.revert(
                txid,
                change,
                false,
            ).txouts.contains_key(#[trigger] place(txid, v)),
        forall|i: int|
            0 <= i < change.inputs.len() && db.revert(txid, change, false).txouts.contains_key(
                (#[trigger] change.inputs[i]).outpoint,
            ) ==> !db.revert(txid, change, false).txouts[change.inputs[i].outpoint].spent,
        !db.revert(txid, change, false).tx_state_changes.contains_key(txid),
{
    lemma_untouch_all_lists(db, change.rune_ids(), txid);
    let untouched = db.untouch_all(change.rune_ids(), txid).forget(txid, false);
    lemma_unproduce_all_deletes(untouched, txid, change.outputs, change.outputs.len(), false);
    lemma_unproduce_all_frame(untouched, txid, change.outputs, change.outputs.len(), false);
    let unproduced = untouched.unproduce_all(txid, change.outputs, change.outputs.len(), false);
    lemma_unspend_all_unspends(unproduced, change.inputs);
    lemma_unspend_all_frame(unproduced, change.inputs, false);
    let unspent = unproduced.unspend_all(change.inputs, false);
    let unetched = match change.etched {
        Some((id, rune)) => unspent.unetch(id, rune),
        None => unspent,
    };
    let unminted = match change.minted {
        Some(m) => unetched.unmint(m.rune_id, false),
        None => unetched,
    };
    lemma_unburn_all_only_runes(unminted, change.burned, false);
    let after = db.revert(txid, change, false);
    assert(after.txouts == unspent.txouts);
    assert(after.tx_state_changes == unspent.tx_state_changes);
}

/// The transactions that were taken out of the store are no longer in the
/// mempool set, and no other transaction joined or left it.
pub proof fn lemma_removed_leave_the_mempool_set(
    db: StoreView,
    txids: Seq<SerializedTxid>,
    mempool: bool,
)
    ensures
        forall|t: SerializedTxid| #[trigger]
            remove_txs_spec(db, txids, mempool).mempool_txs.contains(t) <==> (
            db.mempool_txs.contains(t) && !txids.contains(t)),
    decreases txids.len(),
{
    if txids.len() > 0 {
        let txid = txids[0];
        let left = StoreView { mempool_txs: db.mempool_txs.remove(txid), ..db };
        let next = match left.tx_state_change(txid, Some(mempool)) {
            Some(change) => {
                lemma_unsettled_keeps_runes(left, txid, change, mempool);
                let unspent = left.unsettled(txid, change, mempool);
                let unetched = match change.etched {
                    Some((id, rune)) => unspent.unetch(id, rune),
                    None => unspent,
                };
                let unminted = match change.minted {
                    Some(m) => unetched.unmint(m.rune_id, mempool),
                    None => unetched,
                };
                lemma_unburn_all_only_runes(unminted, change.burned, mempool);
                left.revert(txid, change, mempool)
            },
            None => left,
        };
        assert(next.mempool_txs == left.mempool_txs);
        lemma_removed_leave_the_mempool_set(next, txids.skip(1), mempool);
        let after = remove_txs_spec(db, txids, mempool);
        assert(after == remove_txs_spec(next, txids.skip(1), mempool));
        assert forall|t: SerializedTxid| #[trigger] after.mempool_txs.contains(t) <==> (
        db.mempool_txs.contains(t) && !txids.contains(t)) by {
            assert(after.mempool_txs.contains(t) <==> (next.mempool_txs.contains(t)
                && !txids.skip(1).contains(t)));
            assert(next.mempool_txs.contains(t) <==> (db.mempool_txs.contains(t) && t != txid));
            if t == txid {
                assert(txids[0] == t);
            }
            if txids.contains(t) && t != txid {
                let k = choose|k: int| 0 <= k < txids.len() && txids[k] == t;
                assert(txids.skip(1)[k - 1] == t);
            }
            if txids.skip(1).contains(t) {
                let k = choose|k: int| 0 <= k < txids.skip(1).len() && txids.skip(1)[k] == t;
                assert(txids[k + 1] == t);
            }
        }
    }
}

} // verus!
