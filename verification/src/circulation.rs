//! The circulating supply of a rune: what the unspent outputs hold of it,
//! and how a transaction moves it.

use crate::artifact::{ArtifactView, TransactionView};
use crate::block_roundtrip::lemma_staged_save_shape;
use crate::cache::CacheView;
use crate::conservation::{amount_of, minted_part, total_inputs, total_outputs};
use crate::ids::{OutPoint, SerializedTxid};
use crate::model::{
    InscriptionId, RuneEntry, SpentInputView, TransactionStateChangeView, TxOutEntryView,
};
use crate::roundtrip::{lemma_spend_upto_other, staged_outputs, staged_runes};
use crate::rune_id::RuneId;
use crate::rune_parser::index_runes_spec;
use crate::store::StoreView;
use crate::supply::{lemma_save_counts, lemma_supply_over_a_transaction, minted_count};
use vstd::prelude::*;
use vstd::set::fold::{is_fun_commutative, lemma_fold_empty, lemma_fold_insert};

verus! {

/// What an output adds to the circulating supply of a rune: what it holds
/// of the rune, unless it is spent.
pub open spec fn share(entry: TxOutEntryView, id: RuneId) -> nat {
    if entry.spent {
        0
    } else {
        amount_of(entry.runes, id)
    }
}

/// What the output at a place adds to the circulating supply of a rune.
pub open spec fn share_at(outputs: Map<OutPoint, TxOutEntryView>, o: OutPoint, id: RuneId) -> nat {
    if outputs.contains_key(o) {
        share(outputs[o], id)
    } else {
        0
    }
}

/// Adds the share of an output to a sum.
pub open spec fn adder(outputs: Map<OutPoint, TxOutEntryView>, id: RuneId) -> spec_fn(
    nat,
    OutPoint,
) -> nat {
    |sum: nat, o: OutPoint| sum + share_at(outputs, o, id)
}

/// The circulating supply of a rune: what the unspent outputs hold of it.
pub open spec fn circulating(outputs: Map<OutPoint, TxOutEntryView>, id: RuneId) -> nat {
    outputs.dom().fold(0nat, adder(outputs, id))
}

proof fn lemma_adder_commutes(outputs: Map<OutPoint, TxOutEntryView>, id: RuneId)
    ensures
        is_fun_commutative(adder(outputs, id)),
{
    let f = adder(outputs, id);
    assert forall|a1: OutPoint, a2: OutPoint, b: nat| #[trigger] f(f(b, a2), a1) == f(f(b, a1), a2) by {
    }
}

/// The sum over a set of places is the same for two maps of outputs that
/// agree in the shares at these places.
proof fn lemma_sum_agrees(
    places: Set<OutPoint>,
    a: Map<OutPoint, TxOutEntryView>,
    b: Map<OutPoint, TxOutEntryView>,
    id: RuneId,
)
    requires
        places.finite(),
        forall|o: OutPoint| places.contains(o) ==> share_at(a, o, id) == share_at(b, o, id),
    ensures
        places.fold(0nat, adder(a, id)) == places.fold(0nat, adder(b, id)),
    decreases places.len(),
{
    lemma_adder_commutes(a, id);
    lemma_adder_commutes(b, id);
    if places.len() == 0 {
        assert(places =~= Set::<OutPoint>::empty());
        lemma_fold_empty(0nat, adder(a, id));
        lemma_fold_empty(0nat, adder(b, id));
    } else {
        let o = places.choose();
        let rest = places.remove(o);
        assert(rest.insert(o) =~= places);
        lemma_sum_agrees(rest, a, b, id);
        lemma_fold_insert(rest, 0nat, adder(a, id), o);
        lemma_fold_insert(rest, 0nat, adder(b, id), o);
    }
}

/// Setting the output at one place moves the circulating supply by the
/// difference of the shares at that place.
pub proof fn lemma_circulating_set(
    outputs: Map<OutPoint, TxOutEntryView>,
    o: OutPoint,
    entry: TxOutEntryView,
    id: RuneId,
)
    requires
        outputs.dom().finite(),
    ensures
        outputs.insert(o, entry).dom().finite(),
        circulating(outputs.insert(o, entry), id) + share_at(outputs, o, id) == circulating(
            outputs,
            id,
        ) + share(entry, id),
{
    let after = outputs.insert(o, entry);
    let rest = outputs.dom().remove(o);
    lemma_adder_commutes(outputs, id);
    lemma_adder_commutes(after, id);
    assert(after.dom() =~= rest.insert(o));
    lemma_sum_agrees(rest, outputs, after, id);
    lemma_fold_insert(rest, 0nat, adder(after, id), o);
    if outputs.contains_key(o) {
        assert(outputs.dom() =~= rest.insert(o));
        lemma_fold_insert(rest, 0nat, adder(outputs, id), o);
    } else {
        assert(outputs.dom() =~= rest);
    }
}

/// The place of output `v` of a transaction.
pub open spec fn place(txid: SerializedTxid, v: int) -> OutPoint {
    OutPoint { txid, vout: v as u32 }
}

/// Whether the circulating supply can be followed over a state change on
/// the side of the chain: the outputs as the window shows them are
/// finitely many; the consumed outputs are distinct outputs of other
/// transactions that the chain side holds unspent with the balances that
/// the state change names; the produced outputs are new and unspent.
pub open spec fn accountable(
    cache: CacheView,
    db: StoreView,
    txid: SerializedTxid,
    change: TransactionStateChangeView,
) -> bool {
    let outputs = staged_outputs(cache, db, false);
    &&& outputs.dom().finite()
    &&& change.outputs.len() <= u32::MAX
    &&& forall|i: int, j: int|
        0 <= i < j < change.inputs.len() ==> (#[trigger] change.inputs[i]).outpoint != (
        #[trigger] change.inputs[j]).outpoint
    &&& forall|i: int|
        0 <= i < change.inputs.len() ==> {
            &&& (#[trigger] change.inputs[i]).outpoint.txid != txid
            &&& outputs.contains_key(change.inputs[i].outpoint)
            &&& !outputs[change.inputs[i].outpoint].spent
            &&& outputs[change.inputs[i].outpoint].runes == change.inputs[i].runes
        }
    &&& forall|v: int|
        0 <= v < change.outputs.len() ==> {
            &&& !(#[trigger] change.outputs[v]).spent
            &&& !outputs.contains_key(place(txid, v))
        }
}

/// Marking the first inputs as spent takes what they held out of the
/// circulating supply.
proof fn lemma_spending_circulates(
    cache: CacheView,
    db: StoreView,
    inputs: Seq<SpentInputView>,
    n: nat,
    id: RuneId,
)
    requires
        n <= inputs.len(),
        staged_outputs(cache, db, false).dom().finite(),
        forall|i: int, j: int|
            0 <= i < j < inputs.len() ==> (#[trigger] inputs[i]).outpoint != (
            #[trigger] inputs[j]).outpoint,
        forall|i: int|
            0 <= i < inputs.len() ==> {
                &&& staged_outputs(cache, db, false).contains_key((#[trigger] inputs[i]).outpoint)
                &&& !staged_outputs(cache, db, false)[inputs[i].outpoint].spent
                &&& staged_outputs(cache, db, false)[inputs[i].outpoint].runes == inputs[i].runes
            },
    ensures
        staged_outputs(cache.spend_upto(db, inputs, n), db, false).dom().finite(),
        circulating(staged_outputs(cache.spend_upto(db, inputs, n), db, false), id) + total_inputs(
            inputs,
            n,
            id,
        ) == circulating(staged_outputs(cache, db, false), id),
    decreases n,
{
    if n > 0 {
        let before = cache.spend_upto(db, inputs, (n - 1) as nat);
        let o = inputs[n - 1].outpoint;
        lemma_spending_circulates(cache, db, inputs, (n - 1) as nat, id);
        lemma_spend_upto_other(cache, db, inputs, (n - 1) as nat, o, false);
        let outputs = staged_outputs(before, db, false);
        assert(outputs.contains_key(o));
        assert(before.tx_out(db, o) == Some(outputs[o]));
        let spent = TxOutEntryView { spent: true, ..outputs[o] };
        assert(staged_outputs(before.spend(db, o), db, false) =~= outputs.insert(o, spent));
        lemma_circulating_set(outputs, o, spent, id);
    }
}

/// Staging the first outputs of a transaction adds what they hold to the
/// circulating supply.
proof fn lemma_producing_circulates(
    cache: CacheView,
    db: StoreView,
    height: u32,
    txid: SerializedTxid,
    outputs: Seq<TxOutEntryView>,
    n: nat,
    id: RuneId,
)
    requires
        n <= outputs.len(),
        outputs.len() <= u32::MAX,
        staged_outputs(cache, db, false).dom().finite(),
        forall|v: int| 0 <= v < outputs.len() ==> !(#[trigger] outputs[v]).spent,
        forall|v: int|
            0 <= v < outputs.len() ==> !staged_outputs(cache, db, false).contains_key(
                #[trigger] place(txid, v),
            ),
    ensures
        staged_outputs(cache.produce_upto(height, txid, outputs, n, false), db, false).dom().finite(),
        circulating(staged_outputs(cache.produce_upto(height, txid, outputs, n, false), db, false), id)
            == circulating(staged_outputs(cache, db, false), id) + total_outputs(outputs, n, id),
        forall|v: int|
            n <= v < outputs.len() ==> !staged_outputs(
                cache.produce_upto(height, txid, outputs, n, false),
                db,
                false,
            ).contains_key(#[trigger] place(txid, v)),
    decreases n,
{
    if n > 0 {
        let before = cache.produce_upto(height, txid, outputs, (n - 1) as nat, false);
        lemma_producing_circulates(cache, db, height, txid, outputs, (n - 1) as nat, id);
        let staged = staged_outputs(before, db, false);
        let o = place(txid, n - 1);
        let output = outputs[n - 1];
        assert(!staged.contains_key(o));
        let after = before.produce(height, txid, (n - 1) as u32, output, false);
        if output.runes.len() == 0 {
            assert(amount_of(output.runes, id) == 0);
        } else {
            assert(staged_outputs(after, db, false) =~= staged.insert(o, output));
            lemma_circulating_set(staged, o, output, id);
        }
        assert forall|v: int| n <= v < outputs.len() implies !staged_outputs(
            after,
            db,
            false,
        ).contains_key(#[trigger] place(txid, v)) by {
            assert(!staged.contains_key(place(txid, v)));
        }
    }
}

/// Applying a state change on the side of the chain moves the circulating
/// supply of every rune by what the outputs hold of it less what the
/// inputs held of it.
pub proof fn lemma_save_circulates(
    cache: CacheView,
    db: StoreView,
    block_time: u32,
    height: u32,
    txid: SerializedTxid,
    artifact: Option<ArtifactView>,
    change: TransactionStateChangeView,
    icon: Option<InscriptionId>,
    id: RuneId,
)
    requires
        cache.save(db, block_time, height, txid, artifact, change, icon, false).1.is_none(),
        accountable(cache, db, txid, change),
    ensures
        ({
            let saved = cache.save(db, block_time, height, txid, artifact, change, icon, false).0;
            &&& staged_outputs(saved, db, false).dom().finite()
            &&& circulating(staged_outputs(saved, db, false), id) + total_inputs(
                change.inputs,
                change.inputs.len(),
                id,
            ) == circulating(staged_outputs(cache, db, false), id) + total_outputs(
                change.outputs,
                change.outputs.len(),
                id,
            )
        }),
{
    let shape = lemma_staged_save_shape(
        cache,
        db,
        block_time,
        height,
        txid,
        artifact,
        change,
        icon,
        false,
    );
    let start = staged_outputs(cache, db, false);
    assert(staged_outputs(shape.etched, db, false) =~= start);
    lemma_spending_circulates(shape.etched, db, change.inputs, change.inputs.len(), id);
    assert forall|v: int| 0 <= v < change.outputs.len() implies !staged_outputs(
        shape.spent,
        db,
        false,
    ).contains_key(#[trigger] place(txid, v)) by {
        let key = place(txid, v);
        assert(!staged_outputs(cache, db, false).contains_key(key)) by {
            assert(!change.outputs[v].spent);
        }
        crate::roundtrip::lemma_spend_upto_keys(
            shape.etched,
            db,
            change.inputs,
            change.inputs.len(),
            false,
        );
        if staged_outputs(shape.spent, db, false).contains_key(key) {
            let i = choose|i: int|
                0 <= i < change.inputs.len() && (#[trigger] change.inputs[i]).outpoint == key;
            assert(change.inputs[i].outpoint.txid != txid);
        }
    }
    lemma_producing_circulates(
        shape.spent,
        db,
        height,
        txid,
        change.outputs,
        change.outputs.len(),
        id,
    );
    assert(staged_outputs(shape.saved, db, false) =~= staged_outputs(shape.produced, db, false));
}

/// The amount of one mint of a rune: what its terms give, or nothing.
pub open spec fn one_mint(entry: RuneEntry) -> nat {
    match entry.terms {
        Some(terms) => terms.amount.unwrap_or(0) as nat,
        None => 0,
    }
}

/// The supply law of a rune over the outputs of the chain as a window
/// shows them: what circulates and what was burned is what was premined
/// and what was minted.
pub open spec fn supply_holds(cache: CacheView, db: StoreView, id: RuneId) -> bool {
    let entry = staged_runes(cache, db)[id];
    circulating(staged_outputs(cache, db, false), id) + entry.burned == entry.premine
        + entry.mints * one_mint(entry)
}

/// Whether a state change balances for a rune that it does not etch: what
/// its outputs hold of the rune and what it burns of it is what its inputs
/// held of it and what it mints of it, and what it mints is the amount of
/// one mint of the rune.
pub open spec fn balanced(change: TransactionStateChangeView, entry: RuneEntry, id: RuneId) -> bool {
    &&& total_outputs(change.outputs, change.outputs.len(), id) + amount_of(change.burned, id)
        == total_inputs(change.inputs, change.inputs.len(), id) + minted_part(change, id)
    &&& minted_count(change, id) > 0 ==> change.minted.unwrap().amount == one_mint(entry)
}

/// Applying a balanced state change on the side of the chain keeps the
/// supply law of a rune that was known before: if what circulates and
/// what was burned was what was premined and minted, it is so afterwards.
pub proof fn lemma_balanced_change_keeps_supply(
    cache: CacheView,
    db: StoreView,
    block_time: u32,
    height: u32,
    txid: SerializedTxid,
    artifact: Option<ArtifactView>,
    change: TransactionStateChangeView,
    icon: Option<InscriptionId>,
    id: RuneId,
)
    requires
        cache.save(db, block_time, height, txid, artifact, change, icon, false).1.is_none(),
        staged_runes(cache, db).contains_key(id),
        change.etched.is_some() ==> change.etched.unwrap().0 != id,
        accountable(cache, db, txid, change),
        balanced(change, staged_runes(cache, db)[id], id),
        supply_holds(cache, db, id),
    ensures
        supply_holds(
            cache.save(db, block_time, height, txid, artifact, change, icon, false).0,
            db,
            id,
        ),
{
    let saved = cache.save(db, block_time, height, txid, artifact, change, icon, false).0;
    lemma_save_circulates(cache, db, block_time, height, txid, artifact, change, icon, id);
    lemma_save_counts(cache, db, block_time, height, txid, artifact, change, icon, false, id);
    let before = staged_runes(cache, db)[id];
    let after = staged_runes(saved, db)[id];
    let more = minted_count(change, id);
    assert(minted_part(change, id) == more * one_mint(before)) by {
        assert(1 * one_mint(before) == one_mint(before));
        assert(0 * one_mint(before) == 0);
    }
    assert(one_mint(after) == one_mint(before));
    assert(after.mints * one_mint(before) == before.mints * one_mint(before) + more * one_mint(
        before,
    )) by (nonlinear_arith)
        requires
            after.mints == before.mints + more,
    ;
}

/// A transaction of the chain keeps the supply law of every rune that was
/// known before it: if what circulates and what was burned was what was
/// premined and minted, it is so after the transaction was indexed and
/// its state change applied.
pub proof fn lemma_supply_is_kept(
    cache: CacheView,
    db: StoreView,
    block_time: u32,
    height: u32,
    tx_index: u32,
    txid: SerializedTxid,
    tx: TransactionView,
    artifact: Option<ArtifactView>,
    minimum: u128,
    commitment: bool,
    icon: Option<InscriptionId>,
    id: RuneId,
)
    requires
        tx.scripts.len() <= usize::MAX,
        index_runes_spec(cache, db, height as u64, tx_index, tx, artifact, minimum, commitment).is_ok(),
        cache.save(
            db,
            block_time,
            height,
            txid,
            crate::updater::message_for(
                index_runes_spec(
                    cache,
                    db,
                    height as u64,
                    tx_index,
                    tx,
                    artifact,
                    minimum,
                    commitment,
                ).unwrap(),
                tx,
            ),
            index_runes_spec(
                cache,
                db,
                height as u64,
                tx_index,
                tx,
                artifact,
                minimum,
                commitment,
            ).unwrap(),
            icon,
            false,
        ).1.is_none(),
        staged_runes(cache, db).contains_key(id),
        index_runes_spec(
            cache,
            db,
            height as u64,
            tx_index,
            tx,
            artifact,
            minimum,
            commitment,
        ).unwrap().etched.is_some() ==> index_runes_spec(
            cache,
            db,
            height as u64,
            tx_index,
            tx,
            artifact,
            minimum,
            commitment,
        ).unwrap().etched.unwrap().0 != id,
        accountable(
            cache,
            db,
            txid,
            index_runes_spec(
                cache,
                db,
                height as u64,
                tx_index,
                tx,
                artifact,
                minimum,
                commitment,
            ).unwrap(),
        ),
        supply_holds(cache, db, id),
    ensures
        supply_holds(
            cache.save(
                db,
                block_time,
                height,
                txid,
                crate::updater::message_for(
                    index_runes_spec(
                        cache,
                        db,
                        height as u64,
                        tx_index,
                        tx,
                        artifact,
                        minimum,
                        commitment,
                    ).unwrap(),
                    tx,
                ),
                index_runes_spec(
                    cache,
                    db,
                    height as u64,
                    tx_index,
                    tx,
                    artifact,
                    minimum,
                    commitment,
                ).unwrap(),
                icon,
                false,
            ).0,
            db,
            id,
        ),
{
    let change = index_runes_spec(
        cache,
        db,
        height as u64,
        tx_index,
        tx,
        artifact,
        minimum,
        commitment,
    ).unwrap();
    let message = crate::updater::message_for(change, tx);
    let saved = cache.save(db, block_time, height, txid, message, change, icon, false).0;
    lemma_supply_over_a_transaction(
        cache,
        db,
        block_time,
        height,
        tx_index,
        txid,
        tx,
        artifact,
        minimum,
        commitment,
        icon,
        id,
    );
    lemma_save_circulates(cache, db, block_time, height, txid, message, change, icon, id);
    let before = staged_runes(cache, db)[id];
    let after = staged_runes(saved, db)[id];
    let moved = match change.minted {
        Some(m) => m.amount as nat,
        None => 0,
    };
    crate::supply::lemma_save_counts(
        cache,
        db,
        block_time,
        height,
        txid,
        message,
        change,
        icon,
        false,
        id,
    );
    let more = crate::supply::minted_count(change, id);
    assert(after.mints == before.mints + more);
    assert(after.burned == before.burned + amount_of(change.burned, id));
    assert(after.premine == before.premine);
    assert(one_mint(after) == one_mint(before));
    assert(more * moved == more * one_mint(before)) by {
        reveal(index_runes_spec);
        if more > 0 {
            assert(change.minted.is_some() && change.minted.unwrap().rune_id == id);
            assert(cache.rune(db, id) == Some(before));
        } else {
            assert(0 * moved == 0);
            assert(0 * one_mint(before) == 0);
        }
    }
    assert((after.mints - before.mints) * moved == more * moved);
    assert(after.mints * one_mint(before) == before.mints * one_mint(before) + more * one_mint(
        before,
    )) by (nonlinear_arith)
        requires
            after.mints == before.mints + more,
    ;
}

} // verus!
