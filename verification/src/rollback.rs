use crate::ids::{OutPoint, SerializedTxid};
use crate::model::{
    RuneEntry, SpentInputView, TransactionStateChange, TransactionStateChangeView, TxOutEntryView,
};
use crate::rune::Rune;
use crate::rune_amount::RuneAmount;
use crate::rune_id::RuneId;
use crate::store::{list_at, Store, StoreView};
use vstd::prelude::*;

verus! {

/// The list without the given transaction.
pub open spec fn drop_txid(list: Seq<SerializedTxid>, txid: SerializedTxid) -> Seq<SerializedTxid> {
    list.filter(|t: SerializedTxid| t != txid)
}

pub open spec fn minus(a: u128, b: u128) -> u128 {
    if a >= b {
        (a - b) as u128
    } else {
        0
    }
}

/// Why the effect of a transaction could not be taken back exactly.
#[derive(Debug, PartialEq, Copy, Clone, Eq, Structural)]
pub enum RollbackError {
    /// A counter would have fallen below zero.
    Overflow,
}

impl StoreView {
    /// Takes back the spending of an output. On the side of the chain the
    /// output is unspent again. On the side of the mempool the copy that
    /// the mempool made of an output of the chain is dropped, and an output
    /// of the mempool is unspent again.
    pub open spec fn unspend(self, outpoint: OutPoint, mempool: bool) -> StoreView {
        if mempool {
            if self.txouts.contains_key(outpoint) {
                StoreView { mempool_txouts: self.mempool_txouts.remove(outpoint), ..self }
            } else if self.mempool_txouts.contains_key(outpoint) {
                StoreView {
                    mempool_txouts: self.mempool_txouts.insert(
                        outpoint,
                        TxOutEntryView { spent: false, ..self.mempool_txouts[outpoint] },
                    ),
                    ..self
                }
            } else {
                self
            }
        } else if self.txouts.contains_key(outpoint) {
            StoreView {
                txouts: self.txouts.insert(
                    outpoint,
                    TxOutEntryView { spent: false, ..self.txouts[outpoint] },
                ),
                ..self
            }
        } else {
            self
        }
    }

    pub open spec fn unspend_all(self, inputs: Seq<SpentInputView>, mempool: bool) -> StoreView
        decreases inputs.len(),
    {
        if inputs.len() == 0 {
            self
        } else {
            self.unspend(inputs.last().outpoint, mempool).unspend_all(inputs.drop_last(), mempool)
        }
    }

    /// Deletes a produced output that held runes.
    pub open spec fn unproduce(
        self,
        txid: SerializedTxid,
        vout: u32,
        output: TxOutEntryView,
        mempool: bool,
    ) -> StoreView {
        if output.runes.len() == 0 {
            self
        } else if mempool {
            StoreView {
                mempool_txouts: self.mempool_txouts.remove(OutPoint { txid, vout }),
                ..self
            }
        } else {
            StoreView { txouts: self.txouts.remove(OutPoint { txid, vout }), ..self }
        }
    }

    pub open spec fn unproduce_all(
        self,
        txid: SerializedTxid,
        outputs: Seq<TxOutEntryView>,
        below: nat,
        mempool: bool,
    ) -> StoreView
        decreases below,
    {
        if below == 0 {
            self
        } else {
            self.unproduce(
                txid,
                (below - 1) as u32,
                outputs[below - 1],
                mempool,
            ).unproduce_all(txid, outputs, (below - 1) as nat, mempool)
        }
    }

    /// Whether the counter of a rune holds the mint that is to be taken
    /// off it.
    pub open spec fn unmint_fits(self, rune_id: RuneId, mempool: bool) -> bool {
        self.runes.contains_key(rune_id) ==> (if mempool {
            self.runes[rune_id].pending_mints >= 1
        } else {
            self.runes[rune_id].mints >= 1
        })
    }

    /// Whether the counter of a rune holds the burned amount that is to be
    /// taken off it.
    pub open spec fn unburn_fits(self, burned: RuneAmount, mempool: bool) -> bool {
        self.runes.contains_key(burned.rune_id) ==> (if mempool {
            self.runes[burned.rune_id].pending_burns >= burned.amount
        } else {
            self.runes[burned.rune_id].burned >= burned.amount
        })
    }

    /// Whether the counters hold the burned amounts that are to be taken
    /// off them in turn, the last first.
    pub open spec fn unburn_all_fits(self, burned: Seq<RuneAmount>, mempool: bool) -> bool
        decreases burned.len(),
    {
        burned.len() == 0 || (self.unburn_fits(burned.last(), mempool) && self.unburn(
            burned.last(),
            mempool,
        ).unburn_all_fits(burned.drop_last(), mempool))
    }

    /// Takes one mint off the counter of a rune, if the rune is known. A
    /// counter at zero stays at zero.
    pub open spec fn unmint(self, rune_id: RuneId, mempool: bool) -> StoreView {
        if self.runes.contains_key(rune_id) {
            let entry = self.runes[rune_id];
            StoreView {
                runes: self.runes.insert(
                    rune_id,
                    if mempool {
                        RuneEntry { pending_mints: minus(entry.pending_mints, 1), ..entry }
                    } else {
                        RuneEntry { mints: minus(entry.mints, 1), ..entry }
                    },
                ),
                ..self
            }
        } else {
            self
        }
    }

    /// Takes a burned amount off the counter of a rune, if the rune is
    /// known.
    pub open spec fn unburn(self, burned: RuneAmount, mempool: bool) -> StoreView {
        if self.runes.contains_key(burned.rune_id) {
            let entry = self.runes[burned.rune_id];
            StoreView {
                runes: self.runes.insert(
                    burned.rune_id,
                    if mempool {
                        RuneEntry {
                            pending_burns: minus(entry.pending_burns, burned.amount),
                            ..entry
                        }
                    } else {
                        RuneEntry { burned: minus(entry.burned, burned.amount), ..entry }
                    },
                ),
                ..self
            }
        } else {
            self
        }
    }

    pub open spec fn unburn_all(self, burned: Seq<RuneAmount>, mempool: bool) -> StoreView
        decreases burned.len(),
    {
        if burned.len() == 0 {
            self
        } else {
            self.unburn(burned.last(), mempool).unburn_all(burned.drop_last(), mempool)
        }
    }

    /// Forgets an etched rune: its entry, its name, its number, and one of
    /// the count of runes.
    pub open spec fn unetch(self, rune_id: RuneId, rune: Rune) -> StoreView {
        StoreView {
            rune_count: if self.rune_count > 0 {
                (self.rune_count - 1) as u64
            } else {
                0
            },
            runes: self.runes.remove(rune_id),
            rune_ids: self.rune_ids.remove(rune),
            rune_numbers: if self.runes.contains_key(rune_id) {
                self.rune_numbers.remove(self.runes[rune_id].number)
            } else {
                self.rune_numbers
            },
            ..self
        }
    }

    /// Takes a transaction off the list of a rune; a list that becomes
    /// empty is dropped.
    pub open spec fn untouch(self, rune_id: RuneId, txid: SerializedTxid) -> StoreView {
        let list = drop_txid(list_at(self.rune_transactions, rune_id), txid);
        StoreView {
            rune_transactions: if list.len() == 0 {
                self.rune_transactions.remove(rune_id)
            } else {
                self.rune_transactions.insert(rune_id, list)
            },
            ..self
        }
    }

    pub open spec fn untouch_all(self, ids: Seq<RuneId>, txid: SerializedTxid) -> StoreView
        decreases ids.len(),
    {
        if ids.len() == 0 {
            self
        } else {
            self.untouch(ids.last(), txid).untouch_all(ids.drop_last(), txid)
        }
    }

    /// Forgets the state change of a transaction on the side given.
    pub open spec fn forget(self, txid: SerializedTxid, mempool: bool) -> StoreView {
        if mempool {
            StoreView {
                mempool_tx_state_changes: self.mempool_tx_state_changes.remove(txid),
                ..self
            }
        } else {
            StoreView { tx_state_changes: self.tx_state_changes.remove(txid), ..self }
        }
    }

    /// The store at the point at which the counters are set back: the
    /// transaction has left the lists, its state change is forgotten, its
    /// outputs are deleted and its inputs are unspent.
    pub open spec fn unsettled(
        self,
        txid: SerializedTxid,
        change: TransactionStateChangeView,
        mempool: bool,
    ) -> StoreView {
        self.untouch_all(change.rune_ids(), txid).forget(txid, mempool).unproduce_all(
            txid,
            change.outputs,
            change.outputs.len(),
            mempool,
        ).unspend_all(change.inputs, mempool)
    }

    /// Whether the effect of a transaction can be taken back without a
    /// counter falling below zero: the count of runes holds the rune it
    /// etched, and the counters hold what it minted and burned.
    pub open spec fn revert_fits(
        self,
        txid: SerializedTxid,
        change: TransactionStateChangeView,
        mempool: bool,
    ) -> bool {
        let unspent = self.unsettled(txid, change, mempool);
        let unetched = match change.etched {
            Some((id, rune)) => unspent.unetch(id, rune),
            None => unspent,
        };
        let unminted = match change.minted {
            Some(m) => unetched.unmint(m.rune_id, mempool),
            None => unetched,
        };
        &&& change.etched.is_some() ==> unspent.rune_count > 0
        &&& change.minted.is_some() ==> unetched.unmint_fits(change.minted.unwrap().rune_id, mempool)
        &&& unminted.unburn_all_fits(change.burned, mempool)
    }

    /// The store after the effect of a transaction was taken back: the
    /// steps of applying it are undone in reverse order, and within each
    /// step the last item is undone first. A counter that would fall below
    /// zero stays at zero.
    pub open spec fn revert(
        self,
        txid: SerializedTxid,
        change: TransactionStateChangeView,
        mempool: bool,
    ) -> StoreView {
        let untouched = self.untouch_all(change.rune_ids(), txid).forget(txid, mempool);
        let unproduced = untouched.unproduce_all(
            txid,
            change.outputs,
            change.outputs.len(),
            mempool,
        );
        let unspent = unproduced.unspend_all(change.inputs, mempool);
        let unetched = match change.etched {
            Some((id, rune)) => unspent.unetch(id, rune),
            None => unspent,
        };
        let unminted = match change.minted {
            Some(m) => unetched.unmint(m.rune_id, mempool),
            None => unetched,
        };
        unminted.unburn_all(change.burned, mempool)
    }
}

/// The list without the given transaction.
fn without_txid(list: &Vec<SerializedTxid>, txid: &SerializedTxid) -> (r: Vec<SerializedTxid>)
    ensures
        r@ == drop_txid(list@, *txid),
{
    let mut out: Vec<SerializedTxid> = Vec::new();
    let mut i: usize = 0;
    proof {
        reveal(Seq::filter);
        assert(drop_txid(list@.take(0), *txid) =~= Seq::<SerializedTxid>::empty());
    }
    while i < list.len()
        invariant
            i <= list.len(),
            out@ == drop_txid(list@.take(i as int), *txid),
        decreases list.len() - i,
    {
        proof {
            reveal(Seq::filter);
            assert(list@.take(i + 1).drop_last() =~= list@.take(i as int));
        }
        if list[i] != *txid {
            out.push(list[i]);
        }
        i = i + 1;
    }
    assert(list@.take(list.len() as int) =~= list@);
    out
}

/// Takes the effects of transactions back out of the store.
pub struct Rollback {
    /// Whether the transactions were unconfirmed.
    pub mempool: bool,
}

impl Rollback {
    pub fn new(mempool: bool) -> (r: Self)
        ensures
            r.mempool == mempool,
    {
        Rollback { mempool }
    }

    /// Takes back the spending of an output.
    pub fn unspend(&self, store: &mut Store, outpoint: &OutPoint)
        ensures
            final(store)@ == old(store)@.unspend(*outpoint, self.mempool),
    {
        if self.mempool {
            if store.get_tx_out(outpoint, Some(false)).is_ok() {
                store.delete_tx_out(outpoint, true);
            } else {
                match store.get_tx_out(outpoint, Some(true)) {
                    Ok(entry) => {
                        let mut entry = entry;
                        entry.spent = false;
                        store.set_tx_out(*outpoint, entry, true);
                    },
                    Err(_) => {},
                }
            }
        } else {
            match store.get_tx_out(outpoint, Some(false)) {
                Ok(entry) => {
                    let mut entry = entry;
                    entry.spent = false;
                    store.set_tx_out(*outpoint, entry, false);
                },
                Err(_) => {},
            }
        }
    }

    /// Takes one mint off the counter of a rune, and says whether the
    /// counter held it.
    pub fn unmint(&self, store: &mut Store, rune_id: &RuneId) -> (fits: bool)
        ensures
            final(store)@ == old(store)@.unmint(*rune_id, self.mempool),
            fits == old(store)@.unmint_fits(*rune_id, self.mempool),
    {
        match store.get_rune(rune_id) {
            Ok(entry) => {
                let mut entry = entry;
                let fits = if self.mempool {
                    entry.pending_mints >= 1
                } else {
                    entry.mints >= 1
                };
                if self.mempool {
                    entry.pending_mints = entry.pending_mints.saturating_sub(1);
                } else {
                    entry.mints = entry.mints.saturating_sub(1);
                }
                store.set_rune(*rune_id, entry);
                fits
            },
            Err(_) => true,
        }
    }

    /// Takes a burned amount off the counter of a rune, and says whether
    /// the counter held it.
    pub fn unburn(&self, store: &mut Store, burned: &RuneAmount) -> (fits: bool)
        ensures
            final(store)@ == old(store)@.unburn(*burned, self.mempool),
            fits == old(store)@.unburn_fits(*burned, self.mempool),
    {
        match store.get_rune(&burned.rune_id) {
            Ok(entry) => {
                let mut entry = entry;
                let fits = if self.mempool {
                    entry.pending_burns >= burned.amount
                } else {
                    entry.burned >= burned.amount
                };
                if self.mempool {
                    entry.pending_burns = entry.pending_burns.saturating_sub(burned.amount);
                } else {
                    entry.burned = entry.burned.saturating_sub(burned.amount);
                }
                store.set_rune(burned.rune_id, entry);
                fits
            },
            Err(_) => true,
        }
    }

    /// Forgets an etched rune, and says whether the count of runes held
    /// it.
    pub fn unetch(&self, store: &mut Store, rune_id: &RuneId, rune: &Rune) -> (fits: bool)
        ensures
            final(store)@ == old(store)@.unetch(*rune_id, *rune),
            fits == (old(store)@.rune_count > 0),
    {
        let count = store.get_runes_count();
        store.set_runes_count(count.saturating_sub(1));
        match store.get_rune(rune_id) {
            Ok(entry) => {
                store.delete_rune(rune_id, rune, entry.number);
            },
            Err(_) => {
                store.delete_rune_name(rune_id, rune);
            },
        }
        count > 0
    }

    /// Takes a transaction off the list of a rune.
    pub fn untouch(&self, store: &mut Store, rune_id: &RuneId, txid: &SerializedTxid)
        ensures
            final(store)@ == old(store)@.untouch(*rune_id, *txid),
    {
        let list = store.get_rune_transactions(rune_id);
        let rest = without_txid(&list, txid);
        store.set_rune_transactions(*rune_id, rest);
    }

    /// Takes the effect of a transaction back out of the store: the
    /// transaction leaves the lists of the runes it touched, its state
    /// change is forgotten, the outputs it produced are deleted, the
    /// outputs it consumed are unspent again, the rune it etched is
    /// forgotten, and what it minted and burned leaves the counters. All
    /// of this is done in any case; the result is the error if a counter
    /// would have fallen below zero.
    pub fn revert_transaction(
        &self,
        store: &mut Store,
        txid: &SerializedTxid,
        change: &TransactionStateChange,
    ) -> (r: Result<(), RollbackError>)
        ensures
            final(store)@ == old(store)@.revert(*txid, change@, self.mempool),
            r == (if old(store)@.revert_fits(*txid, change@, self.mempool) {
                Ok::<(), RollbackError>(())
            } else {
                Err::<(), RollbackError>(RollbackError::Overflow)
            }),
    {
        let rune_ids = change.rune_ids();
        let ghost ids = rune_ids@;
        let mut j: usize = rune_ids.len();
        proof {
            assert(ids.take(j as int) =~= ids);
        }
        while j > 0
            invariant
                j <= rune_ids.len(),
                ids == rune_ids@,
                old(store)@.untouch_all(ids, *txid) == store@.untouch_all(ids.take(j as int), *txid),
            decreases j,
        {
            j = j - 1;
            proof {
                assert(ids.take(j + 1).last() == ids[j as int]);
                assert(ids.take(j + 1).drop_last() =~= ids.take(j as int));
            }
            self.untouch(store, &rune_ids[j], txid);
        }
        store.delete_tx_state_changes(txid, self.mempool);
        let ghost untouched = store@;
        let ghost outputs = change@.outputs;
        let mut vout: usize = change.outputs.len();
        while vout > 0
            invariant
                vout <= change.outputs.len(),
                outputs == change@.outputs,
                untouched.unproduce_all(*txid, outputs, outputs.len(), self.mempool)
                    == store@.unproduce_all(*txid, outputs, vout as nat, self.mempool),
            decreases vout,
        {
            vout = vout - 1;
            proof {
                assert(outputs[vout as int] == change.outputs@[vout as int]@);
            }
            if change.outputs[vout].runes.len() > 0 {
                let outpoint = OutPoint { txid: *txid, vout: #[verifier::truncate] (vout as u32) };
                store.delete_tx_out(&outpoint, self.mempool);
            }
        }
        let ghost unproduced = store@;
        let ghost inputs = change@.inputs;
        let mut k: usize = change.inputs.len();
        proof {
            assert(inputs.take(k as int) =~= inputs);
        }
        while k > 0
            invariant
                k <= change.inputs.len(),
                inputs == change@.inputs,
                unproduced.unspend_all(inputs, self.mempool) == store@.unspend_all(
                    inputs.take(k as int),
                    self.mempool,
                ),
            decreases k,
        {
            k = k - 1;
            proof {
                assert(inputs.take(k + 1).last() == inputs[k as int]);
                assert(inputs.take(k + 1).drop_last() =~= inputs.take(k as int));
                assert(inputs[k as int].outpoint == change.inputs@[k as int].outpoint);
            }
            self.unspend(store, &change.inputs[k].outpoint);
        }
        proof {
            assert(store@ == old(store)@.unsettled(*txid, change@, self.mempool));
        }
        let etch_fits = match change.etched {
            Some((id, rune)) => self.unetch(store, &id, &rune),
            None => true,
        };
        let mint_fits = match change.minted {
            Some(m) => self.unmint(store, &m.rune_id),
            None => true,
        };
        let mut burn_fits = true;
        let ghost unminted = store@;
        let ghost burned = change@.burned;
        let mut i: usize = change.burned.len();
        proof {
            assert(burned.take(i as int) =~= burned);
        }
        while i > 0
            invariant
                i <= change.burned.len(),
                burned == change@.burned,
                unminted.unburn_all(burned, self.mempool) == store@.unburn_all(
                    burned.take(i as int),
                    self.mempool,
                ),
                unminted.unburn_all_fits(burned, self.mempool) == (burn_fits
                    && store@.unburn_all_fits(burned.take(i as int), self.mempool)),
            decreases i,
        {
            i = i - 1;
            proof {
                assert(burned.take(i + 1).last() == burned[i as int]);
                assert(burned.take(i + 1).drop_last() =~= burned.take(i as int));
            }
            let fits = self.unburn(store, &change.burned[i]);
            burn_fits = burn_fits && fits;
        }
        if etch_fits && mint_fits && burn_fits {
            Ok(())
        } else {
            Err(RollbackError::Overflow)
        }
    }
}

} // verus!
