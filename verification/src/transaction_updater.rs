use crate::artifact::{view_of, Artifact, ArtifactView, Transaction};
use crate::cache::{CacheView, UpdaterCache};
use crate::events::{Event, EventView};
use crate::ids::{OutPoint, SerializedTxid};
use crate::model::{
    InscriptionId, RuneEntry, SpentInputView, TransactionStateChange, TransactionStateChangeView,
    TxOutEntry, TxOutEntryView,
};
use crate::rune::Rune;
use crate::rune_amount::RuneAmount;
use crate::rune_id::RuneId;
use crate::spaced_rune::SpacedRune;
use crate::store::{list_at, BatchUpdateView, StoreError, StoreView, StoreWithLock};
use vstd::prelude::*;

verus! {

/// The counter that would have left its range.
#[derive(Debug, PartialEq, Copy, Clone, Eq, Structural)]
pub enum Counter {
    Mints,
    Burn,
    Runes,
}

/// Why a state change could not be applied.
#[derive(Debug, PartialEq, Copy, Clone, Eq, Structural)]
pub enum TransactionUpdaterError {
    /// The store failed, or holds no entry for a rune that the state
    /// change mints or burns.
    Store(StoreError),
    /// A counter would overflow.
    Overflow(Counter),
    /// The state change etches a rune, but the transaction holds no
    /// message that does.
    NoArtifactFound(SerializedTxid),
}

impl TransactionUpdaterError {
    pub open spec fn spec_message(self) -> Seq<char> {
        match self {
            TransactionUpdaterError::Store(_) => "store error"@,
            TransactionUpdaterError::Overflow(Counter::Mints) => "overflow in mints"@,
            TransactionUpdaterError::Overflow(Counter::Burn) => "overflow in burn"@,
            TransactionUpdaterError::Overflow(Counter::Runes) => "overflow in runes"@,
            TransactionUpdaterError::NoArtifactFound(_) => "no artifact found"@,
        }
    }

    pub fn to_string(&self) -> (s: String)
        ensures
            s@ == self.spec_message(),
    {
        match self {
            TransactionUpdaterError::Store(_) => "store error".to_owned(),
            TransactionUpdaterError::Overflow(Counter::Mints) => "overflow in mints".to_owned(),
            TransactionUpdaterError::Overflow(Counter::Burn) => "overflow in burn".to_owned(),
            TransactionUpdaterError::Overflow(Counter::Runes) => "overflow in runes".to_owned(),
            TransactionUpdaterError::NoArtifactFound(_) => "no artifact found".to_owned(),
        }
    }
}

/// A state reached, and the error that stopped the work there, if any.
pub type Outcome = (CacheView, Option<TransactionUpdaterError>);

/// The identifiers of a sequence without repetitions: each is kept where
/// it first occurs.
pub open spec fn distinct(ids: Seq<RuneId>) -> Seq<RuneId>
    decreases ids.len(),
{
    if ids.len() == 0 {
        Seq::empty()
    } else {
        let before = distinct(ids.drop_last());
        if before.contains(ids.last()) {
            before
        } else {
            before.push(ids.last())
        }
    }
}

/// The runes of a sequence of amounts.
pub open spec fn ids_of(amounts: Seq<RuneAmount>) -> Seq<RuneId> {
    Seq::new(amounts.len(), |i: int| amounts[i].rune_id)
}

/// The runes of the first `n` consumed inputs, in order.
pub open spec fn input_ids(inputs: Seq<SpentInputView>, n: nat) -> Seq<RuneId>
    recommends
        n <= inputs.len(),
    decreases n,
{
    if n == 0 {
        Seq::empty()
    } else {
        input_ids(inputs, (n - 1) as nat) + ids_of(inputs[n - 1].runes)
    }
}

/// The runes of the first `n` produced outputs, in order.
pub open spec fn output_ids(outputs: Seq<TxOutEntryView>, n: nat) -> Seq<RuneId>
    recommends
        n <= outputs.len(),
    decreases n,
{
    if n == 0 {
        Seq::empty()
    } else {
        output_ids(outputs, (n - 1) as nat) + ids_of(outputs[n - 1].runes)
    }
}

impl TransactionStateChangeView {
    /// Every rune that the transaction touched, with repetitions: those of
    /// its inputs, those of its outputs, the etched, the minted and the
    /// burned ones.
    pub open spec fn all_rune_ids(self) -> Seq<RuneId> {
        input_ids(self.inputs, self.inputs.len()) + output_ids(self.outputs, self.outputs.len())
            + (match self.etched {
            Some((id, _)) => seq![id],
            None => Seq::empty(),
        }) + (match self.minted {
            Some(m) => seq![m.rune_id],
            None => Seq::empty(),
        }) + ids_of(self.burned)
    }

    /// The runes that the transaction touched, each once, in the order in
    /// which they first occur.
    pub open spec fn rune_ids(self) -> Seq<RuneId> {
        distinct(self.all_rune_ids())
    }
}

/// Whether the list holds the identifier.
fn holds_id(list: &Vec<RuneId>, id: &RuneId) -> (r: bool)
    ensures
        r == list@.contains(*id),
{
    let mut i: usize = 0;
    while i < list.len()
        invariant
            i <= list.len(),
            forall|j: int| 0 <= j < i ==> list@[j] != *id,
        decreases list.len() - i,
    {
        if list[i] == *id {
            return true;
        }
        i = i + 1;
    }
    false
}

/// Adds the runes of the amounts to the list that gathers the touched
/// runes.
fn gather(all: &mut Vec<RuneId>, seen: &mut Vec<RuneId>, amounts: &Vec<RuneAmount>)
    requires
        old(seen)@ == distinct(old(all)@),
    ensures
        final(all)@ == old(all)@ + ids_of(amounts@),
        final(seen)@ == distinct(final(all)@),
{
    let mut i: usize = 0;
    proof {
        assert(old(all)@ + ids_of(amounts@).take(0) =~= old(all)@);
    }
    while i < amounts.len()
        invariant
            i <= amounts.len(),
            all@ == old(all)@ + ids_of(amounts@).take(i as int),
            seen@ == distinct(all@),
        decreases amounts.len() - i,
    {
        let id = amounts[i].rune_id;
        proof {
            assert(ids_of(amounts@).take(i + 1) =~= ids_of(amounts@).take(i as int).push(id));
            assert((all@.push(id)).drop_last() =~= all@);
            assert(old(all)@ + ids_of(amounts@).take(i + 1) =~= all@.push(id));
        }
        all.push(id);
        if !holds_id(seen, &id) {
            seen.push(id);
        }
        i = i + 1;
    }
    proof {
        assert(ids_of(amounts@).take(amounts.len() as int) =~= ids_of(amounts@));
    }
}

/// Adds one rune to the list that gathers the touched runes.
fn gather_one(all: &mut Vec<RuneId>, seen: &mut Vec<RuneId>, id: RuneId)
    requires
        old(seen)@ == distinct(old(all)@),
    ensures
        final(all)@ == old(all)@ + seq![id],
        final(seen)@ == distinct(final(all)@),
{
    proof {
        assert((old(all)@.push(id)).drop_last() =~= old(all)@);
        assert(old(all)@ + seq![id] =~= old(all)@.push(id));
    }
    all.push(id);
    if !holds_id(seen, &id) {
        seen.push(id);
    }
}

impl TransactionStateChange {
    /// The runes that the transaction touched, each once.
    pub fn rune_ids(&self) -> (r: Vec<RuneId>)
        ensures
            r@ == self@.rune_ids(),
    {
        let mut all: Vec<RuneId> = Vec::new();
        let mut seen: Vec<RuneId> = Vec::new();
        let mut i: usize = 0;
        while i < self.inputs.len()
            invariant
                i <= self.inputs.len(),
                all@ == input_ids(self@.inputs, i as nat),
                seen@ == distinct(all@),
            decreases self.inputs.len() - i,
        {
            proof {
                assert(self@.inputs[i as int].runes == self.inputs@[i as int].runes@);
            }
            gather(&mut all, &mut seen, &self.inputs[i].runes);
            i = i + 1;
        }
        let ghost from_inputs = all@;
        let mut k: usize = 0;
        proof {
            assert(from_inputs + output_ids(self@.outputs, 0) =~= from_inputs);
        }
        while k < self.outputs.len()
            invariant
                k <= self.outputs.len(),
                from_inputs == input_ids(self@.inputs, self@.inputs.len()),
                all@ == from_inputs + output_ids(self@.outputs, k as nat),
                seen@ == distinct(all@),
            decreases self.outputs.len() - k,
        {
            proof {
                assert(self@.outputs[k as int].runes == self.outputs@[k as int].runes@);
                assert(from_inputs + output_ids(self@.outputs, (k + 1) as nat) =~= (from_inputs
                    + output_ids(self@.outputs, k as nat)) + ids_of(self@.outputs[k as int].runes));
            }
            gather(&mut all, &mut seen, &self.outputs[k].runes);
            k = k + 1;
        }
        match self.etched {
            Some((id, _)) => {
                gather_one(&mut all, &mut seen, id);
            },
            None => {
                assert(all@ + Seq::<RuneId>::empty() =~= all@);
            },
        }
        match self.minted {
            Some(m) => {
                gather_one(&mut all, &mut seen, m.rune_id);
            },
            None => {
                assert(all@ + Seq::<RuneId>::empty() =~= all@);
            },
        }
        gather(&mut all, &mut seen, &self.burned);
        seen
    }
}

/// The entry of a rune that has just been etched. A malformed message
/// etches a rune without properties; a well-formed one gives it those of
/// its etching. Nothing if the message etches no rune.
pub open spec fn etched_entry(
    artifact: ArtifactView,
    id: RuneId,
    rune: Rune,
    txid: SerializedTxid,
    number: u64,
    block_time: u32,
    icon: Option<InscriptionId>,
) -> Option<RuneEntry> {
    match artifact {
        ArtifactView::Cenotaph(_) => Some(
            RuneEntry {
                block: id.block,
                burned: 0,
                divisibility: 0,
                etching: txid,
                terms: None,
                mints: 0,
                number,
                premine: 0,
                spaced_rune: SpacedRune { rune, spacers: 0 },
                symbol: None,
                pending_burns: 0,
                pending_mints: 0,
                inscription_id: icon,
                timestamp: block_time as u64,
                turbo: false,
            },
        ),
        ArtifactView::Runestone(stone) => match stone.etching {
            None => None,
            Some(etching) => Some(
                RuneEntry {
                    block: id.block,
                    burned: 0,
                    divisibility: etching.divisibility.unwrap_or(0),
                    etching: txid,
                    terms: etching.terms,
                    mints: 0,
                    number,
                    premine: etching.premine.unwrap_or(0),
                    spaced_rune: SpacedRune { rune, spacers: etching.spacers.unwrap_or(0) },
                    symbol: etching.symbol,
                    pending_burns: 0,
                    pending_mints: 0,
                    inscription_id: icon,
                    timestamp: block_time as u64,
                    turbo: etching.turbo,
                },
            ),
        },
    }
}

/// The events that tell of the balances of a new output, in their order.
pub open spec fn transfer_events(
    runes: Seq<RuneAmount>,
    height: u32,
    txid: SerializedTxid,
    outpoint: OutPoint,
    mempool: bool,
) -> Seq<EventView> {
    Seq::new(
        runes.len(),
        |i: int|
            EventView::RuneTransferred {
                block_height: height,
                txid,
                outpoint,
                rune_id: runes[i].rune_id,
                amount: runes[i].amount,
                in_mempool: mempool,
            },
    )
}

impl CacheView {
    pub open spec fn with_rune(self, id: RuneId, entry: RuneEntry) -> CacheView {
        CacheView {
            update: BatchUpdateView { runes: self.update.runes.insert(id, entry), ..self.update },
            ..self
        }
    }

    pub open spec fn with_tx_out(self, outpoint: OutPoint, entry: TxOutEntryView) -> CacheView {
        CacheView {
            update: BatchUpdateView {
                txouts: self.update.txouts.insert(outpoint, entry),
                ..self.update
            },
            ..self
        }
    }

    pub open spec fn with_event(self, event: EventView) -> CacheView {
        CacheView { events: self.events.push(event), ..self }
    }

    pub open spec fn with_events(self, events: Seq<EventView>) -> CacheView {
        CacheView { events: self.events + events, ..self }
    }

    /// Adds a burned amount to the counter of a rune: to `burned`, or, for
    /// the mempool, to `pending_burns`.
    pub open spec fn burn(
        self,
        db: StoreView,
        height: u32,
        txid: SerializedTxid,
        burned: RuneAmount,
        mempool: bool,
    ) -> Outcome {
        match self.rune(db, burned.rune_id) {
            None => (self, Some(TransactionUpdaterError::Store(StoreError::NotFound))),
            Some(entry) => {
                let counter = if mempool {
                    entry.pending_burns
                } else {
                    entry.burned
                };
                if counter + burned.amount > u128::MAX {
                    (self, Some(TransactionUpdaterError::Overflow(Counter::Burn)))
                } else {
                    let sum = (counter + burned.amount) as u128;
                    let entry = if mempool {
                        RuneEntry { pending_burns: sum, ..entry }
                    } else {
                        RuneEntry { burned: sum, ..entry }
                    };
                    (
                        self.with_rune(burned.rune_id, entry).with_event(
                            EventView::RuneBurned {
                                block_height: height,
                                txid,
                                rune_id: burned.rune_id,
                                amount: burned.amount,
                                in_mempool: mempool,
                            },
                        ),
                        None,
                    )
                }
            },
        }
    }

    /// Burns the amounts in turn, up to the first that fails.
    pub open spec fn burn_all(
        self,
        db: StoreView,
        height: u32,
        txid: SerializedTxid,
        burned: Seq<RuneAmount>,
        mempool: bool,
    ) -> Outcome
        decreases burned.len(),
    {
        if burned.len() == 0 {
            (self, None)
        } else {
            let (next, err) = self.burn(db, height, txid, burned[0], mempool);
            if err.is_some() {
                (next, err)
            } else {
                next.burn_all(db, height, txid, burned.skip(1), mempool)
            }
        }
    }

    /// Counts one mint of a rune: in `mints`, or, for the mempool, in
    /// `pending_mints`.
    pub open spec fn mint(
        self,
        db: StoreView,
        height: u32,
        txid: SerializedTxid,
        minted: RuneAmount,
        mempool: bool,
    ) -> Outcome {
        match self.rune(db, minted.rune_id) {
            None => (self, Some(TransactionUpdaterError::Store(StoreError::NotFound))),
            Some(entry) => {
                let counter = if mempool {
                    entry.pending_mints
                } else {
                    entry.mints
                };
                if counter == u128::MAX {
                    (self, Some(TransactionUpdaterError::Overflow(Counter::Mints)))
                } else {
                    let sum = (counter + 1) as u128;
                    let entry = if mempool {
                        RuneEntry { pending_mints: sum, ..entry }
                    } else {
                        RuneEntry { mints: sum, ..entry }
                    };
                    (
                        self.with_rune(minted.rune_id, entry).with_event(
                            EventView::RuneMinted {
                                block_height: height,
                                txid,
                                rune_id: minted.rune_id,
                                amount: minted.amount,
                                in_mempool: mempool,
                            },
                        ),
                        None,
                    )
                }
            },
        }
    }

    /// Records a newly etched rune: the count of runes goes up by one and
    /// becomes the number of the rune; the entry, the number and the name
    /// of the rune are staged.
    pub open spec fn etch(
        self,
        block_time: u32,
        height: u32,
        txid: SerializedTxid,
        id: RuneId,
        rune: Rune,
        artifact: Option<ArtifactView>,
        icon: Option<InscriptionId>,
        mempool: bool,
    ) -> Outcome {
        if artifact.is_none() {
            (self, Some(TransactionUpdaterError::NoArtifactFound(txid)))
        } else if self.update.rune_count == u64::MAX {
            (self, Some(TransactionUpdaterError::Overflow(Counter::Runes)))
        } else {
            let number = (self.update.rune_count + 1) as u64;
            match etched_entry(artifact.unwrap(), id, rune, txid, number, block_time, icon) {
                None => (self, Some(TransactionUpdaterError::NoArtifactFound(txid))),
                Some(entry) => (
                    CacheView {
                        update: BatchUpdateView {
                            rune_count: number,
                            runes: self.update.runes.insert(id, entry),
                            rune_numbers: self.update.rune_numbers.insert(number, id),
                            rune_ids: self.update.rune_ids.insert(rune, id),
                            ..self.update
                        },
                        events: self.events.push(
                            EventView::RuneEtched {
                                block_height: height,
                                txid,
                                rune_id: id,
                                in_mempool: mempool,
                            },
                        ),
                        ..self
                    },
                    None,
                ),
            }
        }
    }

    /// Marks an output as spent, if it is known.
    pub open spec fn spend(self, db: StoreView, outpoint: OutPoint) -> CacheView {
        match self.tx_out(db, outpoint) {
            Some(entry) => self.with_tx_out(outpoint, TxOutEntryView { spent: true, ..entry }),
            None => self,
        }
    }

    /// Marks the consumed outputs as spent, in turn.
    pub open spec fn spend_all(self, db: StoreView, inputs: Seq<SpentInputView>) -> CacheView
        decreases inputs.len(),
    {
        if inputs.len() == 0 {
            self
        } else {
            self.spend(db, inputs[0].outpoint).spend_all(db, inputs.skip(1))
        }
    }

    /// Stages a produced output that holds runes, and tells of each of its
    /// balances.
    pub open spec fn produce(
        self,
        height: u32,
        txid: SerializedTxid,
        vout: u32,
        output: TxOutEntryView,
        mempool: bool,
    ) -> CacheView {
        if output.runes.len() == 0 {
            self
        } else {
            let outpoint = OutPoint { txid, vout };
            self.with_tx_out(outpoint, output).with_events(
                transfer_events(output.runes, height, txid, outpoint, mempool),
            )
        }
    }

    /// Stages the produced outputs from index `from` on, in turn.
    pub open spec fn produce_all(
        self,
        height: u32,
        txid: SerializedTxid,
        outputs: Seq<TxOutEntryView>,
        from: nat,
        mempool: bool,
    ) -> CacheView
        decreases outputs.len() - from,
    {
        if from >= outputs.len() {
            self
        } else {
            self.produce(height, txid, from as u32, outputs[from as int], mempool).produce_all(
                height,
                txid,
                outputs,
                from + 1,
                mempool,
            )
        }
    }

    /// Appends the transaction to the list of a rune.
    pub open spec fn touch(self, id: RuneId, txid: SerializedTxid) -> CacheView {
        CacheView {
            update: BatchUpdateView {
                rune_transactions: self.update.rune_transactions.insert(
                    id,
                    list_at(self.update.rune_transactions, id).push(txid),
                ),
                ..self.update
            },
            ..self
        }
    }

    /// Appends the transaction to the lists of the runes, in turn.
    pub open spec fn touch_all(self, ids: Seq<RuneId>, txid: SerializedTxid) -> CacheView
        decreases ids.len(),
    {
        if ids.len() == 0 {
            self
        } else {
            self.touch(ids[0], txid).touch_all(ids.skip(1), txid)
        }
    }

    /// What is left to do once counters and etching are done: spend the
    /// inputs, stage the outputs, record the state change, and note the
    /// transaction with each rune it touched.
    pub open spec fn settle(
        self,
        db: StoreView,
        height: u32,
        txid: SerializedTxid,
        change: TransactionStateChangeView,
        mempool: bool,
    ) -> CacheView {
        let spent = self.spend_all(db, change.inputs);
        let produced = spent.produce_all(height, txid, change.outputs, 0, mempool);
        let recorded = CacheView {
            update: BatchUpdateView {
                tx_state_changes: produced.update.tx_state_changes.insert(txid, change),
                ..produced.update
            },
            ..produced
        };
        recorded.touch_all(change.rune_ids(), txid)
    }

    /// The cache after the state change of a transaction was applied, or
    /// the state in which the first error stopped the work. The steps are:
    /// burn, mint, etch, then settle.
    #[verifier::opaque]
    pub open spec fn save(
        self,
        db: StoreView,
        block_time: u32,
        height: u32,
        txid: SerializedTxid,
        artifact: Option<ArtifactView>,
        change: TransactionStateChangeView,
        icon: Option<InscriptionId>,
        mempool: bool,
    ) -> Outcome {
        let (burned, e1) = self.burn_all(db, height, txid, change.burned, mempool);
        if e1.is_some() {
            (burned, e1)
        } else {
            let (minted, e2) = match change.minted {
                Some(m) => burned.mint(db, height, txid, m, mempool),
                None => (burned, None),
            };
            if e2.is_some() {
                (minted, e2)
            } else {
                let (etched, e3) = match change.etched {
                    Some((id, rune)) => minted.etch(
                        block_time,
                        height,
                        txid,
                        id,
                        rune,
                        artifact,
                        icon,
                        mempool,
                    ),
                    None => (minted, None),
                };
                if e3.is_some() {
                    (etched, e3)
                } else {
                    (etched.settle(db, height, txid, change, mempool), None)
                }
            }
        }
    }
}

/// Applies the state changes of transactions to the cache.
pub struct TransactionUpdater {
    /// Whether the transactions are unconfirmed.
    pub mempool: bool,
}

impl TransactionUpdater {
    pub fn new(mempool: bool) -> (r: Self)
        ensures
            r.mempool == mempool,
    {
        Self { mempool }
    }

    /// Marks a consumed output as spent, if it is known.
    pub fn update_spendable_input(
        &self,
        cache: &mut UpdaterCache,
        db: &StoreWithLock,
        outpoint: &OutPoint,
    )
        ensures
            final(cache)@ == old(cache)@.spend(db@, *outpoint),
    {
        match cache.get_tx_out(db, outpoint) {
            Ok(tx_out) => {
                let mut tx_out = tx_out;
                tx_out.spent = true;
                cache.set_tx_out(*outpoint, tx_out);
            },
            Err(_) => {},
        }
    }

    /// Counts one mint of a rune.
    pub fn update_mints(&self, cache: &mut UpdaterCache, db: &StoreWithLock, rune_id: &RuneId) -> (r:
        Result<(), TransactionUpdaterError>)
        ensures
            match old(cache)@.rune(db@, *rune_id) {
                None => r == Err::<(), TransactionUpdaterError>(
                    TransactionUpdaterError::Store(StoreError::NotFound),
                ) && final(cache)@ == old(cache)@,
                Some(entry) => {
                    let counter = if self.mempool {
                        entry.pending_mints
                    } else {
                        entry.mints
                    };
                    if counter == u128::MAX {
                        r == Err::<(), TransactionUpdaterError>(
                            TransactionUpdaterError::Overflow(Counter::Mints),
                        ) && final(cache)@ == old(cache)@
                    } else {
                        r.is_ok() && final(cache)@ == old(cache)@.with_rune(
                            *rune_id,
                            if self.mempool {
                                RuneEntry { pending_mints: (counter + 1) as u128, ..entry }
                            } else {
                                RuneEntry { mints: (counter + 1) as u128, ..entry }
                            },
                        )
                    }
                },
            },
    {
        let mut rune_entry = match cache.get_rune(db, rune_id) {
            Ok(e) => e,
            Err(e) => {
                return Err(TransactionUpdaterError::Store(e));
            },
        };
        if self.mempool {
            match rune_entry.pending_mints.checked_add(1) {
                Some(n) => {
                    rune_entry.pending_mints = n;
                },
                None => {
                    return Err(TransactionUpdaterError::Overflow(Counter::Mints));
                },
            }
        } else {
            match rune_entry.mints.checked_add(1) {
                Some(n) => {
                    rune_entry.mints = n;
                },
                None => {
                    return Err(TransactionUpdaterError::Overflow(Counter::Mints));
                },
            }
        }
        cache.set_rune(*rune_id, rune_entry);
        Ok(())
    }

    /// Adds a burned amount to the counter of a rune.
    pub fn update_burn_balance(
        &self,
        cache: &mut UpdaterCache,
        db: &StoreWithLock,
        rune_id: &RuneId,
        amount: u128,
    ) -> (r: Result<(), TransactionUpdaterError>)
        ensures
            match old(cache)@.rune(db@, *rune_id) {
                None => r == Err::<(), TransactionUpdaterError>(
                    TransactionUpdaterError::Store(StoreError::NotFound),
                ) && final(cache)@ == old(cache)@,
                Some(entry) => {
                    let counter = if self.mempool {
                        entry.pending_burns
                    } else {
                        entry.burned
                    };
                    if counter + amount > u128::MAX {
                        r == Err::<(), TransactionUpdaterError>(
                            TransactionUpdaterError::Overflow(Counter::Burn),
                        ) && final(cache)@ == old(cache)@
                    } else {
                        r.is_ok() && final(cache)@ == old(cache)@.with_rune(
                            *rune_id,
                            if self.mempool {
                                RuneEntry { pending_burns: (counter + amount) as u128, ..entry }
                            } else {
                                RuneEntry { burned: (counter + amount) as u128, ..entry }
                            },
                        )
                    }
                },
            },
    {
        let mut rune_entry = match cache.get_rune(db, rune_id) {
            Ok(e) => e,
            Err(e) => {
                return Err(TransactionUpdaterError::Store(e));
            },
        };
        if self.mempool {
            match rune_entry.pending_burns.checked_add(amount) {
                Some(n) => {
                    rune_entry.pending_burns = n;
                },
                None => {
                    return Err(TransactionUpdaterError::Overflow(Counter::Burn));
                },
            }
        } else {
            match rune_entry.burned.checked_add(amount) {
                Some(n) => {
                    rune_entry.burned = n;
                },
                None => {
                    return Err(TransactionUpdaterError::Overflow(Counter::Burn));
                },
            }
        }
        cache.set_rune(*rune_id, rune_entry);
        Ok(())
    }

    /// Burns an amount of a rune and tells of it.
    pub fn burn_rune(
        &self,
        cache: &mut UpdaterCache,
        db: &StoreWithLock,
        height: u32,
        txid: SerializedTxid,
        rune_id: &RuneId,
        amount: u128,
    ) -> (r: Result<(), TransactionUpdaterError>)
        ensures
            final(cache)@ == old(cache)@.burn(
                db@,
                height,
                txid,
                RuneAmount { rune_id: *rune_id, amount },
                self.mempool,
            ).0,
            match old(cache)@.burn(
                db@,
                height,
                txid,
                RuneAmount { rune_id: *rune_id, amount },
                self.mempool,
            ).1 {
                None => r.is_ok(),
                Some(e) => r == Err::<(), TransactionUpdaterError>(e),
            },
    {
        match self.update_burn_balance(cache, db, rune_id, amount) {
            Ok(()) => {},
            Err(e) => {
                return Err(e);
            },
        }
        cache.add_event(
            Event::RuneBurned {
                block_height: height,
                txid,
                amount,
                rune_id: *rune_id,
                in_mempool: self.mempool,
            },
        );
        Ok(())
    }

    /// Counts a mint of a rune and tells of it.
    pub fn mint_rune(
        &self,
        cache: &mut UpdaterCache,
        db: &StoreWithLock,
        height: u32,
        txid: SerializedTxid,
        rune_id: &RuneId,
        amount: u128,
    ) -> (r: Result<(), TransactionUpdaterError>)
        ensures
            final(cache)@ == old(cache)@.mint(
                db@,
                height,
                txid,
                RuneAmount { rune_id: *rune_id, amount },
                self.mempool,
            ).0,
            match old(cache)@.mint(
                db@,
                height,
                txid,
                RuneAmount { rune_id: *rune_id, amount },
                self.mempool,
            ).1 {
                None => r.is_ok(),
                Some(e) => r == Err::<(), TransactionUpdaterError>(e),
            },
    {
        match self.update_mints(cache, db, rune_id) {
            Ok(()) => {},
            Err(e) => {
                return Err(e);
            },
        }
        cache.add_event(
            Event::RuneMinted {
                block_height: height,
                txid,
                amount,
                rune_id: *rune_id,
                in_mempool: self.mempool,
            },
        );
        Ok(())
    }

    /// Records a newly etched rune with its name and its number, and
    /// tells of it.
    pub fn create_rune_entry(
        &self,
        cache: &mut UpdaterCache,
        block_time: u32,
        height: u32,
        txid: SerializedTxid,
        id: RuneId,
        rune: Rune,
        artifact: &Artifact,
        icon: Option<InscriptionId>,
    ) -> (r: Result<(), TransactionUpdaterError>)
        ensures
            final(cache)@ == old(cache)@.etch(
                block_time,
                height,
                txid,
                id,
                rune,
                Some(artifact@),
                icon,
                self.mempool,
            ).0,
            match old(cache)@.etch(
                block_time,
                height,
                txid,
                id,
                rune,
                Some(artifact@),
                icon,
                self.mempool,
            ).1 {
                None => r.is_ok(),
                Some(e) => r == Err::<(), TransactionUpdaterError>(e),
            },
    {
        if cache.get_runes_count() == u64::MAX {
            return Err(TransactionUpdaterError::Overflow(Counter::Runes));
        }
        let number: u64 = cache.get_runes_count() + 1;
        let entry = match artifact {
            Artifact::Cenotaph(_) => RuneEntry {
                block: id.block,
                burned: 0,
                divisibility: 0,
                etching: txid,
                terms: None,
                mints: 0,
                number,
                premine: 0,
                spaced_rune: SpacedRune { rune, spacers: 0 },
                symbol: None,
                pending_burns: 0,
                pending_mints: 0,
                inscription_id: icon,
                timestamp: block_time as u64,
                turbo: false,
            },
            Artifact::Runestone(stone) => {
                let etching = match stone.etching {
                    Some(e) => e,
                    None => {
                        return Err(TransactionUpdaterError::NoArtifactFound(txid));
                    },
                };
                RuneEntry {
                    block: id.block,
                    burned: 0,
                    divisibility: match etching.divisibility {
                        Some(d) => d,
                        None => 0,
                    },
                    etching: txid,
                    terms: etching.terms,
                    mints: 0,
                    number,
                    premine: match etching.premine {
                        Some(p) => p,
                        None => 0,
                    },
                    spaced_rune: SpacedRune {
                        rune,
                        spacers: match etching.spacers {
                            Some(s) => s,
                            None => 0,
                        },
                    },
                    symbol: etching.symbol,
                    pending_burns: 0,
                    pending_mints: 0,
                    inscription_id: icon,
                    timestamp: block_time as u64,
                    turbo: etching.turbo,
                }
            },
        };
        cache.increment_runes_count();
        cache.set_rune(id, entry);
        cache.set_rune_id_number(number, id);
        cache.set_rune_id(rune, id);
        cache.add_event(
            Event::RuneEtched { block_height: height, txid, rune_id: id, in_mempool: self.mempool },
        );
        Ok(())
    }

    /// Stages a produced output with its events.
    pub fn create_output(
        &self,
        cache: &mut UpdaterCache,
        height: u32,
        txid: SerializedTxid,
        vout: u32,
        output: &TxOutEntry,
    )
        ensures
            final(cache)@ == old(cache)@.produce(height, txid, vout, output@, self.mempool),
    {
        if output.runes.len() == 0 {
            return ;
        }
        let outpoint = OutPoint { txid, vout };
        cache.set_tx_out(outpoint, output.clone());
        let ghost staged = cache@;
        let ghost events = transfer_events(output@.runes, height, txid, outpoint, self.mempool);
        let mut i: usize = 0;
        proof {
            assert(staged.with_events(events.take(0)) =~= staged) by {
                assert(staged.events + events.take(0) =~= staged.events);
            }
        }
        while i < output.runes.len()
            invariant
                i <= output.runes.len(),
                events == transfer_events(output@.runes, height, txid, outpoint, self.mempool),
                cache@ == staged.with_events(events.take(i as int)),
            decreases output.runes.len() - i,
        {
            let rune_amount = output.runes[i];
            proof {
                assert(staged.events + events.take(i + 1) =~= (staged.events + events.take(
                    i as int,
                )).push(events[i as int]));
            }
            cache.add_event(
                Event::RuneTransferred {
                    block_height: height,
                    txid,
                    outpoint,
                    rune_id: rune_amount.rune_id,
                    amount: rune_amount.amount,
                    in_mempool: self.mempool,
                },
            );
            i = i + 1;
        }
        proof {
            assert(events.take(output.runes.len() as int) =~= events);
        }
    }

    /// Applies the state change of a transaction to the cache: counts what
    /// it burned and minted, records the rune it etched, marks its inputs
    /// as spent, stages its outputs, records the state change, and notes
    /// the transaction with every rune it touched. An event is gathered
    /// for each of these effects. An error stops the work where it occurs.
    pub fn save(
        &self,
        cache: &mut UpdaterCache,
        db: &StoreWithLock,
        block_time: u32,
        height: u32,
        txid: SerializedTxid,
        transaction: &Transaction,
        transaction_state_change: &TransactionStateChange,
        icon: Option<InscriptionId>,
    ) -> (r: Result<(), TransactionUpdaterError>)
        requires
            transaction_state_change.outputs.len() <= u32::MAX,
            transaction.outputs@.len() <= u32::MAX,
        ensures
            final(cache)@ == old(cache)@.save(
                db@,
                block_time,
                height,
                txid,
                if transaction_state_change@.etched.is_some() {
                    crate::artifact::deciphered(transaction@.scripts)
                } else {
                    None
                },
                transaction_state_change@,
                icon,
                self.mempool,
            ).0,
            match old(cache)@.save(
                db@,
                block_time,
                height,
                txid,
                if transaction_state_change@.etched.is_some() {
                    crate::artifact::deciphered(transaction@.scripts)
                } else {
                    None
                },
                transaction_state_change@,
                icon,
                self.mempool,
            ).1 {
                None => r.is_ok(),
                Some(e) => r == Err::<(), TransactionUpdaterError>(e),
            },
    {
        let artifact = if transaction_state_change.etched.is_some() {
            transaction.decipher()
        } else {
            None
        };
        self.save_with(
            cache,
            db,
            block_time,
            height,
            txid,
            &artifact,
            transaction_state_change,
            icon,
        )
    }

    /// Applies the state change of a transaction to the cache, given the
    /// message that the transaction holds.
    pub fn save_with(
        &self,
        cache: &mut UpdaterCache,
        db: &StoreWithLock,
        block_time: u32,
        height: u32,
        txid: SerializedTxid,
        artifact: &Option<Artifact>,
        change: &TransactionStateChange,
        icon: Option<InscriptionId>,
    ) -> (r: Result<(), TransactionUpdaterError>)
        requires
            change.outputs.len() <= u32::MAX,
        ensures
            final(cache)@ == old(cache)@.save(
                db@,
                block_time,
                height,
                txid,
                view_of(*artifact),
                change@,
                icon,
                self.mempool,
            ).0,
            match old(cache)@.save(
                db@,
                block_time,
                height,
                txid,
                view_of(*artifact),
                change@,
                icon,
                self.mempool,
            ).1 {
                None => r.is_ok(),
                Some(e) => r == Err::<(), TransactionUpdaterError>(e),
            },
    {
        reveal(CacheView::save);
        let ghost start = cache@;
        let ghost burned = change@.burned;
        let mut i: usize = 0;
        proof {
            assert(burned.skip(0) =~= burned);
        }
        while i < change.burned.len()
            invariant
                i <= change.burned.len(),
                burned == change@.burned,
                start == old(cache)@,
                start.burn_all(db@, height, txid, burned, self.mempool) == cache@.burn_all(
                    db@,
                    height,
                    txid,
                    burned.skip(i as int),
                    self.mempool,
                ),
            decreases change.burned.len() - i,
        {
            let b = change.burned[i];
            proof {
                reveal(CacheView::save);
                assert(burned.skip(i as int)[0] == b);
                assert(burned.skip(i as int).skip(1) =~= burned.skip(i + 1));
            }
            match self.burn_rune(cache, db, height, txid, &b.rune_id, b.amount) {
                Ok(()) => {},
                Err(e) => {
                    return Err(e);
                },
            }
            i = i + 1;
        }
        match change.minted {
            Some(minted) => {
                match self.mint_rune(cache, db, height, txid, &minted.rune_id, minted.amount) {
                    Ok(()) => {},
                    Err(e) => {
                        return Err(e);
                    },
                }
            },
            None => {},
        }
        match change.etched {
            Some((id, rune)) => {
                match artifact {
                    None => {
                        return Err(TransactionUpdaterError::NoArtifactFound(txid));
                    },
                    Some(a) => {
                        match self.create_rune_entry(
                            cache,
                            block_time,
                            height,
                            txid,
                            id,
                            rune,
                            a,
                            icon,
                        ) {
                            Ok(()) => {},
                            Err(e) => {
                                return Err(e);
                            },
                        }
                    },
                }
            },
            None => {},
        }
        let ghost etched = cache@;
        let ghost inputs = change@.inputs;
        let mut k: usize = 0;
        proof {
            assert(inputs.skip(0) =~= inputs);
        }
        while k < change.inputs.len()
            invariant
                k <= change.inputs.len(),
                inputs == change@.inputs,
                etched.spend_all(db@, inputs) == cache@.spend_all(db@, inputs.skip(k as int)),
            decreases change.inputs.len() - k,
        {
            proof {
                assert(inputs.skip(k as int)[0] == inputs[k as int]);
                assert(inputs.skip(k as int).skip(1) =~= inputs.skip(k + 1));
                assert(inputs[k as int].outpoint == change.inputs@[k as int].outpoint);
            }
            self.update_spendable_input(cache, db, &change.inputs[k].outpoint);
            k = k + 1;
        }
        let ghost spent = cache@;
        let ghost outputs = change@.outputs;
        let mut vout: usize = 0;
        while vout < change.outputs.len()
            invariant
                vout <= change.outputs.len(),
                change.outputs.len() <= u32::MAX,
                outputs == change@.outputs,
                spent.produce_all(height, txid, outputs, 0, self.mempool) == cache@.produce_all(
                    height,
                    txid,
                    outputs,
                    vout as nat,
                    self.mempool,
                ),
            decreases change.outputs.len() - vout,
        {
            proof {
                assert(outputs[vout as int] == change.outputs@[vout as int]@);
            }
            self.create_output(cache, height, txid, vout as u32, &change.outputs[vout]);
            vout = vout + 1;
        }
        cache.set_tx_state_changes(txid, change.clone());
        let rune_ids = change.rune_ids();
        let ghost recorded = cache@;
        let ghost ids = rune_ids@;
        let mut j: usize = 0;
        proof {
            assert(ids.skip(0) =~= ids);
        }
        while j < rune_ids.len()
            invariant
                j <= rune_ids.len(),
                ids == rune_ids@,
                recorded.touch_all(ids, txid) == cache@.touch_all(ids.skip(j as int), txid),
            decreases rune_ids.len() - j,
        {
            proof {
                assert(ids.skip(j as int)[0] == ids[j as int]);
                assert(ids.skip(j as int).skip(1) =~= ids.skip(j + 1));
            }
            cache.add_rune_transaction(rune_ids[j], txid);
            j = j + 1;
        }
        Ok(())
    }
}

} // verus!
