use crate::artifact::{Transaction, TransactionView};
use crate::events::EventType;
use crate::ids::{BlockHash, OutPoint, ScriptPubKey, SerializedTxid};
use crate::balances::{add_balances, credit_all};
use crate::model::{copy_vec, Block, RuneEntry, TxOutEntry};
use crate::store::concat;
use crate::rune::Rune;
use crate::rune_amount::RuneAmount;
use crate::rune_id::RuneId;
use crate::store::{list_at, StoreError, StoreView, StoreWithLock};
use vstd::prelude::*;

verus! {

/// The last block of the indexed chain.
#[derive(Debug, Clone, Copy, PartialEq, Eq, Structural)]
pub struct BlockTip {
    /// The number of indexed blocks.
    pub height: u64,
    /// The hash of the last of them.
    pub hash: BlockHash,
}

/// The state of the index in short.
#[derive(Debug, Clone, Copy, PartialEq, Eq, Structural)]
pub struct Status {
    pub block_tip: BlockTip,
    pub runes_count: u64,
    pub mempool_tx_count: u64,
}

/// The tip that the store shows: the count of blocks with the hash of the
/// last block, if there is a block and its hash is stored.
pub open spec fn spec_tip(db: StoreView) -> Option<BlockTip> {
    if db.block_count > 0 && db.block_hashes.contains_key((db.block_count - 1) as u64) {
        Some(
            BlockTip {
                height: db.block_count,
                hash: db.block_hashes[(db.block_count - 1) as u64],
            },
        )
    } else {
        None
    }
}

/// The tip of the indexed chain.
pub fn tip(index: &StoreWithLock) -> (r: Result<BlockTip, StoreError>)
    ensures
        match spec_tip(index@) {
            Some(t) => r == Ok::<BlockTip, StoreError>(t),
            None => r == Err::<BlockTip, StoreError>(StoreError::NotFound),
        },
{
    let db = index.read();
    let block_count = db.get_block_count();
    if block_count == 0 {
        return Err(StoreError::NotFound);
    }
    match db.get_block_hash(block_count - 1) {
        Ok(hash) => Ok(BlockTip { height: block_count, hash }),
        Err(e) => Err(e),
    }
}

/// The state of the index in short.
pub fn status(index: &StoreWithLock) -> (r: Result<Status, StoreError>)
    ensures
        match spec_tip(index@) {
            Some(t) => r.is_ok() && r.unwrap().block_tip == t && r.unwrap().runes_count
                == index@.rune_count && r.unwrap().mempool_tx_count == index@.mempool_txs.len(),
            None => r == Err::<Status, StoreError>(StoreError::NotFound),
        },
{
    let block_tip = match tip(index) {
        Ok(t) => t,
        Err(e) => {
            return Err(e);
        },
    };
    let db = index.read();
    let txids = db.get_mempool_txids();
    proof {
        txids@.unique_seq_to_set();
        assert(txids@.to_set() =~= index@.mempool_txs);
    }
    Ok(
        Status {
            block_tip,
            runes_count: db.get_runes_count(),
            mempool_tx_count: txids.len() as u64,
        },
    )
}

/// A block named by its height or by its hash.
#[derive(Debug, Clone, Copy, PartialEq, Eq, Structural)]
pub enum BlockQuery {
    Height(u64),
    Hash(BlockHash),
}

/// The hash of the block that a query names.
pub open spec fn spec_to_hash(db: StoreView, query: BlockQuery) -> Option<BlockHash> {
    match query {
        BlockQuery::Hash(hash) => Some(hash),
        BlockQuery::Height(height) => db.block_hashes.get(height),
    }
}

/// The record of the block that a query names.
pub fn block(index: &StoreWithLock, query: &BlockQuery) -> (r: Result<Block, StoreError>)
    ensures
        match spec_to_hash(index@, *query) {
            Some(hash) => match r {
                Ok(b) => index@.blocks.contains_key(hash) && b@ == index@.blocks[hash],
                Err(e) => e == StoreError::NotFound && !index@.blocks.contains_key(hash),
            },
            None => r == Err::<Block, StoreError>(StoreError::NotFound),
        },
{
    let db = index.read();
    let hash = match query {
        BlockQuery::Hash(hash) => *hash,
        BlockQuery::Height(height) => match db.get_block_hash(*height) {
            Ok(hash) => hash,
            Err(e) => {
                return Err(e);
            },
        },
    };
    db.get_block_by_hash(&hash)
}

/// What an output holds, on either side.
pub fn output(index: &StoreWithLock, outpoint: &OutPoint) -> (r: Result<TxOutEntry, StoreError>)
    ensures
        match r {
            Ok(e) => index@.tx_out(*outpoint, None) == Some(e@),
            Err(e) => e == StoreError::NotFound && index@.tx_out(*outpoint, None).is_none(),
        },
{
    index.read().get_tx_out(outpoint, None)
}

/// A rune named by its identifier or by its name.
#[derive(Debug, Clone, Copy, PartialEq, Eq, Structural)]
pub enum RuneQuery {
    Id(RuneId),
    Rune(Rune),
}

/// The identifier of the rune that a query names.
pub open spec fn spec_to_rune_id(db: StoreView, query: RuneQuery) -> Option<RuneId> {
    match query {
        RuneQuery::Id(id) => Some(id),
        RuneQuery::Rune(rune) => db.rune_ids.get(rune),
    }
}

/// The entry of the rune that a query names, with its identifier.
pub fn rune(index: &StoreWithLock, query: &RuneQuery) -> (r: Result<(RuneId, RuneEntry), StoreError>)
    ensures
        match spec_to_rune_id(index@, *query) {
            Some(id) => if index@.runes.contains_key(id) {
                r == Ok::<(RuneId, RuneEntry), StoreError>((id, index@.runes[id]))
            } else {
                r == Err::<(RuneId, RuneEntry), StoreError>(StoreError::NotFound)
            },
            None => r == Err::<(RuneId, RuneEntry), StoreError>(StoreError::NotFound),
        },
{
    let db = index.read();
    let id = match query {
        RuneQuery::Id(id) => *id,
        RuneQuery::Rune(rune) => match db.get_rune_id(rune) {
            Ok(id) => id,
            Err(e) => {
                return Err(e);
            },
        },
    };
    match db.get_rune(&id) {
        Ok(entry) => Ok((id, entry)),
        Err(e) => Err(e),
    }
}

/// The transactions that touched the rune that a query names, oldest
/// first.
pub fn last_rune_transactions(index: &StoreWithLock, query: &RuneQuery) -> (r: Result<
    Vec<SerializedTxid>,
    StoreError,
>)
    ensures
        match spec_to_rune_id(index@, *query) {
            Some(id) => r.is_ok() && r.unwrap()@ == list_at(index@.rune_transactions, id),
            None => r.is_err() && r.unwrap_err() == StoreError::NotFound,
        },
{
    let db = index.read();
    let id = match query {
        RuneQuery::Id(id) => *id,
        RuneQuery::Rune(rune) => match db.get_rune_id(rune) {
            Ok(id) => id,
            Err(e) => {
                return Err(e);
            },
        },
    };
    Ok(db.get_rune_transactions(&id))
}

/// The transactions of the mempool set, each once.
pub fn mempool_txids(index: &StoreWithLock) -> (r: Vec<SerializedTxid>)
    ensures
        r@.no_duplicates(),
        forall|t: SerializedTxid| r@.contains(t) <==> #[trigger] index@.mempool_txs.contains(t),
{
    index.read().get_mempool_txids()
}

/// An output of a transaction with the runes that the index knows it to
/// hold.
#[derive(Debug, PartialEq, Eq)]
pub struct RunicOutput {
    pub value: u64,
    pub script_pubkey: ScriptPubKey,
    pub runes: Vec<RuneAmount>,
}

pub struct RunicOutputView {
    pub value: u64,
    pub script_pubkey: Seq<u8>,
    pub runes: Seq<RuneAmount>,
}

impl View for RunicOutput {
    type V = RunicOutputView;

    open spec fn view(&self) -> RunicOutputView {
        RunicOutputView {
            value: self.value,
            script_pubkey: self.script_pubkey@,
            runes: self.runes@,
        }
    }
}

/// A transaction with the runes of its outputs.
#[derive(Debug, PartialEq, Eq)]
pub struct RunicTransaction {
    pub input: Vec<OutPoint>,
    pub output: Vec<RunicOutput>,
}

/// The runes that the index knows the output to hold: none where it does
/// not know the output.
pub open spec fn runes_at(db: StoreView, outpoint: OutPoint) -> Seq<RuneAmount> {
    match db.tx_out(outpoint, None) {
        Some(entry) => entry.runes,
        None => Seq::empty(),
    }
}

/// The outputs of the transaction, each with its runes.
pub open spec fn runic_outputs(db: StoreView, txid: SerializedTxid, tx: TransactionView) -> Seq<
    RunicOutputView,
> {
    Seq::new(
        tx.scripts.len(),
        |v: int|
            RunicOutputView {
                value: tx.values[v],
                script_pubkey: tx.scripts[v],
                runes: runes_at(db, OutPoint { txid, vout: v as u32 }),
            },
    )
}

/// The transaction as the node gave it, with the runes that the index
/// holds for each of its outputs.
pub fn transaction(index: &StoreWithLock, txid: &SerializedTxid, tx: &Transaction) -> (r:
    RunicTransaction)
    requires
        tx.outputs@.len() <= u32::MAX,
    ensures
        r.input@ == tx@.inputs,
        Seq::new(r.output@.len(), |i: int| r.output@[i]@) == runic_outputs(index@, *txid, tx@),
{
    let db = index.read();
    let mut output: Vec<RunicOutput> = Vec::new();
    let mut v: usize = 0;
    while v < tx.outputs.len()
        invariant
            v <= tx.outputs@.len(),
            tx.outputs@.len() <= u32::MAX,
            db@ == index@,
            output@.len() == v,
            forall|i: int|
                0 <= i < v ==> (#[trigger] output@[i])@ == runic_outputs(index@, *txid, tx@)[i],
        decreases tx.outputs@.len() - v,
    {
        let outpoint = OutPoint { txid: *txid, vout: v as u32 };
        let runes = match db.get_tx_out(&outpoint, None) {
            Ok(entry) => entry.runes,
            Err(_) => Vec::new(),
        };
        output.push(
            RunicOutput {
                value: tx.outputs[v].value,
                script_pubkey: tx.outputs[v].script_pubkey.clone(),
                runes,
            },
        );
        v += 1;
    }
    proof {
        assert(Seq::new(output@.len(), |i: int| output@[i]@) =~= runic_outputs(
            index@,
            *txid,
            tx@,
        ));
    }
    RunicTransaction { input: copy_vec(&tx.inputs), output }
}

/// Which part of a listing is asked for: how many entries to pass over,
/// and how many to give at most.
#[derive(Debug, Clone, Copy, PartialEq, Eq, Structural)]
pub struct Pagination {
    pub skip: u64,
    pub limit: u64,
}

/// A part of the listing of the runes, and the place at which the next
/// part begins.
#[derive(Debug, PartialEq, Eq)]
pub struct RunesPage {
    pub items: Vec<(RuneId, RuneEntry)>,
    pub offset: u64,
}

/// The runes with the numbers above `above` up to `upto`, in the order of
/// their numbers: a number is listed where it leads to a rune with an
/// entry.
pub open spec fn runes_numbered(db: StoreView, above: nat, upto: nat) -> Seq<(RuneId, RuneEntry)>
    decreases upto,
{
    if upto <= above {
        Seq::empty()
    } else {
        let before = runes_numbered(db, above, (upto - 1) as nat);
        if upto <= u64::MAX && db.rune_numbers.contains_key(upto as u64) && db.runes.contains_key(
            db.rune_numbers[upto as u64],
        ) {
            before.push((db.rune_numbers[upto as u64], db.runes[db.rune_numbers[upto as u64]]))
        } else {
            before
        }
    }
}

/// The number at which a part of the listing ends: the part passes over
/// `skip` numbers and covers at most `limit`, and ends with the count of
/// runes at the latest.
pub open spec fn page_end(db: StoreView, page: Pagination) -> nat {
    if page.skip + page.limit < db.rune_count {
        (page.skip + page.limit) as nat
    } else {
        db.rune_count as nat
    }
}

/// A part of the listing of the runes in the order in which they were
/// etched, with the place at which the next part begins.
pub fn runes(index: &StoreWithLock, pagination: Pagination) -> (r: RunesPage)
    ensures
        r.items@ == runes_numbered(index@, pagination.skip as nat, page_end(index@, pagination)),
        r.offset == (if page_end(index@, pagination) > pagination.skip {
            page_end(index@, pagination)
        } else {
            pagination.skip as nat
        }),
{
    let db = index.read();
    let count = db.get_runes_count();
    let end: u64 = if pagination.limit < count && pagination.skip < count - pagination.limit {
        pagination.skip + pagination.limit
    } else {
        count
    };
    let mut items: Vec<(RuneId, RuneEntry)> = Vec::new();
    if end <= pagination.skip {
        return RunesPage { items, offset: pagination.skip };
    }
    let mut n: u64 = pagination.skip;
    while n < end
        invariant
            pagination.skip <= n <= end,
            db@ == index@,
            items@ == runes_numbered(index@, pagination.skip as nat, n as nat),
        decreases end - n,
    {
        n = n + 1;
        match db.get_rune_id_by_number(n) {
            Ok(id) => match db.get_rune(&id) {
                Ok(entry) => {
                    items.push((id, entry));
                },
                Err(_) => {},
            },
            Err(_) => {},
        }
    }
    RunesPage { items, offset: end }
}

/// An unspent output that pays to an address.
#[derive(Debug, PartialEq, Eq)]
pub struct AddressOutput {
    pub outpoint: OutPoint,
    pub value: u64,
    pub runes: Vec<RuneAmount>,
}

pub struct AddressOutputView {
    pub outpoint: OutPoint,
    pub value: u64,
    pub runes: Seq<RuneAmount>,
}

impl View for AddressOutput {
    type V = AddressOutputView;

    open spec fn view(&self) -> AddressOutputView {
        AddressOutputView { outpoint: self.outpoint, value: self.value, runes: self.runes@ }
    }
}

/// What an address holds: the unspent outputs that pay to it, their value
/// and their runes in all.
#[derive(Debug, PartialEq, Eq)]
pub struct AddressData {
    pub value: u64,
    pub runes: Vec<RuneAmount>,
    pub outputs: Vec<AddressOutput>,
}

pub struct AddressDataView {
    pub value: u64,
    pub runes: Seq<RuneAmount>,
    pub outputs: Seq<AddressOutputView>,
}

impl View for AddressData {
    type V = AddressDataView;

    open spec fn view(&self) -> AddressDataView {
        AddressDataView {
            value: self.value,
            runes: self.runes@,
            outputs: Seq::new(self.outputs@.len(), |i: int| self.outputs@[i]@),
        }
    }
}

/// The sum of two values, or the largest value if the sum does not fit.
pub open spec fn value_sum(a: u64, b: u64) -> u64 {
    if a + b > u64::MAX {
        u64::MAX
    } else {
        (a + b) as u64
    }
}

/// What the first `n` of the given outputs hold together: each output that
/// the index knows and that is unspent is listed, its value is added, and
/// its runes are added to the balances, rune by rune.
pub open spec fn held_by(db: StoreView, outpoints: Seq<OutPoint>, n: nat) -> AddressDataView
    decreases n,
{
    if n == 0 {
        AddressDataView { value: 0, runes: Seq::empty(), outputs: Seq::empty() }
    } else {
        let before = held_by(db, outpoints, (n - 1) as nat);
        let outpoint = outpoints[n - 1];
        match db.tx_out(outpoint, None) {
            Some(entry) => if entry.spent {
                before
            } else {
                AddressDataView {
                    value: value_sum(before.value, entry.value),
                    runes: credit_all(before.runes, entry.runes).0,
                    outputs: before.outputs.push(
                        AddressOutputView { outpoint, value: entry.value, runes: entry.runes },
                    ),
                }
            },
            None => before,
        }
    }
}

/// The outputs that pay to a script: those of the chain, then those of the
/// mempool.
pub open spec fn paying_to(db: StoreView, script: Seq<u8>) -> Seq<OutPoint> {
    list_at(db.script_outpoints(false), script) + list_at(db.script_outpoints(true), script)
}

/// What the address with the given locking script holds.
pub fn address(index: &StoreWithLock, script_pubkey: &ScriptPubKey) -> (r: AddressData)
    ensures
        r@ == held_by(
            index@,
            paying_to(index@, script_pubkey@),
            paying_to(index@, script_pubkey@).len(),
        ),
{
    let db = index.read();
    let outpoints = concat(
        &db.get_script_pubkey_outpoints(script_pubkey, false),
        &db.get_script_pubkey_outpoints(script_pubkey, true),
    );
    let mut data = AddressData { value: 0, runes: Vec::new(), outputs: Vec::new() };
    let mut i: usize = 0;
    proof {
        assert(data@.outputs =~= Seq::<AddressOutputView>::empty());
    }
    while i < outpoints.len()
        invariant
            i <= outpoints.len(),
            db@ == index@,
            data@ == held_by(index@, outpoints@, i as nat),
        decreases outpoints.len() - i,
    {
        let outpoint = outpoints[i];
        let ghost before = data@;
        match db.get_tx_out(&outpoint, None) {
            Ok(entry) => {
                if !entry.spent {
                    data.value = if data.value > u64::MAX - entry.value {
                        u64::MAX
                    } else {
                        data.value + entry.value
                    };
                    let _ = add_balances(&mut data.runes, &entry.runes);
                    data.outputs.push(
                        AddressOutput { outpoint, value: entry.value, runes: entry.runes },
                    );
                    proof {
                        assert(data@.outputs =~= before.outputs.push(
                            AddressOutputView { outpoint, value: entry.value, runes: entry.runes@ },
                        ));
                    }
                }
            },
            Err(_) => {},
        }
        i = i + 1;
    }
    data
}

/// A subscriber that is told of events over HTTP.
#[derive(Debug, PartialEq, Eq)]
pub struct Subscription {
    pub id: u128,
    pub endpoint: String,
    pub event_types: Vec<EventType>,
    pub last_success_epoch_secs: u64,
}

pub struct SubscriptionView {
    pub id: u128,
    pub endpoint: Seq<char>,
    pub event_types: Seq<EventType>,
    pub last_success_epoch_secs: u64,
}

impl View for Subscription {
    type V = SubscriptionView;

    open spec fn view(&self) -> SubscriptionView {
        SubscriptionView {
            id: self.id,
            endpoint: self.endpoint@,
            event_types: self.event_types@,
            last_success_epoch_secs: self.last_success_epoch_secs,
        }
    }
}

impl Clone for Subscription {
    fn clone(&self) -> (r: Self)
        ensures
            r@ == self@,
    {
        Subscription {
            id: self.id,
            endpoint: self.endpoint.clone(),
            event_types: copy_vec(&self.event_types),
            last_success_epoch_secs: self.last_success_epoch_secs,
        }
    }
}

/// The views of the subscriptions.
pub open spec fn subscription_views(subs: Seq<Subscription>) -> Seq<SubscriptionView> {
    Seq::new(subs.len(), |i: int| subs[i]@)
}

/// The place of the first subscription with the identifier, or the
/// length of the list if there is none.
pub open spec fn place_of(subs: Seq<SubscriptionView>, id: u128) -> int
    decreases subs.len(),
{
    if subs.len() == 0 {
        0
    } else if subs[0].id == id {
        0
    } else {
        1 + place_of(subs.skip(1), id)
    }
}

pub proof fn lemma_place_of(subs: Seq<SubscriptionView>, id: u128)
    ensures
        0 <= place_of(subs, id) <= subs.len(),
        place_of(subs, id) < subs.len() ==> subs[place_of(subs, id)].id == id,
        forall|j: int| 0 <= j < place_of(subs, id) ==> (#[trigger] subs[j]).id != id,
    decreases subs.len(),
{
    if subs.len() > 0 && subs[0].id != id {
        lemma_place_of(subs.skip(1), id);
        assert forall|j: int| 0 <= j < place_of(subs, id) implies (#[trigger] subs[j]).id != id by {
            if j > 0 {
                assert(subs.skip(1)[j - 1].id != id);
            }
        }
    }
}

/// The subscribers that are told of events over HTTP, in the order in
/// which they were added.
pub struct WebhookSubscriptionManager {
    subs: Vec<Subscription>,
}

impl View for WebhookSubscriptionManager {
    type V = Seq<SubscriptionView>;

    closed spec fn view(&self) -> Seq<SubscriptionView> {
        subscription_views(self.subs@)
    }
}

impl WebhookSubscriptionManager {
    pub fn new() -> (r: Self)
        ensures
            r@ == Seq::<SubscriptionView>::empty(),
    {
        let r = WebhookSubscriptionManager { subs: Vec::new() };
        assert(r@ =~= Seq::<SubscriptionView>::empty());
        r
    }

    fn find(&self, id: u128) -> (r: usize)
        ensures
            r == place_of(self@, id),
            r <= self.subs.len(),
    {
        let mut i: usize = 0;
        proof {
            assert(self@.skip(0) =~= self@);
        }
        while i < self.subs.len()
            invariant
                i <= self.subs.len(),
                place_of(self@, id) == i + place_of(self@.skip(i as int), id),
            decreases self.subs.len() - i,
        {
            proof {
                assert(self@.skip(i as int)[0] == self.subs@[i as int]@);
                assert(self@.skip(i as int).skip(1) =~= self@.skip(i + 1));
            }
            if self.subs[i].id == id {
                return i;
            }
            i = i + 1;
        }
        i
    }

    pub fn get_subscriptions(&self) -> (r: Vec<Subscription>)
        ensures
            subscription_views(r@) == self@,
    {
        let mut out: Vec<Subscription> = Vec::new();
        let mut i: usize = 0;
        while i < self.subs.len()
            invariant
                i <= self.subs.len(),
                out@.len() == i,
                forall|j: int| 0 <= j < i ==> (#[trigger] out@[j])@ == self.subs@[j]@,
            decreases self.subs.len() - i,
        {
            out.push(self.subs[i].clone());
            i = i + 1;
        }
        assert(subscription_views(out@) =~= self@);
        out
    }

    /// Adds a subscription; one with the same identifier is replaced.
    pub fn add_subscription(&mut self, subscription: &Subscription)
        ensures
            final(self)@ == (if place_of(old(self)@, subscription.id) < old(self)@.len() {
                old(self)@.update(place_of(old(self)@, subscription.id), subscription@)
            } else {
                old(self)@.push(subscription@)
            }),
    {
        let at = self.find(subscription.id);
        if at < self.subs.len() {
            self.subs.set(at, subscription.clone());
            assert(self@ =~= old(self)@.update(at as int, subscription@));
        } else {
            self.subs.push(subscription.clone());
            assert(self@ =~= old(self)@.push(subscription@));
        }
    }

    /// Deletes the subscription with the identifier.
    pub fn delete_subscription(&mut self, id: u128) -> (r: Result<(), StoreError>)
        ensures
            place_of(old(self)@, id) < old(self)@.len() ==> r.is_ok() && final(self)@ == old(
                self,
            )@.remove(place_of(old(self)@, id)),
            place_of(old(self)@, id) >= old(self)@.len() ==> r == Err::<(), StoreError>(
                StoreError::NotFound,
            ) && final(self)@ == old(self)@,
    {
        let at = self.find(id);
        if at < self.subs.len() {
            self.subs.remove(at);
            assert(self@ =~= old(self)@.remove(at as int));
            Ok(())
        } else {
            Err(StoreError::NotFound)
        }
    }

    pub fn get_subscription(&self, id: u128) -> (r: Result<Subscription, StoreError>)
        ensures
            match r {
                Ok(s) => place_of(self@, id) < self@.len() && s@ == self@[place_of(self@, id)],
                Err(e) => e == StoreError::NotFound && place_of(self@, id) >= self@.len(),
            },
    {
        let at = self.find(id);
        if at < self.subs.len() {
            Ok(self.subs[at].clone())
        } else {
            Err(StoreError::NotFound)
        }
    }
}

/// The subscriptions over HTTP.
pub fn subscriptions(subscription_manager: &WebhookSubscriptionManager) -> (r: Result<
    Vec<Subscription>,
    StoreError,
>)
    ensures
        r.is_ok(),
        subscription_views(r.unwrap()@) == subscription_manager@,
{
    Ok(subscription_manager.get_subscriptions())
}

/// Adds a subscription over HTTP.
pub fn add_subscription(
    subscription_manager: &mut WebhookSubscriptionManager,
    subscription: Subscription,
) -> (r: Result<(), StoreError>)
    ensures
        r.is_ok(),
        final(subscription_manager)@ == (if place_of(old(subscription_manager)@, subscription.id)
            < old(subscription_manager)@.len() {
            old(subscription_manager)@.update(
                place_of(old(subscription_manager)@, subscription.id),
                subscription@,
            )
        } else {
            old(subscription_manager)@.push(subscription@)
        }),
{
    subscription_manager.add_subscription(&subscription);
    Ok(())
}

/// Deletes a subscription over HTTP.
pub fn delete_subscription(subscription_manager: &mut WebhookSubscriptionManager, id: u128) -> (r:
    Result<(), StoreError>)
    ensures
        place_of(old(subscription_manager)@, id) < old(subscription_manager)@.len() ==> r.is_ok()
            && final(subscription_manager)@ == old(subscription_manager)@.remove(
            place_of(old(subscription_manager)@, id),
        ),
        place_of(old(subscription_manager)@, id) >= old(subscription_manager)@.len() ==> r
            == Err::<(), StoreError>(StoreError::NotFound) && final(subscription_manager)@ == old(
            subscription_manager,
        )@,
{
    subscription_manager.delete_subscription(id)
}

/// The subscription over HTTP with the identifier.
pub fn get_subscription(subscription_manager: &WebhookSubscriptionManager, id: u128) -> (r: Result<
    Subscription,
    StoreError,
>)
    ensures
        match r {
            Ok(s) => place_of(subscription_manager@, id) < subscription_manager@.len() && s@
                == subscription_manager@[place_of(subscription_manager@, id)],
            Err(e) => e == StoreError::NotFound && place_of(subscription_manager@, id)
                >= subscription_manager@.len(),
        },
{
    subscription_manager.get_subscription(id)
}

} // verus!
