use crate::cache::{CacheView, UpdaterCache};
use crate::ids::{OutPoint, ScriptPubKey, SpenderReference};
use crate::store::{
    list_at, spk_after, BatchUpdateView, SpkDelta, SpkDeltaView, StoreError,
    StoreView, StoreWithLock,
};
use crate::table::{lemma_take_push_set, Key, Table, Value};
use vstd::prelude::*;

verus! {

/// The outputs that were created and the outputs that were spent since the
/// script index was last brought up to date.
pub struct AddressUpdater {
    new_outpoints: Table<OutPoint, ScriptPubKey>,
    spent_outpoints: Table<OutPoint, SpenderReference>,
}

pub struct AddressUpdaterView {
    /// The script of each created output.
    pub new: Map<OutPoint, Seq<u8>>,
    /// The created outputs in the order in which they were noted.
    pub new_order: Seq<OutPoint>,
    /// The spender of each spent output.
    pub spent: Map<OutPoint, SpenderReference>,
    /// The spent outputs in the order in which they were noted.
    pub spent_order: Seq<OutPoint>,
}

impl View for AddressUpdater {
    type V = AddressUpdaterView;

    closed spec fn view(&self) -> AddressUpdaterView {
        AddressUpdaterView {
            new: self.new_outpoints@,
            new_order: self.new_outpoints.spec_keys(),
            spent: self.spent_outpoints@,
            spent_order: self.spent_outpoints.spec_keys(),
        }
    }
}

/// The changes to the script index, script by script, with the scripts in
/// the order in which they first occurred.
pub struct Deltas {
    pub order: Seq<Seq<u8>>,
    pub map: Map<Seq<u8>, SpkDeltaView>,
}

/// The change staged for a script; no change where none is staged.
pub open spec fn delta_at(map: Map<Seq<u8>, SpkDeltaView>, script: Seq<u8>) -> SpkDeltaView {
    if map.contains_key(script) {
        map[script]
    } else {
        SpkDeltaView { new: Seq::empty(), spent: Seq::empty() }
    }
}

impl Deltas {
    pub open spec fn empty() -> Deltas {
        Deltas { order: Seq::empty(), map: Map::empty() }
    }

    /// Notes for a script that an output pays to it, or has stopped to.
    pub open spec fn add(self, script: Seq<u8>, outpoint: OutPoint, as_spent: bool) -> Deltas {
        let delta = delta_at(self.map, script);
        Deltas {
            order: if self.map.contains_key(script) {
                self.order
            } else {
                self.order.push(script)
            },
            map: self.map.insert(
                script,
                if as_spent {
                    SpkDeltaView { spent: delta.spent.push(outpoint), ..delta }
                } else {
                    SpkDeltaView { new: delta.new.push(outpoint), ..delta }
                },
            ),
        }
    }

    /// Notes the outputs, in turn, as spent for the scripts that they are
    /// known to pay to.
    pub open spec fn group_spent(self, reverse: Map<OutPoint, Seq<u8>>, outs: Seq<OutPoint>) -> Deltas
        decreases outs.len(),
    {
        if outs.len() == 0 {
            self
        } else if reverse.contains_key(outs[0]) {
            self.add(reverse[outs[0]], outs[0], true).group_spent(reverse, outs.skip(1))
        } else {
            self.group_spent(reverse, outs.skip(1))
        }
    }

    /// Notes the created outputs, in turn, for their scripts: as new, or,
    /// if they are among the spent ones, as spent.
    pub open spec fn group_new(
        self,
        new: Map<OutPoint, Seq<u8>>,
        spent: Set<OutPoint>,
        outs: Seq<OutPoint>,
    ) -> Deltas
        decreases outs.len(),
    {
        if outs.len() == 0 {
            self
        } else if new.contains_key(outs[0]) {
            self.add(new[outs[0]], outs[0], spent.contains(outs[0])).group_new(
                new,
                spent,
                outs.skip(1),
            )
        } else {
            self.group_new(new, spent, outs.skip(1))
        }
    }
}

/// The outputs of the list that were not created in this window.
pub open spec fn old_spent(order: Seq<OutPoint>, new: Map<OutPoint, Seq<u8>>) -> Seq<OutPoint>
    decreases order.len(),
{
    if order.len() == 0 {
        Seq::empty()
    } else {
        let before = old_spent(order.drop_last(), new);
        if new.contains_key(order.last()) {
            before
        } else {
            before.push(order.last())
        }
    }
}

impl AddressUpdaterView {
    /// The view after a created output was noted with its script; an
    /// unspendable output is not noted.
    pub open spec fn with_new(self, outpoint: OutPoint, script: Seq<u8>) -> AddressUpdaterView {
        if ScriptPubKey::spec_is_op_return(script) {
            self
        } else {
            AddressUpdaterView {
                new: self.new.insert(outpoint, script),
                new_order: if self.new.contains_key(outpoint) {
                    self.new_order
                } else {
                    self.new_order.push(outpoint)
                },
                ..self
            }
        }
    }

    /// The view after a spent output was noted with its spender.
    pub open spec fn with_spent(self, outpoint: OutPoint, spender: SpenderReference) -> AddressUpdaterView {
        AddressUpdaterView {
            spent: self.spent.insert(outpoint, spender),
            spent_order: if self.spent.contains_key(outpoint) {
                self.spent_order
            } else {
                self.spent_order.push(outpoint)
            },
            ..self
        }
    }

    pub open spec fn empty() -> AddressUpdaterView {
        AddressUpdaterView {
            new: Map::empty(),
            new_order: Seq::empty(),
            spent: Map::empty(),
            spent_order: Seq::empty(),
        }
    }

    /// The changes to the script index of the chain: the spent outputs that
    /// were not created in this window stop to pay to the scripts that the
    /// store knows for them; the created outputs start to pay to their
    /// scripts, but those that were spent again in this window only stop
    /// to.
    pub open spec fn block_deltas(self, reverse: Map<OutPoint, Seq<u8>>) -> Deltas {
        Deltas::empty().group_spent(reverse, old_spent(self.spent_order, self.new)).group_new(
            self.new,
            self.spent.dom(),
            self.new_order,
        )
    }

    /// The created outputs that were not spent again in this window, with
    /// their scripts.
    pub open spec fn kept(self) -> Map<OutPoint, Seq<u8>> {
        self.new.remove_keys(self.spent.dom())
    }

    /// The cache after the changes for the chain were staged, or the error
    /// if the store knows no script for one of the spent outputs that were
    /// not created in this window.
    pub open spec fn batch_for_block(self, cache: CacheView, db: StoreView) -> (
        CacheView,
        Option<StoreError>,
    ) {
        let olds = old_spent(self.spent_order, self.new);
        let reverse = db.reverse_scripts(cache.settings.mempool);
        if exists|o: OutPoint| olds.contains(o) && !reverse.contains_key(o) {
            (cache, Some(StoreError::NotFound))
        } else {
            let deltas = self.block_deltas(reverse);
            (
                CacheView {
                    update: BatchUpdateView {
                        script_pubkeys: deltas.map,
                        script_pubkey_order: deltas.order,
                        script_pubkeys_outpoints: if self.kept() == Map::<
                            OutPoint,
                            Seq<u8>,
                        >::empty() {
                            cache.update.script_pubkeys_outpoints
                        } else {
                            self.kept()
                        },
                        ..cache.update
                    },
                    ..cache
                },
                None,
            )
        }
    }

    /// The cache after the changes for the mempool were staged: every
    /// created output starts to pay to its script, and the spent outputs
    /// are noted with their spenders.
    pub open spec fn batch_for_mempool(self, cache: CacheView) -> CacheView {
        let deltas = Deltas::empty().group_new(self.new, Set::empty(), self.new_order);
        CacheView {
            update: BatchUpdateView {
                script_pubkeys: deltas.map,
                script_pubkey_order: deltas.order,
                script_pubkeys_outpoints: self.new,
                spent_outpoints_in_mempool: cache.update.spent_outpoints_in_mempool.union_prefer_right(
                    self.spent,
                ),
                ..cache.update
            },
            ..cache
        }
    }

    /// The cache after the changes were staged, on the side that the cache
    /// serves.
    pub open spec fn batch(self, cache: CacheView, db: StoreView) -> (CacheView, Option<StoreError>) {
        if cache.settings.mempool {
            (self.batch_for_mempool(cache), None)
        } else {
            self.batch_for_block(cache, db)
        }
    }
}

/// Notes an output for a script in the table of changes.
fn add_delta(
    table: &mut Table<ScriptPubKey, SpkDelta>,
    script: &ScriptPubKey,
    outpoint: OutPoint,
    as_spent: bool,
)
    ensures
        (Deltas { order: final(table).spec_keys(), map: final(table)@ }) == (Deltas {
            order: old(table).spec_keys(),
            map: old(table)@,
        }).add(script@, outpoint, as_spent),
{
    let mut delta = match table.get_cloned(script) {
        Some(d) => d,
        None => SpkDelta { new: Vec::new(), spent: Vec::new() },
    };
    if as_spent {
        delta.spent.push(outpoint);
    } else {
        delta.new.push(outpoint);
    }
    table.insert(script.dup_key(), delta);
}

impl AddressUpdater {
    pub fn new() -> (r: Self)
        ensures
            r@ == AddressUpdaterView::empty(),
    {
        Self { new_outpoints: Table::new(), spent_outpoints: Table::new() }
    }

    /// Notes a created output with its script, unless the script makes the
    /// output unspendable.
    pub fn add_new_outpoint(&mut self, outpoint: OutPoint, script_pubkey: ScriptPubKey)
        ensures
            final(self)@ == old(self)@.with_new(outpoint, script_pubkey@),
    {
        if !script_pubkey.is_op_return() {
            self.new_outpoints.insert(outpoint, script_pubkey);
        }
    }

    /// Notes a spent output with the input that spent it.
    pub fn add_spent_outpoint(&mut self, outpoint: OutPoint, spender_reference: SpenderReference)
        ensures
            final(self)@ == old(self)@.with_spent(outpoint, spender_reference),
    {
        self.spent_outpoints.insert(outpoint, spender_reference);
    }

    /// Stages the changes to the script index in the cache and forgets the
    /// noted outputs. With an error nothing is staged and nothing is
    /// forgotten.
    pub fn batch_update_script_pubkey(&mut self, cache: &mut UpdaterCache, db: &StoreWithLock) -> (r:
        Result<(), StoreError>)
        ensures
            final(cache)@ == old(self)@.batch(old(cache)@, db@).0,
            match old(self)@.batch(old(cache)@, db@).1 {
                Some(e) => r == Err::<(), StoreError>(e) && final(self)@ == old(self)@,
                None => r.is_ok() && final(self)@ == AddressUpdaterView::empty(),
            },
    {
        if cache.settings().mempool {
            self.batch_update_script_pubkeys_for_mempool(cache);
        } else {
            match self.batch_update_script_pubkeys_for_block(cache, db) {
                Ok(()) => {},
                Err(e) => {
                    return Err(e);
                },
            }
        }
        self.spent_outpoints = Table::new();
        self.new_outpoints = Table::new();
        Ok(())
    }

    /// The spent outputs that were not created in this window, in order.
    fn old_spent_outpoints(&self) -> (r: Vec<OutPoint>)
        ensures
            r@ == old_spent(self@.spent_order, self@.new),
    {
        let keys = self.spent_outpoints.keys();
        let ghost order = self.spent_outpoints.spec_keys();
        let mut out: Vec<OutPoint> = Vec::new();
        let mut i: usize = 0;
        proof {
            assert(keys@ =~= order);
        }
        while i < keys.len()
            invariant
                i <= keys.len(),
                keys@ == order,
                order == self@.spent_order,
                out@ == old_spent(order.take(i as int), self@.new),
            decreases keys.len() - i,
        {
            proof {
                assert(order.take(i + 1).drop_last() =~= order.take(i as int));
            }
            if !self.new_outpoints.contains_key(&keys[i]) {
                out.push(keys[i]);
            }
            i = i + 1;
        }
        proof {
            assert(order.take(keys.len() as int) =~= order);
        }
        out
    }

    /// The created outputs that were not spent again, with their scripts.
    fn kept_outpoints(&self) -> (r: Table<OutPoint, ScriptPubKey>)
        ensures
            r@ == self@.kept(),
    {
        let keys = self.new_outpoints.keys();
        let ghost order = self.new_outpoints.spec_keys();
        let mut out: Table<OutPoint, ScriptPubKey> = Table::new();
        let mut i: usize = 0;
        proof {
            assert(keys@ =~= order);
            lemma_take_push_set(order.push(OutPoint { txid: crate::ids::SerializedTxid { hi: 0, lo: 0 }, vout: 0 }), 0);
            assert(order.push(OutPoint { txid: crate::ids::SerializedTxid { hi: 0, lo: 0 }, vout: 0 }).take(0) =~= order.take(0));
            assert(self@.new.restrict(order.take(0).to_set()).remove_keys(self@.spent.dom())
                =~= Map::<OutPoint, Seq<u8>>::empty());
        }
        while i < keys.len()
            invariant
                i <= keys.len(),
                keys@ == order,
                order == self.new_outpoints.spec_keys(),
                forall|k: OutPoint| order.contains(k) <==> #[trigger] self@.new.contains_key(k),
                out@ == self@.new.restrict(order.take(i as int).to_set()).remove_keys(
                    self@.spent.dom(),
                ),
            decreases keys.len() - i,
        {
            let key = keys[i];
            proof {
                lemma_take_push_set(order, i as int);
                assert(order.contains(key)) by {
                    assert(order[i as int] == key);
                }
            }
            let ghost t0 = order.take(i as int).to_set();
            let ghost t1 = order.take(i + 1).to_set();
            if !self.spent_outpoints.contains_key(&key) {
                let script = self.new_outpoints.get_cloned(&key).unwrap();
                proof {
                    assert(self@.new.restrict(t0).remove_keys(self@.spent.dom()).insert(
                        key,
                        script@,
                    ) =~= self@.new.restrict(t1).remove_keys(self@.spent.dom()));
                }
                out.insert(key, script);
            } else {
                proof {
                    assert(self@.new.restrict(t0).remove_keys(self@.spent.dom())
                        =~= self@.new.restrict(t1).remove_keys(self@.spent.dom()));
                }
            }
            i = i + 1;
        }
        proof {
            assert(order.take(keys.len() as int) =~= order);
            assert(self@.new.restrict(order.to_set()) =~= self@.new);
        }
        out
    }

    /// Notes the created outputs in the table of changes.
    fn group_new_outpoints(&self, table: &mut Table<ScriptPubKey, SpkDelta>, for_mempool: bool)
        ensures
            (Deltas { order: final(table).spec_keys(), map: final(table)@ }) == (Deltas {
                order: old(table).spec_keys(),
                map: old(table)@,
            }).group_new(
                self@.new,
                if for_mempool {
                    Set::empty()
                } else {
                    self@.spent.dom()
                },
                self@.new_order,
            ),
    {
        let keys = self.new_outpoints.keys();
        let ghost order = self.new_outpoints.spec_keys();
        let ghost spent = if for_mempool {
            Set::<OutPoint>::empty()
        } else {
            self@.spent.dom()
        };
        let ghost start = Deltas { order: table.spec_keys(), map: table@ };
        let mut i: usize = 0;
        proof {
            assert(keys@ =~= order);
            assert(order.skip(0) =~= order);
        }
        while i < keys.len()
            invariant
                i <= keys.len(),
                keys@ == order,
                order == self@.new_order,
                forall|k: OutPoint| order.contains(k) <==> #[trigger] self@.new.contains_key(k),
                spent == (if for_mempool {
                    Set::<OutPoint>::empty()
                } else {
                    self@.spent.dom()
                }),
                start.group_new(self@.new, spent, order) == (Deltas {
                    order: table.spec_keys(),
                    map: table@,
                }).group_new(self@.new, spent, order.skip(i as int)),
            decreases keys.len() - i,
        {
            let key = keys[i];
            proof {
                assert(order.skip(i as int)[0] == key);
                assert(order.skip(i as int).skip(1) =~= order.skip(i + 1));
                assert(order.contains(key)) by {
                    assert(order[i as int] == key);
                }
            }
            let script = self.new_outpoints.get(&key).unwrap();
            let as_spent = !for_mempool && self.spent_outpoints.contains_key(&key);
            add_delta(table, script, key, as_spent);
            i = i + 1;
        }
    }

    /// Stages the changes to the script index of the chain.
    pub fn batch_update_script_pubkeys_for_block(&self, cache: &mut UpdaterCache, db: &StoreWithLock) -> (r:
        Result<(), StoreError>)
        requires
            !old(cache)@.settings.mempool,
        ensures
            final(cache)@ == self@.batch_for_block(old(cache)@, db@).0,
            match self@.batch_for_block(old(cache)@, db@).1 {
                Some(e) => r == Err::<(), StoreError>(e),
                None => r.is_ok(),
            },
    {
        let old_spent_outpoints = self.old_spent_outpoints();
        let ghost olds = old_spent_outpoints@;
        let ghost reverse = db@.reverse_scripts(cache@.settings.mempool);
        let spent_map = match cache.get_outpoints_to_script_pubkey(db, &old_spent_outpoints, false) {
            Ok(m) => m,
            Err(e) => {
                return Err(e);
            },
        };
        let mut spk_map: Table<ScriptPubKey, SpkDelta> = Table::new();
        let mut i: usize = 0;
        proof {
            assert(olds.skip(0) =~= olds);
        }
        while i < old_spent_outpoints.len()
            invariant
                i <= old_spent_outpoints.len(),
                olds == old_spent_outpoints@,
                forall|o: OutPoint| olds.contains(o) ==> reverse.contains_key(o),
                forall|o: OutPoint| #[trigger]
                    spent_map@.contains_key(o) <==> (olds.contains(o) && reverse.contains_key(o)),
                forall|o: OutPoint| #[trigger]
                    spent_map@.contains_key(o) ==> spent_map@[o] == reverse[o],
                Deltas::empty().group_spent(reverse, olds) == (Deltas {
                    order: spk_map.spec_keys(),
                    map: spk_map@,
                }).group_spent(reverse, olds.skip(i as int)),
            decreases old_spent_outpoints.len() - i,
        {
            let outpoint = old_spent_outpoints[i];
            proof {
                assert(olds.skip(i as int)[0] == outpoint);
                assert(olds.skip(i as int).skip(1) =~= olds.skip(i + 1));
                assert(olds.contains(outpoint)) by {
                    assert(olds[i as int] == outpoint);
                }
                assert(spent_map@.contains_key(outpoint));
            }
            let script = spent_map.get(&outpoint).unwrap();
            add_delta(&mut spk_map, script, outpoint, true);
            i = i + 1;
        }
        self.group_new_outpoints(&mut spk_map, false);
        cache.set_script_pubkey_entries(spk_map);
        if !self.new_outpoints.is_empty() {
            let outpoints_to_add = self.kept_outpoints();
            if !outpoints_to_add.is_empty() {
                cache.batch_set_outpoints_to_script_pubkey(outpoints_to_add);
            }
        } else {
            proof {
                assert(self@.kept() =~= Map::<OutPoint, Seq<u8>>::empty());
            }
        }
        Ok(())
    }

    /// Stages the changes to the script index of the mempool.
    pub fn batch_update_script_pubkeys_for_mempool(&self, cache: &mut UpdaterCache)
        ensures
            final(cache)@ == self@.batch_for_mempool(old(cache)@),
    {
        let mut spk_map: Table<ScriptPubKey, SpkDelta> = Table::new();
        self.group_new_outpoints(&mut spk_map, true);
        cache.set_script_pubkey_entries(spk_map);
        cache.batch_set_outpoints_to_script_pubkey(self.new_outpoints.dup());
        cache.batch_set_spent_outpoints_in_mempool(&self.spent_outpoints);
    }
}

/// Whether no script has the output among those that start to pay to it.
pub open spec fn nowhere_new(map: Map<Seq<u8>, SpkDeltaView>, outpoint: OutPoint) -> bool {
    forall|s: Seq<u8>| map.contains_key(s) ==> !(#[trigger] map[s]).new.contains(outpoint)
}

/// Whether the script has the output among those that stop to pay to it.
pub open spec fn spent_at(map: Map<Seq<u8>, SpkDeltaView>, script: Seq<u8>, outpoint: OutPoint) -> bool {
    map.contains_key(script) && map[script].spent.contains(outpoint)
}

pub proof fn lemma_add_keeps(
    acc: Deltas,
    script: Seq<u8>,
    added: OutPoint,
    as_spent: bool,
    at: Seq<u8>,
    outpoint: OutPoint,
)
    ensures
        spent_at(acc.map, at, outpoint) ==> spent_at(
            acc.add(script, added, as_spent).map,
            at,
            outpoint,
        ),
        nowhere_new(acc.map, outpoint) && (as_spent || added != outpoint) ==> nowhere_new(
            acc.add(script, added, as_spent).map,
            outpoint,
        ),
        as_spent ==> spent_at(acc.add(script, added, as_spent).map, script, added),
{
    let next = acc.add(script, added, as_spent).map;
    let delta = delta_at(acc.map, script);
    if spent_at(acc.map, at, outpoint) && at == script && as_spent {
        let i = choose|i: int| 0 <= i < delta.spent.len() && delta.spent[i] == outpoint;
        assert(delta.spent.push(added)[i] == outpoint);
    }
    if as_spent {
        assert(delta.spent.push(added)[delta.spent.len() as int] == added);
    }
    if nowhere_new(acc.map, outpoint) && (as_spent || added != outpoint) {
        assert forall|s: Seq<u8>| next.contains_key(s) implies !(#[trigger] next[s]).new.contains(
            outpoint,
        ) by {
            if s == script {
                if !as_spent {
                    if delta.new.push(added).contains(outpoint) {
                        let i = choose|i: int|
                            0 <= i < delta.new.push(added).len() && delta.new.push(added)[i]
                                == outpoint;
                        if i < delta.new.len() {
                            assert(delta.new[i] == outpoint);
                            assert(acc.map.contains_key(s));
                        }
                    }
                } else {
                    if acc.map.contains_key(s) {
                        assert(!acc.map[s].new.contains(outpoint));
                    }
                }
            } else {
                assert(acc.map.contains_key(s));
            }
        }
    }
}

pub proof fn lemma_group_spent_keeps(
    acc: Deltas,
    reverse: Map<OutPoint, Seq<u8>>,
    outs: Seq<OutPoint>,
    outpoint: OutPoint,
)
    requires
        nowhere_new(acc.map, outpoint),
    ensures
        nowhere_new(acc.group_spent(reverse, outs).map, outpoint),
    decreases outs.len(),
{
    if outs.len() > 0 {
        if reverse.contains_key(outs[0]) {
            lemma_add_keeps(acc, reverse[outs[0]], outs[0], true, reverse[outs[0]], outpoint);
            lemma_group_spent_keeps(
                acc.add(reverse[outs[0]], outs[0], true),
                reverse,
                outs.skip(1),
                outpoint,
            );
        } else {
            lemma_group_spent_keeps(acc, reverse, outs.skip(1), outpoint);
        }
    }
}

pub proof fn lemma_group_new_keeps(
    acc: Deltas,
    new: Map<OutPoint, Seq<u8>>,
    spent: Set<OutPoint>,
    outs: Seq<OutPoint>,
    at: Seq<u8>,
    outpoint: OutPoint,
)
    requires
        spent.contains(outpoint),
    ensures
        nowhere_new(acc.map, outpoint) ==> nowhere_new(
            acc.group_new(new, spent, outs).map,
            outpoint,
        ),
        spent_at(acc.map, at, outpoint) ==> spent_at(
            acc.group_new(new, spent, outs).map,
            at,
            outpoint,
        ),
        outs.contains(outpoint) && new.contains_key(outpoint) && at == new[outpoint] ==> spent_at(
            acc.group_new(new, spent, outs).map,
            at,
            outpoint,
        ),
    decreases outs.len(),
{
    if outs.len() > 0 {
        let first = outs[0];
        if new.contains_key(first) {
            let next = acc.add(new[first], first, spent.contains(first));
            lemma_add_keeps(acc, new[first], first, spent.contains(first), at, outpoint);
            lemma_group_new_keeps(next, new, spent, outs.skip(1), at, outpoint);
            if outs.contains(outpoint) && first != outpoint {
                let i = choose|i: int| 0 <= i < outs.len() && outs[i] == outpoint;
                assert(outs.skip(1)[i - 1] == outpoint);
            }
        } else {
            lemma_group_new_keeps(acc, new, spent, outs.skip(1), at, outpoint);
            if outs.contains(outpoint) && first != outpoint {
                let i = choose|i: int| 0 <= i < outs.len() && outs[i] == outpoint;
                assert(outs.skip(1)[i - 1] == outpoint);
            }
        }
    }
}

/// An output that was created and spent in one window leaves no trace in
/// the script index: it is not among the outputs that start to pay to any
/// script, it is among those that stop to pay to its script, so that after
/// the commit it is not among the outputs of its script; and it gets no
/// reverse entry.
pub proof fn lemma_churn_within_window(
    updater: AddressUpdaterView,
    reverse: Map<OutPoint, Seq<u8>>,
    index: Map<Seq<u8>, Seq<OutPoint>>,
    outpoint: OutPoint,
)
    requires
        updater.new.contains_key(outpoint),
        updater.spent.contains_key(outpoint),
        updater.new_order.contains(outpoint),
    ensures
        nowhere_new(updater.block_deltas(reverse).map, outpoint),
        spent_at(updater.block_deltas(reverse).map, updater.new[outpoint], outpoint),
        !spk_after(index, updater.block_deltas(reverse).map)[updater.new[outpoint]].contains(
            outpoint,
        ),
        !updater.kept().contains_key(outpoint),
{
    let olds = old_spent(updater.spent_order, updater.new);
    let grouped = Deltas::empty().group_spent(reverse, olds);
    lemma_group_spent_keeps(Deltas::empty(), reverse, olds, outpoint);
    lemma_group_new_keeps(
        grouped,
        updater.new,
        updater.spent.dom(),
        updater.new_order,
        updater.new[outpoint],
        outpoint,
    );
    let deltas = updater.block_deltas(reverse);
    let script = updater.new[outpoint];
    crate::store::lemma_apply_delta_excludes_spent(
        list_at(index, script),
        deltas.map[script],
        outpoint,
    );
}

/// The order of the noted outputs names each of them once.
pub proof fn lemma_noted_once(updater: &AddressUpdater)
    ensures
        forall|o: OutPoint| updater@.new_order.contains(o) <==> #[trigger] updater@.new.contains_key(o),
        forall|o: OutPoint|
            updater@.spent_order.contains(o) <==> #[trigger] updater@.spent.contains_key(o),
{
    updater.new_outpoints.lemma_keys();
    updater.spent_outpoints.lemma_keys();
}

} // verus!
