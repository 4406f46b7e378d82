//! A transaction that moves no rune: where the mint that its message asks
//! for is refused and none of its inputs holds runes, the parser finds
//! nothing to record.

use crate::artifact::{ArtifactView, Edict, TransactionView};
use crate::balances::{balance_of, credit_all, credit_positive, has_id};
use crate::cache::CacheView;
use crate::ids::OutPoint;
use crate::rune_amount::RuneAmount;
use crate::rune_id::RuneId;
use crate::rune_parser::{
    assign_leftovers, carry_out, collect_outputs, destinations, etching_name, gather_inputs,
    index_runes_spec, mint_amount, AllocationView,
};
use crate::store::StoreView;
use vstd::prelude::*;

verus! {

/// Whether none of the outputs that a transaction consumes holds runes
/// that count: each is unknown, spent, or without runes.
pub open spec fn inputs_hold_no_runes(cache: CacheView, db: StoreView, inputs: Seq<OutPoint>) -> bool {
    forall|i: int|
        0 <= i < inputs.len() ==> match cache.tx_out(db, #[trigger] inputs[i]) {
            Some(entry) => entry.spent || entry.runes.len() == 0,
            None => true,
        }
}

proof fn lemma_gathers_nothing(cache: CacheView, db: StoreView, inputs: Seq<OutPoint>, n: nat)
    requires
        n <= inputs.len(),
        inputs_hold_no_runes(cache, db, inputs),
    ensures
        gather_inputs(cache, db, inputs, n).1 == Seq::<RuneAmount>::empty(),
        gather_inputs(cache, db, inputs, n).2,
        forall|j: int|
            0 <= j < gather_inputs(cache, db, inputs, n).0.len() ==> (#[trigger] gather_inputs(
                cache,
                db,
                inputs,
                n,
            ).0[j]).runes.len() == 0,
    decreases n,
{
    if n > 0 {
        lemma_gathers_nothing(cache, db, inputs, (n - 1) as nat);
        let (ins, sum, ok) = gather_inputs(cache, db, inputs, (n - 1) as nat);
        let o = inputs[n - 1];
        match cache.tx_out(db, o) {
            Some(entry) => {
                if !entry.spent {
                    assert(entry.runes =~= Seq::<RuneAmount>::empty());
                    assert(credit_all(sum, entry.runes) == (sum, true));
                }
            },
            None => {},
        }
    }
}

proof fn lemma_edicts_without_balances(
    a: AllocationView,
    edicts: Seq<Edict>,
    etched: Option<RuneId>,
    dest: Seq<usize>,
)
    requires
        a.unallocated == Seq::<RuneAmount>::empty(),
    ensures
        a.edicts(edicts, etched, dest) == a,
    decreases edicts.len(),
{
    if edicts.len() > 0 {
        assert forall|id: RuneId| balance_of(a.unallocated, id).is_none() by {
            assert(!has_id(a.unallocated, id));
        }
        assert(a.edict(edicts[0], etched, dest) == a);
        lemma_edicts_without_balances(a, edicts.skip(1), etched, dest);
    }
}

proof fn lemma_collects_nothing(
    allocated: Seq<Seq<RuneAmount>>,
    scripts: Seq<Seq<u8>>,
    values: Seq<u64>,
    n: nat,
)
    requires
        n <= allocated.len(),
        forall|i: int| 0 <= i < allocated.len() ==> (#[trigger] allocated[i]).len() == 0,
    ensures
        collect_outputs(allocated, scripts, values, Seq::empty(), n).1 == Seq::<RuneAmount>::empty(),
        collect_outputs(allocated, scripts, values, Seq::empty(), n).2,
        collect_outputs(allocated, scripts, values, Seq::empty(), n).0.len() == n,
        forall|i: int|
            0 <= i < n ==> (#[trigger] collect_outputs(
                allocated,
                scripts,
                values,
                Seq::empty(),
                n,
            ).0[i]).runes.len() == 0,
    decreases n,
{
    if n > 0 {
        lemma_collects_nothing(allocated, scripts, values, (n - 1) as nat);
        let (outs, b, ok) = collect_outputs(allocated, scripts, values, Seq::empty(), (n - 1) as nat);
        assert(allocated[n - 1].len() == 0);
        assert(credit_positive(b, allocated[n - 1]) == (b, true));
    }
}

/// A transaction whose message etches nothing, whose mint is refused and
/// whose inputs hold no runes changes nothing about runes: its state
/// change has no mint, no etching, no burn and no output with runes.
pub proof fn lemma_refused_mint_changes_nothing(
    cache: CacheView,
    db: StoreView,
    height: u64,
    tx_index: u32,
    tx: TransactionView,
    artifact: ArtifactView,
    minimum: u128,
    commitment: bool,
)
    requires
        tx.scripts.len() <= usize::MAX,
        etching_name(artifact).is_none(),
        mint_amount(cache, db, artifact, height).is_none(),
        inputs_hold_no_runes(cache, db, tx.inputs),
    ensures
        index_runes_spec(cache, db, height, tx_index, tx, Some(artifact), minimum, commitment).is_ok(),
        !index_runes_spec(
            cache,
            db,
            height,
            tx_index,
            tx,
            Some(artifact),
            minimum,
            commitment,
        ).unwrap().has_rune_updates(),
{
    reveal(index_runes_spec);
    let n = tx.scripts.len();
    lemma_gathers_nothing(cache, db, tx.inputs, tx.inputs.len());
    let (inputs, sum0, ok0) = gather_inputs(cache, db, tx.inputs, tx.inputs.len());
    let dest = destinations(tx.scripts, n);
    let start = AllocationView {
        unallocated: sum0,
        allocated: Seq::new(n, |i: int| Seq::<RuneAmount>::empty()),
        ok: true,
    };
    match artifact {
        ArtifactView::Runestone(stone) => {
            lemma_edicts_without_balances(start, stone.edicts, None, dest);
        },
        ArtifactView::Cenotaph(_) => {},
    }
    let alloc = carry_out(start, Some(artifact), None, dest);
    assert(alloc == start);
    let (allocated, burned0, ok2) = assign_leftovers(alloc, Some(artifact), dest);
    assert(credit_positive(Seq::<RuneAmount>::empty(), alloc.unallocated) == (
        Seq::<RuneAmount>::empty(),
        true,
    ));
    assert(burned0 == Seq::<RuneAmount>::empty());
    assert(allocated =~= start.allocated) by {
        let pointer = match artifact {
            ArtifactView::Runestone(stone) => stone.pointer,
            _ => None,
        };
        let target = crate::rune_parser::leftover_target(pointer, dest, n);
        if target.is_some() && !(artifact is Cenotaph) {
            let v = target.unwrap() as int;
            crate::rune_parser::lemma_destinations_in_range(tx.scripts, n);
            if 0 <= v < n {
                assert(credit_positive(alloc.allocated[v], alloc.unallocated) == (
                    alloc.allocated[v],
                    true,
                ));
            }
        }
    }
    lemma_collects_nothing(allocated, tx.scripts, tx.values, n);
    let change = index_runes_spec(
        cache,
        db,
        height,
        tx_index,
        tx,
        Some(artifact),
        minimum,
        commitment,
    ).unwrap();
    assert(change.burned.len() == 0);
    assert(change.minted.is_none());
    assert(change.etched.is_none());
}

} // verus!
