use crate::artifact::{ArtifactView, Edict, TransactionView};
use crate::balances::{
    balance_of, credit, credit_all, credit_positive, debit, has_id, index_of_id,
};
use crate::cache::CacheView;
use crate::ids::OutPoint;
use crate::model::{SpentInputView, TransactionStateChangeView, TxOutEntryView};
use crate::rune::Rune;
use crate::rune_amount::RuneAmount;
use crate::rune_id::RuneId;
use crate::rune_parser::{
    assign_leftovers, carry_out, collect_outputs, destinations, etched_rune, gather_inputs,
    index_runes_spec, leftover_target, min_amount, mint_amount, AllocationView,
};
use crate::store::StoreView;
use vstd::prelude::*;

verus! {

/// What an amount adds to the total of a rune.
pub open spec fn part_of(amount: RuneAmount, id: RuneId) -> nat {
    if amount.rune_id == id {
        amount.amount as nat
    } else {
        0
    }
}

/// The total of a rune in a list of amounts.
pub open spec fn amount_of(list: Seq<RuneAmount>, id: RuneId) -> nat
    decreases list.len(),
{
    if list.len() == 0 {
        0
    } else {
        amount_of(list.drop_last(), id) + part_of(list.last(), id)
    }
}

/// The total of a rune in the first `n` lists of amounts.
pub open spec fn total_of(lists: Seq<Seq<RuneAmount>>, n: nat, id: RuneId) -> nat
    recommends
        n <= lists.len(),
    decreases n,
{
    if n == 0 {
        0
    } else {
        total_of(lists, (n - 1) as nat, id) + amount_of(lists[n - 1], id)
    }
}

pub proof fn lemma_amount_of_push(list: Seq<RuneAmount>, x: RuneAmount, id: RuneId)
    ensures
        amount_of(list.push(x), id) == amount_of(list, id) + part_of(x, id),
{
    assert(list.push(x).drop_last() =~= list);
}

pub proof fn lemma_amount_of_update(list: Seq<RuneAmount>, i: int, x: RuneAmount, id: RuneId)
    requires
        0 <= i < list.len(),
    ensures
        amount_of(list.update(i, x), id) + part_of(list[i], id) == amount_of(list, id) + part_of(
            x,
            id,
        ),
    decreases list.len(),
{
    if i == list.len() - 1 {
        assert(list.update(i, x).drop_last() =~= list.drop_last());
    } else {
        lemma_amount_of_update(list.drop_last(), i, x, id);
        assert(list.update(i, x).drop_last() =~= list.drop_last().update(i, x));
    }
}

/// The place of the first balance of a rune is a place of a balance of
/// that rune.
pub proof fn lemma_index_of_id_valid(list: Seq<RuneAmount>, id: RuneId)
    requires
        has_id(list, id),
    ensures
        0 <= index_of_id(list, id) < list.len(),
        list[index_of_id(list, id)].rune_id == id,
        forall|j: int| 0 <= j < index_of_id(list, id) ==> (#[trigger] list[j]).rune_id != id,
{
    let w = choose|i: int| 0 <= i < list.len() && (#[trigger] list[i]).rune_id == id;
    lemma_first_exists(list, id, w);
}

proof fn lemma_first_exists(list: Seq<RuneAmount>, id: RuneId, w: int)
    requires
        0 <= w < list.len(),
        list[w].rune_id == id,
    ensures
        exists|i: int|
            0 <= i < list.len() && (#[trigger] list[i]).rune_id == id && forall|j: int|
                0 <= j < i ==> (#[trigger] list[j]).rune_id != id,
    decreases w,
{
    if exists|j: int| 0 <= j < w && (#[trigger] list[j]).rune_id == id {
        let j = choose|j: int| 0 <= j < w && (#[trigger] list[j]).rune_id == id;
        lemma_first_exists(list, id, j);
    } else {
        assert(list[w].rune_id == id && forall|j: int|
            0 <= j < w ==> (#[trigger] list[j]).rune_id != id);
    }
}

/// Adding an amount to a list adds it to the total of its rune, if the
/// sum fits.
pub proof fn lemma_credit_total(list: Seq<RuneAmount>, rune: RuneId, amount: u128, id: RuneId)
    ensures
        credit(list, rune, amount).1 ==> amount_of(credit(list, rune, amount).0, id) == amount_of(
            list,
            id,
        ) + part_of(RuneAmount { rune_id: rune, amount }, id),
        has_id(credit(list, rune, amount).0, rune),
        forall|other: RuneId| has_id(list, other) ==> has_id(credit(list, rune, amount).0, other),
{
    let next = credit(list, rune, amount).0;
    if has_id(list, rune) {
        lemma_index_of_id_valid(list, rune);
        let i = index_of_id(list, rune);
        if credit(list, rune, amount).1 {
            lemma_amount_of_update(
                list,
                i,
                RuneAmount { rune_id: rune, amount: (list[i].amount + amount) as u128 },
                id,
            );
        }
        assert(next[i].rune_id == rune);
        assert forall|other: RuneId| has_id(list, other) implies has_id(next, other) by {
            let k = choose|k: int| 0 <= k < list.len() && (#[trigger] list[k]).rune_id == other;
            assert(next[k].rune_id == other);
        }
    } else {
        lemma_amount_of_push(list, RuneAmount { rune_id: rune, amount }, id);
        assert(next[list.len() as int].rune_id == rune);
        assert forall|other: RuneId| has_id(list, other) implies has_id(next, other) by {
            let k = choose|k: int| 0 <= k < list.len() && (#[trigger] list[k]).rune_id == other;
            assert(next[k].rune_id == other);
        }
    }
}

/// Taking an amount from a balance that covers it takes it from the total
/// of its rune.
pub proof fn lemma_debit_total(list: Seq<RuneAmount>, rune: RuneId, amount: u128, id: RuneId)
    requires
        has_id(list, rune),
        amount <= balance_of(list, rune).unwrap(),
    ensures
        amount_of(debit(list, rune, amount), id) + part_of(RuneAmount { rune_id: rune, amount }, id)
            == amount_of(list, id),
        has_id(debit(list, rune, amount), rune),
        balance_of(debit(list, rune, amount), rune) == Some(
            (balance_of(list, rune).unwrap() - amount) as u128,
        ),
{
    lemma_index_of_id_valid(list, rune);
    let i = index_of_id(list, rune);
    let entry = RuneAmount { rune_id: rune, amount: (list[i].amount - amount) as u128 };
    let next = list.update(i, entry);
    assert(debit(list, rune, amount) == next);
    lemma_amount_of_update(list, i, entry, id);
    lemma_update_keeps_first(list, rune, i, entry);
}

/// Replacing the first balance of a rune by another balance of that rune
/// keeps its place.
proof fn lemma_update_keeps_first(list: Seq<RuneAmount>, rune: RuneId, i: int, entry: RuneAmount)
    requires
        0 <= i < list.len(),
        entry.rune_id == rune,
        forall|j: int| 0 <= j < i ==> (#[trigger] list[j]).rune_id != rune,
    ensures
        has_id(list.update(i, entry), rune),
        index_of_id(list.update(i, entry), rune) == i,
{
    let next = list.update(i, entry);
    assert(next[i].rune_id == rune);
    assert forall|j: int| 0 <= j < i implies (#[trigger] next[j]).rune_id != rune by {
        assert(list[j].rune_id != rune);
    }
    crate::balances::lemma_index_of_id(next, rune, i);
}

pub proof fn lemma_credit_all_total(list: Seq<RuneAmount>, amounts: Seq<RuneAmount>, id: RuneId)
    ensures
        credit_all(list, amounts).1 ==> amount_of(credit_all(list, amounts).0, id) == amount_of(
            list,
            id,
        ) + amount_of(amounts, id),
    decreases amounts.len(),
{
    if amounts.len() > 0 {
        let (next, ok) = credit(list, amounts[0].rune_id, amounts[0].amount);
        lemma_credit_total(list, amounts[0].rune_id, amounts[0].amount, id);
        lemma_credit_all_total(next, amounts.skip(1), id);
        lemma_amount_of_front(amounts, id);
    }
}

/// The total of a list is that of its first amount and of the rest.
pub proof fn lemma_amount_of_front(list: Seq<RuneAmount>, id: RuneId)
    requires
        list.len() > 0,
    ensures
        amount_of(list, id) == part_of(list[0], id) + amount_of(list.skip(1), id),
    decreases list.len(),
{
    if list.len() == 1 {
        assert(list.drop_last() =~= Seq::<RuneAmount>::empty());
        assert(list.skip(1) =~= Seq::<RuneAmount>::empty());
        assert(list.last() == list[0]);
    } else {
        lemma_amount_of_front(list.drop_last(), id);
        assert(list.drop_last().skip(1) =~= list.skip(1).drop_last());
        assert(list.skip(1).last() == list.last());
        assert(list.drop_last()[0] == list[0]);
    }
}

pub proof fn lemma_credit_positive_total(list: Seq<RuneAmount>, amounts: Seq<RuneAmount>, id: RuneId)
    ensures
        credit_positive(list, amounts).1 ==> amount_of(credit_positive(list, amounts).0, id)
            == amount_of(list, id) + amount_of(amounts, id),
    decreases amounts.len(),
{
    if amounts.len() > 0 {
        lemma_amount_of_front(amounts, id);
        if amounts[0].amount == 0 {
            lemma_credit_positive_total(list, amounts.skip(1), id);
        } else {
            let (next, ok) = credit(list, amounts[0].rune_id, amounts[0].amount);
            lemma_credit_total(list, amounts[0].rune_id, amounts[0].amount, id);
            lemma_credit_positive_total(next, amounts.skip(1), id);
        }
    }
}

/// Replacing one of the first `n` lists changes the total by the
/// difference of the totals of the two lists.
pub proof fn lemma_total_of_update(
    lists: Seq<Seq<RuneAmount>>,
    n: nat,
    v: int,
    list: Seq<RuneAmount>,
    id: RuneId,
)
    requires
        n <= lists.len(),
        0 <= v < lists.len(),
    ensures
        v < n ==> total_of(lists.update(v, list), n, id) + amount_of(lists[v], id) == total_of(
            lists,
            n,
            id,
        ) + amount_of(list, id),
        v >= n ==> total_of(lists.update(v, list), n, id) == total_of(lists, n, id),
    decreases n,
{
    if n > 0 {
        lemma_total_of_update(lists, (n - 1) as nat, v, list, id);
    }
}

/// What the balances to assign and those assigned hold of a rune in all.
pub open spec fn held(a: AllocationView, id: RuneId) -> nat {
    amount_of(a.unallocated, id) + total_of(a.allocated, a.allocated.len(), id)
}

/// Moving an amount that the balance covers from the balances to assign to
/// an output keeps what is held of every rune.
pub proof fn lemma_allocate_keeps(a: AllocationView, rune: RuneId, amount: u128, output: int, id: RuneId)
    requires
        has_id(a.unallocated, rune),
        amount <= balance_of(a.unallocated, rune).unwrap(),
    ensures
        a.allocate(rune, amount, output).ok ==> a.ok && held(
            a.allocate(rune, amount, output),
            id,
        ) == held(a, id),
        a.allocate(rune, amount, output).allocated.len() == a.allocated.len(),
        has_id(a.allocate(rune, amount, output).unallocated, rune),
        balance_of(a.allocate(rune, amount, output).unallocated, rune).unwrap() + (if amount > 0
            && 0 <= output < a.allocated.len() {
            amount as int
        } else {
            0
        }) == balance_of(a.unallocated, rune).unwrap(),
{
    if amount > 0 && 0 <= output < a.allocated.len() {
        lemma_credit_total(a.allocated[output], rune, amount, id);
        lemma_debit_total(a.unallocated, rune, amount, id);
        let (list, ok) = credit(a.allocated[output], rune, amount);
        lemma_total_of_update(a.allocated, a.allocated.len(), output, list, id);
    }
}

pub proof fn lemma_spread_fixed_keeps(
    a: AllocationView,
    rune: RuneId,
    amount: u128,
    dest: Seq<usize>,
    from: nat,
    id: RuneId,
)
    requires
        has_id(a.unallocated, rune),
    ensures
        a.spread_fixed(rune, amount, dest, from).ok ==> a.ok && held(
            a.spread_fixed(rune, amount, dest, from),
            id,
        ) == held(a, id),
        a.spread_fixed(rune, amount, dest, from).allocated.len() == a.allocated.len(),
    decreases dest.len() - from,
{
    if from < dest.len() {
        let balance = balance_of(a.unallocated, rune).unwrap_or(0);
        let part = min_amount(amount, balance);
        lemma_allocate_keeps(a, rune, part, dest[from as int] as int, id);
        lemma_spread_fixed_keeps(
            a.allocate(rune, part, dest[from as int] as int),
            rune,
            amount,
            dest,
            from + 1,
            id,
        );
    }
}

/// What is still to be given out when a balance is divided evenly, from
/// destination `from` on.
pub open spec fn still_due(share: u128, remainder: int, count: nat, from: nat) -> int {
    (count - from) * share + (if remainder > from {
        remainder - from
    } else {
        0
    })
}

pub proof fn lemma_spread_even_keeps(
    a: AllocationView,
    rune: RuneId,
    share: u128,
    remainder: int,
    dest: Seq<usize>,
    from: nat,
    id: RuneId,
)
    requires
        has_id(a.unallocated, rune),
        from <= dest.len(),
        0 <= remainder,
        remainder > 0 ==> share < u128::MAX,
        balance_of(a.unallocated, rune).unwrap() >= still_due(share, remainder, dest.len(), from),
    ensures
        a.spread_even(rune, share, remainder, dest, from).ok ==> a.ok && held(
            a.spread_even(rune, share, remainder, dest, from),
            id,
        ) == held(a, id),
        a.spread_even(rune, share, remainder, dest, from).allocated.len() == a.allocated.len(),
    decreases dest.len() - from,
{
    if from < dest.len() {
        let part: u128 = if from < remainder {
            (share + 1) as u128
        } else {
            share
        };
        let count = dest.len();
        assert(still_due(share, remainder, count, from) == part + still_due(
            share,
            remainder,
            count,
            from + 1,
        )) by (nonlinear_arith)
            requires
                from < count,
                0 <= remainder,
                part == (if from < remainder {
                    share + 1
                } else {
                    share as int
                }),
                still_due(share, remainder, count, from) == (count - from) * share + (if remainder
                    > from {
                    remainder - from
                } else {
                    0
                }),
                still_due(share, remainder, count, from + 1) == (count - (from + 1)) * share + (
                if remainder > from + 1 {
                    remainder - (from + 1)
                } else {
                    0
                }),
        ;
        assert(still_due(share, remainder, count, from + 1) >= 0) by (nonlinear_arith)
            requires
                from + 1 <= count,
                still_due(share, remainder, count, from + 1) == (count - (from + 1)) * share + (
                if remainder > from + 1 {
                    remainder - (from + 1)
                } else {
                    0
                }),
        ;
        lemma_allocate_keeps(a, rune, part, dest[from as int] as int, id);
        let next = a.allocate(rune, part, dest[from as int] as int);
        lemma_spread_even_keeps(next, rune, share, remainder, dest, from + 1, id);
    }
}

pub proof fn lemma_edict_keeps(
    a: AllocationView,
    edict: Edict,
    etched: Option<RuneId>,
    dest: Seq<usize>,
    id: RuneId,
)
    requires
        dest.len() <= usize::MAX,
    ensures
        a.edict(edict, etched, dest).ok ==> a.ok && held(a.edict(edict, etched, dest), id) == held(
            a,
            id,
        ),
        a.edict(edict, etched, dest).allocated.len() == a.allocated.len(),
{
    let n = a.allocated.len();
    let rune = if edict.id == (RuneId { block: 0, tx: 0 }) {
        etched
    } else {
        Some(edict.id)
    };
    if rune.is_some() && balance_of(a.unallocated, rune.unwrap()).is_some() {
        let rune = rune.unwrap();
        let balance = balance_of(a.unallocated, rune).unwrap();
        if edict.output == n {
            if dest.len() > 0 {
                if edict.amount == 0 {
                    let count = dest.len() as u128;
                    let share = (balance / count) as u128;
                    let remainder = (balance % count) as int;
                    assert(balance == count * share + remainder && (remainder > 0 ==> share
                        < u128::MAX) && 0 <= remainder) by (nonlinear_arith)
                        requires
                            count > 0,
                            share == balance / count,
                            remainder == balance % count,
                            balance <= u128::MAX,
                    ;
                    assert(still_due(share, remainder, dest.len(), 0) == balance) by (nonlinear_arith)
                        requires
                            balance == count * share + remainder,
                            count == dest.len(),
                            0 <= remainder,
                            still_due(share, remainder, dest.len(), 0) == (dest.len() - 0) * share
                                + (if remainder > 0 {
                                remainder - 0
                            } else {
                                0
                            }),
                    ;
                    lemma_spread_even_keeps(a, rune, share, remainder, dest, 0, id);
                } else {
                    lemma_spread_fixed_keeps(a, rune, edict.amount, dest, 0, id);
                }
            }
        } else if edict.output < n {
            let amount = if edict.amount == 0 {
                balance
            } else {
                min_amount(edict.amount, balance)
            };
            lemma_allocate_keeps(a, rune, amount, edict.output as int, id);
        }
    }
}

pub proof fn lemma_edicts_keep(
    a: AllocationView,
    edicts: Seq<Edict>,
    etched: Option<RuneId>,
    dest: Seq<usize>,
    id: RuneId,
)
    requires
        dest.len() <= usize::MAX,
    ensures
        a.edicts(edicts, etched, dest).ok ==> a.ok && held(a.edicts(edicts, etched, dest), id)
            == held(a, id),
        a.edicts(edicts, etched, dest).allocated.len() == a.allocated.len(),
    decreases edicts.len(),
{
    if edicts.len() > 0 {
        lemma_edict_keeps(a, edicts[0], etched, dest, id);
        lemma_edicts_keep(a.edict(edicts[0], etched, dest), edicts.skip(1), etched, dest, id);
    }
}

/// The total of a rune in the balances of the first `n` consumed inputs.
pub open spec fn total_inputs(inputs: Seq<SpentInputView>, n: nat, id: RuneId) -> nat
    recommends
        n <= inputs.len(),
    decreases n,
{
    if n == 0 {
        0
    } else {
        total_inputs(inputs, (n - 1) as nat, id) + amount_of(inputs[n - 1].runes, id)
    }
}

/// The total of a rune in the balances of the first `n` produced outputs.
pub open spec fn total_outputs(outputs: Seq<TxOutEntryView>, n: nat, id: RuneId) -> nat
    recommends
        n <= outputs.len(),
    decreases n,
{
    if n == 0 {
        0
    } else {
        total_outputs(outputs, (n - 1) as nat, id) + amount_of(outputs[n - 1].runes, id)
    }
}

pub proof fn lemma_total_inputs_prefix(
    inputs: Seq<SpentInputView>,
    more: SpentInputView,
    n: nat,
    id: RuneId,
)
    requires
        n <= inputs.len(),
    ensures
        total_inputs(inputs.push(more), n, id) == total_inputs(inputs, n, id),
    decreases n,
{
    if n > 0 {
        lemma_total_inputs_prefix(inputs, more, (n - 1) as nat, id);
    }
}

pub proof fn lemma_total_outputs_prefix(
    outputs: Seq<TxOutEntryView>,
    more: TxOutEntryView,
    n: nat,
    id: RuneId,
)
    requires
        n <= outputs.len(),
    ensures
        total_outputs(outputs.push(more), n, id) == total_outputs(outputs, n, id),
    decreases n,
{
    if n > 0 {
        lemma_total_outputs_prefix(outputs, more, (n - 1) as nat, id);
    }
}

/// What enters a transaction through its inputs is the total of their
/// balances.
pub proof fn lemma_gather_inputs_total(
    cache: CacheView,
    db: StoreView,
    inputs: Seq<OutPoint>,
    n: nat,
    id: RuneId,
)
    requires
        n <= inputs.len(),
    ensures
        gather_inputs(cache, db, inputs, n).2 ==> amount_of(
            gather_inputs(cache, db, inputs, n).1,
            id,
        ) == total_inputs(
            gather_inputs(cache, db, inputs, n).0,
            gather_inputs(cache, db, inputs, n).0.len(),
            id,
        ),
    decreases n,
{
    if n > 0 {
        lemma_gather_inputs_total(cache, db, inputs, (n - 1) as nat, id);
        let (ins, sum, ok) = gather_inputs(cache, db, inputs, (n - 1) as nat);
        let outpoint = inputs[n - 1];
        match cache.tx_out(db, outpoint) {
            Some(entry) => {
                if !entry.spent {
                    lemma_credit_all_total(sum, entry.runes, id);
                    lemma_total_inputs_prefix(
                        ins,
                        SpentInputView { outpoint, runes: entry.runes },
                        ins.len(),
                        id,
                    );
                }
            },
            None => {},
        }
    }
}

/// What the premine of an etching adds to the total of a rune.
pub open spec fn premine_part(
    artifact: Option<ArtifactView>,
    etched: Option<(RuneId, Rune)>,
    id: RuneId,
) -> nat {
    match artifact {
        Some(ArtifactView::Runestone(stone)) => if etched.is_some() && stone.etching.is_some()
            && etched.unwrap().0 == id {
            stone.etching.unwrap().premine.unwrap_or(0) as nat
        } else {
            0
        },
        _ => 0,
    }
}

pub proof fn lemma_carry_out_keeps(
    start: AllocationView,
    artifact: Option<ArtifactView>,
    etched: Option<(RuneId, Rune)>,
    dest: Seq<usize>,
    id: RuneId,
)
    requires
        dest.len() <= usize::MAX,
    ensures
        carry_out(start, artifact, etched, dest).ok ==> start.ok && held(
            carry_out(start, artifact, etched, dest),
            id,
        ) == held(start, id) + premine_part(artifact, etched, id),
        carry_out(start, artifact, etched, dest).allocated.len() == start.allocated.len(),
{
    match artifact {
        Some(ArtifactView::Runestone(stone)) => {
            let etched_id = match etched {
                Some((rid, _)) => Some(rid),
                None => None,
            };
            let (sum, ok) = if etched.is_some() && stone.etching.is_some() {
                credit(
                    start.unallocated,
                    etched.unwrap().0,
                    stone.etching.unwrap().premine.unwrap_or(0),
                )
            } else {
                (start.unallocated, true)
            };
            if etched.is_some() && stone.etching.is_some() {
                lemma_credit_total(
                    start.unallocated,
                    etched.unwrap().0,
                    stone.etching.unwrap().premine.unwrap_or(0),
                    id,
                );
            }
            let begun = AllocationView { unallocated: sum, ok: start.ok && ok, ..start };
            lemma_edicts_keep(begun, stone.edicts, etched_id, dest, id);
        },
        _ => {},
    }
}

pub proof fn lemma_assign_leftovers_keeps(
    alloc: AllocationView,
    artifact: Option<ArtifactView>,
    dest: Seq<usize>,
    id: RuneId,
)
    requires
        forall|i: int| 0 <= i < dest.len() ==> (#[trigger] dest[i]) < alloc.allocated.len(),
    ensures
        assign_leftovers(alloc, artifact, dest).2 ==> alloc.ok && total_of(
            assign_leftovers(alloc, artifact, dest).0,
            alloc.allocated.len(),
            id,
        ) + amount_of(assign_leftovers(alloc, artifact, dest).1, id) == held(alloc, id),
        assign_leftovers(alloc, artifact, dest).0.len() == alloc.allocated.len(),
{
    let n = alloc.allocated.len();
    let pointer = match artifact {
        Some(ArtifactView::Runestone(stone)) => stone.pointer,
        _ => None,
    };
    let cenotaph = artifact.is_some() && artifact.unwrap() is Cenotaph;
    let target = leftover_target(pointer, dest, n);
    if cenotaph || target.is_none() {
        lemma_credit_positive_total(Seq::empty(), alloc.unallocated, id);
    } else {
        let v = target.unwrap() as int;
        assert(0 <= v < n) by {
            if !(pointer.is_some() && pointer.unwrap() < n) {
                assert(dest[0] < n);
            }
        }
        lemma_credit_positive_total(alloc.allocated[v], alloc.unallocated, id);
        let (list, ok) = credit_positive(alloc.allocated[v], alloc.unallocated);
        lemma_total_of_update(alloc.allocated, n, v, list, id);
    }
}

pub proof fn lemma_collect_outputs_total(
    allocated: Seq<Seq<RuneAmount>>,
    scripts: Seq<Seq<u8>>,
    values: Seq<u64>,
    burned: Seq<RuneAmount>,
    n: nat,
    id: RuneId,
)
    requires
        n <= allocated.len(),
    ensures
        collect_outputs(allocated, scripts, values, burned, n).0.len() == n,
        collect_outputs(allocated, scripts, values, burned, n).2 ==> total_outputs(
            collect_outputs(allocated, scripts, values, burned, n).0,
            n,
            id,
        ) + amount_of(collect_outputs(allocated, scripts, values, burned, n).1, id) == total_of(
            allocated,
            n,
            id,
        ) + amount_of(burned, id),
    decreases n,
{
    if n > 0 {
        lemma_collect_outputs_total(allocated, scripts, values, burned, (n - 1) as nat, id);
        let (outs, b, ok) = collect_outputs(allocated, scripts, values, burned, (n - 1) as nat);
        if crate::ids::ScriptPubKey::spec_is_op_return(scripts[n - 1]) {
            lemma_credit_positive_total(b, allocated[n - 1], id);
            let more = TxOutEntryView { runes: Seq::empty(), value: values[n - 1], spent: false };
            lemma_total_outputs_prefix(outs, more, (n - 1) as nat, id);
        } else {
            let more = TxOutEntryView { runes: allocated[n - 1], value: values[n - 1], spent: false };
            lemma_total_outputs_prefix(outs, more, (n - 1) as nat, id);
        }
    }
}

pub proof fn lemma_no_balances(n: nat, k: nat, id: RuneId)
    requires
        k <= n,
    ensures
        total_of(Seq::new(n, |i: int| Seq::<RuneAmount>::empty()), k, id) == 0,
    decreases k,
{
    if k > 0 {
        lemma_no_balances(n, (k - 1) as nat, id);
    }
}

/// What a state change mints of a rune.
pub open spec fn minted_part(change: TransactionStateChangeView, id: RuneId) -> nat {
    match change.minted {
        Some(m) => part_of(m, id),
        None => 0,
    }
}

/// A transaction conserves every rune: what its inputs held of the rune,
/// what it mints of it and what it premines of it is what its outputs
/// hold of the rune and what it burns of it.
pub proof fn lemma_transaction_conserves_runes(
    cache: CacheView,
    db: StoreView,
    height: u64,
    tx_index: u32,
    tx: TransactionView,
    artifact: Option<ArtifactView>,
    minimum: u128,
    commitment: bool,
    id: RuneId,
)
    requires
        tx.scripts.len() <= usize::MAX,
        index_runes_spec(cache, db, height, tx_index, tx, artifact, minimum, commitment).is_ok(),
    ensures
        ({
            let change = index_runes_spec(
                cache,
                db,
                height,
                tx_index,
                tx,
                artifact,
                minimum,
                commitment,
            ).unwrap();
            total_inputs(change.inputs, change.inputs.len(), id) + minted_part(change, id)
                + premine_part(artifact, change.etched, id) == total_outputs(
                change.outputs,
                change.outputs.len(),
                id,
            ) + amount_of(change.burned, id)
        }),
{
    reveal(index_runes_spec);
    let n = tx.scripts.len();
    let (inputs, sum0, ok0) = gather_inputs(cache, db, tx.inputs, tx.inputs.len());
    lemma_gather_inputs_total(cache, db, tx.inputs, tx.inputs.len(), id);
    let minted = match artifact {
        Some(a) => mint_amount(cache, db, a, height),
        None => None,
    };
    let (sum1, ok1) = match minted {
        Some(m) => credit(sum0, m.rune_id, m.amount),
        None => (sum0, true),
    };
    if minted.is_some() {
        lemma_credit_total(sum0, minted.unwrap().rune_id, minted.unwrap().amount, id);
    }
    let etched = match artifact {
        Some(a) => etched_rune(cache, db, a, height, tx_index, minimum, commitment),
        None => None,
    };
    let dest = destinations(tx.scripts, n);
    crate::rune_parser::lemma_destinations_in_range(tx.scripts, n);
    lemma_destinations_len(tx.scripts, n);
    let start = AllocationView {
        unallocated: sum1,
        allocated: Seq::new(n, |i: int| Seq::<RuneAmount>::empty()),
        ok: ok0 && ok1,
    };
    lemma_no_balances(n, n, id);
    let alloc = carry_out(start, artifact, etched, dest);
    lemma_carry_out_keeps(start, artifact, etched, dest, id);
    lemma_assign_leftovers_keeps(alloc, artifact, dest, id);
    let (allocated, burned0, ok2) = assign_leftovers(alloc, artifact, dest);
    lemma_collect_outputs_total(allocated, tx.scripts, tx.values, burned0, n, id);
}

/// There are no more destinations than outputs.
pub proof fn lemma_destinations_len(scripts: Seq<Seq<u8>>, n: nat)
    ensures
        destinations(scripts, n).len() <= n,
    decreases n,
{
    if n > 0 {
        lemma_destinations_len(scripts, (n - 1) as nat);
    }
}

} // verus!
