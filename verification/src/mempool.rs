//! The order in which new transactions of the mempool are indexed: a
//! transaction that spends an output of another new transaction comes
//! after it.

use crate::ids::SerializedTxid;
use crate::updater::{tx_views, IndexedTransaction, IndexedTransactionView};
use vstd::prelude::*;

verus! {

/// Whether the transaction spends an output of the transaction `parent`.
pub open spec fn spends_from(tx: IndexedTransactionView, parent: SerializedTxid) -> bool {
    exists|k: int|
        0 <= k < tx.transaction.inputs.len() && (#[trigger] tx.transaction.inputs[k]).txid
            == parent
}

/// Whether the transaction at `k` spends from no other transaction of the
/// list.
pub open spec fn ready(rest: Seq<IndexedTransactionView>, k: int) -> bool {
    forall|j: int|
        0 <= j < rest.len() && j != k ==> !spends_from(rest[k], (#[trigger] rest[j]).txid)
}

/// The first place from `from` on whose transaction is ready.
pub open spec fn first_ready(rest: Seq<IndexedTransactionView>, from: int) -> Option<int>
    decreases rest.len() - from,
{
    if from >= rest.len() {
        None
    } else if ready(rest, from) {
        Some(from)
    } else {
        first_ready(rest, from + 1)
    }
}

/// The transactions in the order in which they are indexed, and those
/// that cannot be ordered. The first ready transaction is taken out and
/// put next, until none is ready; what is left then cannot be ordered.
pub open spec fn order(rest: Seq<IndexedTransactionView>) -> (
    Seq<IndexedTransactionView>,
    Seq<IndexedTransactionView>,
)
    decreases rest.len(),
{
    match first_ready(rest, 0) {
        Some(k) => if 0 <= k < rest.len() {
            let next = order(rest.remove(k));
            (seq![rest[k]] + next.0, next.1)
        } else {
            (Seq::empty(), rest)
        },
        None => (Seq::empty(), rest),
    }
}

/// No transaction of the list spends from one that comes after it.
pub open spec fn parents_first(s: Seq<IndexedTransactionView>) -> bool {
    forall|i: int, j: int|
        0 <= i < j < s.len() ==> !spends_from(#[trigger] s[i], (#[trigger] s[j]).txid)
}

/// No transaction of the first list spends from one of the second.
pub open spec fn apart(a: Seq<IndexedTransactionView>, b: Seq<IndexedTransactionView>) -> bool {
    forall|i: int, j: int|
        0 <= i < a.len() && 0 <= j < b.len() ==> !spends_from(
            #[trigger] a[i],
            (#[trigger] b[j]).txid,
        )
}

/// Every transaction of the list spends from another one of the list, so
/// that none of them can come first.
pub open spec fn knotted(s: Seq<IndexedTransactionView>) -> bool {
    forall|k: int| 0 <= k < s.len() ==> !ready(s, k)
}

proof fn lemma_first_ready(rest: Seq<IndexedTransactionView>, from: int)
    requires
        0 <= from,
    ensures
        match first_ready(rest, from) {
            Some(k) => {
                &&& from <= k < rest.len()
                &&& ready(rest, k)
                &&& forall|m: int| from <= m < k ==> !ready(rest, m)
            },
            None => forall|m: int| from <= m < rest.len() ==> !ready(rest, m),
        },
    decreases rest.len() - from,
{
    if from < rest.len() && !ready(rest, from) {
        lemma_first_ready(rest, from + 1);
    }
}

proof fn lemma_member(
    rest: Seq<IndexedTransactionView>,
    a: Seq<IndexedTransactionView>,
    b: Seq<IndexedTransactionView>,
    x: IndexedTransactionView,
)
    requires
        a.to_multiset().add(b.to_multiset()) == rest.to_multiset(),
        a.contains(x) || b.contains(x),
    ensures
        rest.contains(x),
{
    broadcast use vstd::multiset::group_multiset_axioms;

    vstd::seq_lib::to_multiset_contains(a, x);
    vstd::seq_lib::to_multiset_contains(b, x);
    vstd::seq_lib::to_multiset_contains(rest, x);
}

/// The order puts parents first, holds every transaction as often as the
/// list does, and leaves out only transactions that are knotted together
/// and from which no ordered transaction spends.
pub proof fn lemma_order_puts_parents_first(rest: Seq<IndexedTransactionView>)
    ensures
        parents_first(order(rest).0),
        apart(order(rest).0, order(rest).1),
        knotted(order(rest).1),
        order(rest).0.to_multiset().add(order(rest).1.to_multiset()) == rest.to_multiset(),
    decreases rest.len(),
{
    broadcast use vstd::multiset::group_multiset_axioms;

    lemma_first_ready(rest, 0);
    match first_ready(rest, 0) {
        Some(k) => {
            let x = rest[k];
            let below = rest.remove(k);
            let next = order(below);
            lemma_order_puts_parents_first(below);
            let sorted = seq![x] + next.0;
            assert(order(rest) == (sorted, next.1));
            assert forall|y: IndexedTransactionView|
                next.0.contains(y) || next.1.contains(y) implies !spends_from(x, y.txid) by {
                lemma_member(below, next.0, next.1, y);
                let m = choose|m: int| 0 <= m < below.len() && below[m] == y;
                if m < k {
                    assert(below[m] == rest[m]);
                } else {
                    assert(below[m] == rest[m + 1]);
                }
            }
            assert forall|i: int, j: int| 0 <= i < j < sorted.len() implies !spends_from(
                #[trigger] sorted[i],
                (#[trigger] sorted[j]).txid,
            ) by {
                assert(sorted[j] == next.0[j - 1]);
                if i == 0 {
                    assert(next.0.contains(next.0[j - 1]));
                } else {
                    assert(sorted[i] == next.0[i - 1]);
                }
            }
            assert forall|i: int, j: int| 0 <= i < sorted.len() && 0 <= j < next.1.len() implies
                !spends_from(#[trigger] sorted[i], (#[trigger] next.1[j]).txid) by {
                if i == 0 {
                    assert(next.1.contains(next.1[j]));
                } else {
                    assert(sorted[i] == next.0[i - 1]);
                }
            }
            assert(sorted =~= next.0.insert(0, x));
            vstd::seq_lib::to_multiset_insert(next.0, 0, x);
            vstd::seq_lib::to_multiset_remove(rest, k);
            vstd::seq_lib::to_multiset_contains(rest, x);
            assert(rest.contains(x));
            assert(sorted.to_multiset() == next.0.to_multiset().insert(x));
            assert(below.to_multiset() == rest.to_multiset().remove(x));
            assert(rest.to_multiset().count(x) > 0);
            assert(next.0.to_multiset().insert(x).add(next.1.to_multiset())
                =~= next.0.to_multiset().add(next.1.to_multiset()).insert(x));
            assert(rest.to_multiset().remove(x).insert(x) =~= rest.to_multiset());
        },
        None => {
            let none = Seq::<IndexedTransactionView>::empty();
            assert forall|y: IndexedTransactionView| none.to_multiset().count(y) == 0 by {
                vstd::seq_lib::to_multiset_contains(none, y);
            }
            assert(none.to_multiset().add(rest.to_multiset()) =~= rest.to_multiset());
        },
    }
}

/// A list that is knotted has no order that puts parents first: whichever
/// transaction comes first spends from one that comes later.
pub proof fn lemma_knotted_has_no_order(s: Seq<IndexedTransactionView>)
    requires
        knotted(s),
        s.len() > 0,
    ensures
        !parents_first(s),
{
    assert(!ready(s, 0));
    let j = choose|j: int| 0 <= j < s.len() && j != 0 && spends_from(s[0], (#[trigger] s[j]).txid);
    assert(spends_from(s[0], s[j].txid));
}

fn spends(tx: &IndexedTransaction, parent: &SerializedTxid) -> (r: bool)
    ensures
        r == spends_from(tx@, *parent),
{
    let inputs = &tx.transaction.inputs;
    let mut k: usize = 0;
    while k < inputs.len()
        invariant
            k <= inputs@.len(),
            inputs@ == tx@.transaction.inputs,
            forall|m: int| 0 <= m < k ==> (#[trigger] inputs@[m]).txid != *parent,
        decreases inputs@.len() - k,
    {
        if inputs[k].txid == *parent {
            return true;
        }
        k += 1;
    }
    false
}

fn is_ready(rest: &Vec<IndexedTransaction>, k: usize) -> (r: bool)
    requires
        k < rest@.len(),
    ensures
        r == ready(tx_views(rest@), k as int),
{
    let ghost views = tx_views(rest@);
    let mut j: usize = 0;
    while j < rest.len()
        invariant
            j <= rest@.len(),
            k < rest@.len(),
            views == tx_views(rest@),
            forall|m: int|
                0 <= m < j && m != k ==> !spends_from(views[k as int], (#[trigger] views[m]).txid),
        decreases rest@.len() - j,
    {
        if j != k && spends(&rest[k], &rest[j].txid) {
            assert(spends_from(views[k as int], views[j as int].txid));
            return false;
        }
        j += 1;
    }
    true
}

fn find_ready(rest: &Vec<IndexedTransaction>) -> (r: Option<usize>)
    ensures
        match r {
            Some(k) => first_ready(tx_views(rest@), 0) == Some(k as int) && k < rest@.len(),
            None => first_ready(tx_views(rest@), 0).is_none(),
        },
{
    let ghost views = tx_views(rest@);
    let mut k: usize = 0;
    while k < rest.len()
        invariant
            k <= rest@.len(),
            views == tx_views(rest@),
            first_ready(views, 0) == first_ready(views, k as int),
        decreases rest@.len() - k,
    {
        if is_ready(rest, k) {
            return Some(k);
        }
        k += 1;
    }
    None
}

/// Puts the transactions in the order in which they are indexed. The
/// first list holds them with every parent before its children. The
/// second list is empty unless some transactions spend from each other
/// in a circle: it holds those, and the ones that cannot come before
/// them.
pub fn sort_transaction_order(txs: Vec<IndexedTransaction>) -> (r: (
    Vec<IndexedTransaction>,
    Vec<IndexedTransaction>,
))
    ensures
        (tx_views(r.0@), tx_views(r.1@)) == order(tx_views(txs@)),
        parents_first(tx_views(r.0@)),
        apart(tx_views(r.0@), tx_views(r.1@)),
        knotted(tx_views(r.1@)),
        tx_views(r.0@).to_multiset().add(tx_views(r.1@).to_multiset()) == tx_views(
            txs@,
        ).to_multiset(),
{
    let ghost given = tx_views(txs@);
    let mut rest = txs;
    let mut sorted: Vec<IndexedTransaction> = Vec::new();
    proof {
        assert(tx_views(sorted@) + order(given).0 =~= order(given).0);
    }
    loop
        invariant
            given == tx_views(txs@),
            order(given) == (
                tx_views(sorted@) + order(tx_views(rest@)).0,
                order(tx_views(rest@)).1,
            ),
        decreases rest@.len(),
    {
        let ghost before = tx_views(rest@);
        let ghost done = tx_views(sorted@);
        match find_ready(&rest) {
            Some(k) => {
                let tx = rest.remove(k);
                sorted.push(tx);
                proof {
                    assert(tx_views(rest@) =~= before.remove(k as int));
                    assert(tx_views(sorted@) =~= done.push(before[k as int]));
                    let next = order(tx_views(rest@));
                    assert(first_ready(before, 0) == Some(k as int));
                    assert(order(before) == (seq![before[k as int]] + next.0, next.1));
                    assert(done + (seq![before[k as int]] + next.0) =~= tx_views(sorted@)
                        + next.0);
                }
            },
            None => {
                proof {
                    assert(order(before) == (Seq::<IndexedTransactionView>::empty(), before));
                    assert(tx_views(sorted@) + Seq::<IndexedTransactionView>::empty()
                        =~= tx_views(sorted@));
                    lemma_order_puts_parents_first(given);
                }
                return (sorted, rest);
            },
        }
    }
}

} // verus!
