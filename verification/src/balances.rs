use crate::rune_amount::RuneAmount;
use crate::rune_id::RuneId;
use vstd::prelude::*;

verus! {

/// Whether the list holds a balance of the rune.
pub open spec fn has_id(list: Seq<RuneAmount>, id: RuneId) -> bool {
    exists|i: int| 0 <= i < list.len() && (#[trigger] list[i]).rune_id == id
}

/// The place of the first balance of the rune in the list.
pub open spec fn index_of_id(list: Seq<RuneAmount>, id: RuneId) -> int
    recommends
        has_id(list, id),
{
    choose|i: int|
        0 <= i < list.len() && (#[trigger] list[i]).rune_id == id && forall|j: int|
            0 <= j < i ==> (#[trigger] list[j]).rune_id != id
}

/// The first balance of the rune in the list, if there is one.
pub open spec fn balance_of(list: Seq<RuneAmount>, id: RuneId) -> Option<u128> {
    if has_id(list, id) {
        Some(list[index_of_id(list, id)].amount)
    } else {
        None
    }
}

/// The list after an amount was added to the balance of a rune, and
/// whether the sum fits: the first balance of the rune grows, or, where
/// there is none, a new balance is appended. A sum that does not fit is
/// replaced by the largest amount.
pub open spec fn credit(list: Seq<RuneAmount>, id: RuneId, amount: u128) -> (Seq<RuneAmount>, bool) {
    if has_id(list, id) {
        let i = index_of_id(list, id);
        if list[i].amount + amount > u128::MAX {
            (list.update(i, RuneAmount { rune_id: id, amount: u128::MAX }), false)
        } else {
            (list.update(i, RuneAmount { rune_id: id, amount: (list[i].amount + amount) as u128 }), true)
        }
    } else {
        (list.push(RuneAmount { rune_id: id, amount }), true)
    }
}

/// The list after an amount was taken from the balance of a rune; the
/// balance does not fall below zero.
pub open spec fn debit(list: Seq<RuneAmount>, id: RuneId, amount: u128) -> Seq<RuneAmount> {
    if has_id(list, id) {
        let i = index_of_id(list, id);
        list.update(
            i,
            RuneAmount {
                rune_id: id,
                amount: if list[i].amount >= amount {
                    (list[i].amount - amount) as u128
                } else {
                    0
                },
            },
        )
    } else {
        list
    }
}

/// The list after each of the amounts was added to it in turn, and whether
/// every sum fitted.
pub open spec fn credit_all(list: Seq<RuneAmount>, amounts: Seq<RuneAmount>) -> (Seq<RuneAmount>, bool)
    decreases amounts.len(),
{
    if amounts.len() == 0 {
        (list, true)
    } else {
        let (next, ok) = credit(list, amounts[0].rune_id, amounts[0].amount);
        let (last, rest_ok) = credit_all(next, amounts.skip(1));
        (last, ok && rest_ok)
    }
}

/// The list after each of the amounts that is not zero was added to it in
/// turn, and whether every sum fitted.
pub open spec fn credit_positive(list: Seq<RuneAmount>, amounts: Seq<RuneAmount>) -> (
    Seq<RuneAmount>,
    bool,
)
    decreases amounts.len(),
{
    if amounts.len() == 0 {
        (list, true)
    } else if amounts[0].amount == 0 {
        credit_positive(list, amounts.skip(1))
    } else {
        let (next, ok) = credit(list, amounts[0].rune_id, amounts[0].amount);
        let (last, rest_ok) = credit_positive(next, amounts.skip(1));
        (last, ok && rest_ok)
    }
}

/// The first index is the only one with its properties.
pub proof fn lemma_index_of_id(list: Seq<RuneAmount>, id: RuneId, i: int)
    requires
        0 <= i < list.len(),
        list[i].rune_id == id,
        forall|j: int| 0 <= j < i ==> (#[trigger] list[j]).rune_id != id,
    ensures
        has_id(list, id),
        index_of_id(list, id) == i,
{
    let k = index_of_id(list, id);
    if k < i {
        assert(list[k].rune_id != id);
    }
    if i < k {
        assert(list[i].rune_id != id);
    }
}

/// The place of the first balance of the rune in the list.
pub fn find_id(list: &Vec<RuneAmount>, id: &RuneId) -> (r: Option<usize>)
    ensures
        r.is_some() == has_id(list@, *id),
        r.is_some() ==> r.unwrap() == index_of_id(list@, *id) && r.unwrap() < list.len()
            && list@[r.unwrap() as int].rune_id == *id,
{
    let mut i: usize = 0;
    while i < list.len()
        invariant
            i <= list.len(),
            forall|j: int| 0 <= j < i ==> (#[trigger] list@[j]).rune_id != *id,
        decreases list.len() - i,
    {
        if list[i].rune_id == *id {
            proof {
                lemma_index_of_id(list@, *id, i as int);
            }
            return Some(i);
        }
        i = i + 1;
    }
    None
}

/// The balance of the rune in the list.
pub fn get_balance(list: &Vec<RuneAmount>, id: &RuneId) -> (r: Option<u128>)
    ensures
        r == balance_of(list@, *id),
{
    match find_id(list, id) {
        Some(i) => Some(list[i].amount),
        None => None,
    }
}

/// Adds an amount to the balance of a rune; tells whether the sum fitted.
pub fn add_balance(list: &mut Vec<RuneAmount>, id: RuneId, amount: u128) -> (ok: bool)
    ensures
        (final(list)@, ok) == credit(old(list)@, id, amount),
{
    match find_id(list, &id) {
        Some(i) => {
            let current = list[i].amount;
            match current.checked_add(amount) {
                Some(sum) => {
                    list.set(i, RuneAmount { rune_id: id, amount: sum });
                    true
                },
                None => {
                    list.set(i, RuneAmount { rune_id: id, amount: u128::MAX });
                    false
                },
            }
        },
        None => {
            list.push(RuneAmount { rune_id: id, amount });
            true
        },
    }
}

/// Takes an amount from the balance of a rune.
pub fn sub_balance(list: &mut Vec<RuneAmount>, id: RuneId, amount: u128)
    ensures
        final(list)@ == debit(old(list)@, id, amount),
{
    match find_id(list, &id) {
        Some(i) => {
            let current = list[i].amount;
            list.set(i, RuneAmount { rune_id: id, amount: current.saturating_sub(amount) });
        },
        None => {},
    }
}

/// Adds each of the amounts; tells whether every sum fitted.
pub fn add_balances(list: &mut Vec<RuneAmount>, amounts: &Vec<RuneAmount>) -> (ok: bool)
    ensures
        (final(list)@, ok) == credit_all(old(list)@, amounts@),
{
    let mut ok = true;
    let mut i: usize = 0;
    proof {
        assert(amounts@.skip(0) =~= amounts@);
    }
    while i < amounts.len()
        invariant
            i <= amounts.len(),
            credit_all(old(list)@, amounts@).0 == credit_all(list@, amounts@.skip(i as int)).0,
            credit_all(old(list)@, amounts@).1 == (ok && credit_all(
                list@,
                amounts@.skip(i as int),
            ).1),
        decreases amounts.len() - i,
    {
        proof {
            assert(amounts@.skip(i as int)[0] == amounts@[i as int]);
            assert(amounts@.skip(i as int).skip(1) =~= amounts@.skip(i + 1));
        }
        let step = add_balance(list, amounts[i].rune_id, amounts[i].amount);
        ok = ok && step;
        i = i + 1;
    }
    ok
}

/// Adds each of the amounts that is not zero; tells whether every sum
/// fitted.
pub fn add_positive_balances(list: &mut Vec<RuneAmount>, amounts: &Vec<RuneAmount>) -> (ok: bool)
    ensures
        (final(list)@, ok) == credit_positive(old(list)@, amounts@),
{
    let mut ok = true;
    let mut i: usize = 0;
    proof {
        assert(amounts@.skip(0) =~= amounts@);
    }
    while i < amounts.len()
        invariant
            i <= amounts.len(),
            credit_positive(old(list)@, amounts@).0 == credit_positive(
                list@,
                amounts@.skip(i as int),
            ).0,
            credit_positive(old(list)@, amounts@).1 == (ok && credit_positive(
                list@,
                amounts@.skip(i as int),
            ).1),
        decreases amounts.len() - i,
    {
        proof {
            assert(amounts@.skip(i as int)[0] == amounts@[i as int]);
            assert(amounts@.skip(i as int).skip(1) =~= amounts@.skip(i + 1));
        }
        if amounts[i].amount > 0 {
            let step = add_balance(list, amounts[i].rune_id, amounts[i].amount);
            ok = ok && step;
        }
        i = i + 1;
    }
    ok
}

} // verus!
