use crate::ids::SerializedTxid;
use crate::table::lemma_take_push_set;
use rustc_hash::FxBuildHasher;
use std::collections::{HashMap, HashSet};
use vstd::prelude::*;

verus! {

/// The hasher builder of the sets and maps below. Nothing is known of it
/// here but its name.
#[verifier::external_type_specification]
#[verifier::external_body]
pub struct ExFxBuildHasher(FxBuildHasher);

/// A set of transaction identifiers.
pub type TxidSet = HashSet<SerializedTxid, FxBuildHasher>;

/// A count for each of some transaction identifiers.
pub type TxidCounts = HashMap<SerializedTxid, u32, FxBuildHasher>;

/// Adds an identifier to a set.
///
/// Trusted: wraps `HashSet::insert`, which adds the value to the set and
/// leaves the set as it is if the value was already in it.
#[verifier::external_body]
pub(crate) fn set_insert(set: &mut TxidSet, txid: SerializedTxid)
    ensures
        final(set)@ == old(set)@.insert(txid),
{
    set.insert(txid);
}

/// Whether a set holds an identifier.
///
/// Trusted: wraps `HashSet::contains`, which returns `true` exactly if the
/// set contains the value.
#[verifier::external_body]
pub(crate) fn set_contains(set: &TxidSet, txid: &SerializedTxid) -> (r: bool)
    ensures
        r == set@.contains(*txid),
{
    set.contains(txid)
}

/// The number of identifiers in a set.
///
/// Trusted: wraps `HashSet::len`, which returns the number of elements of
/// the set.
#[verifier::external_body]
pub(crate) fn set_len(set: &TxidSet) -> (n: usize)
    ensures
        n == set@.len(),
{
    set.len()
}

/// The identifiers of a set, each once, in no particular order.
///
/// Trusted: wraps `HashSet::iter`, which visits every element of the set
/// once, in arbitrary order.
#[verifier::external_body]
pub(crate) fn set_items(set: &TxidSet) -> (items: Vec<SerializedTxid>)
    ensures
        items@.no_duplicates(),
        items@.to_set() == set@,
{
    set.iter().copied().collect()
}

/// The count recorded for an identifier.
///
/// Trusted: wraps `HashMap::get`, which returns the value stored under the
/// key, if there is one.
#[verifier::external_body]
pub(crate) fn count_get(counts: &TxidCounts, txid: &SerializedTxid) -> (r: Option<u32>)
    ensures
        r == (if counts@.contains_key(*txid) {
            Some(counts@[*txid])
        } else {
            None
        }),
{
    counts.get(txid).copied()
}

/// Records a count for an identifier.
///
/// Trusted: wraps `HashMap::insert`, which stores the value under the key
/// and replaces the value that was stored under it before.
#[verifier::external_body]
pub(crate) fn count_insert(counts: &mut TxidCounts, txid: SerializedTxid, count: u32)
    ensures
        final(counts)@ == old(counts)@.insert(txid, count),
{
    counts.insert(txid, count);
}

/// The identifiers that have a count, each once, in no particular order.
///
/// Trusted: wraps `HashMap::keys`, which visits every key of the map once,
/// in arbitrary order.
#[verifier::external_body]
pub(crate) fn count_keys(counts: &TxidCounts) -> (keys: Vec<SerializedTxid>)
    ensures
        keys@.no_duplicates(),
        keys@.to_set() == counts@.dom(),
{
    counts.keys().copied().collect()
}

/// The identifiers that are in `a` or in `b`.
pub fn union(a: &TxidSet, b: &TxidSet) -> (r: TxidSet)
    ensures
        r@ == a@.union(b@),
{
    let mut out: TxidSet = HashSet::default();
    let xs = set_items(a);
    let mut i: usize = 0;
    while i < xs.len()
        invariant
            i <= xs.len(),
            out@ == xs@.take(i as int).to_set(),
        decreases xs.len() - i,
    {
        proof {
            lemma_take_push_set(xs@, i as int);
        }
        set_insert(&mut out, xs[i]);
        i = i + 1;
    }
    assert(xs@.take(xs.len() as int) =~= xs@);
    let ys = set_items(b);
    let mut j: usize = 0;
    while j < ys.len()
        invariant
            j <= ys.len(),
            out@ == a@.union(ys@.take(j as int).to_set()),
        decreases ys.len() - j,
    {
        proof {
            lemma_take_push_set(ys@, j as int);
            assert(a@.union(ys@.take(j as int).to_set()).insert(ys@[j as int]) =~= a@.union(
                ys@.take(j + 1).to_set(),
            ));
        }
        set_insert(&mut out, ys[j]);
        j = j + 1;
    }
    assert(ys@.take(ys.len() as int) =~= ys@);
    out
}

/// The identifiers of `a` that are, or are not, in `b`.
pub fn select(a: &TxidSet, b: &TxidSet, present: bool) -> (r: TxidSet)
    ensures
        present ==> r@ == a@.intersect(b@),
        !present ==> r@ == a@.difference(b@),
{
    let mut out: TxidSet = HashSet::default();
    let xs = set_items(a);
    let mut i: usize = 0;
    while i < xs.len()
        invariant
            i <= xs.len(),
            present ==> out@ == xs@.take(i as int).to_set().intersect(b@),
            !present ==> out@ == xs@.take(i as int).to_set().difference(b@),
        decreases xs.len() - i,
    {
        proof {
            lemma_take_push_set(xs@, i as int);
            let s0 = xs@.take(i as int).to_set();
            let s1 = xs@.take(i + 1).to_set();
            let x = xs@[i as int];
            if b@.contains(x) {
                assert(s1.intersect(b@) =~= s0.intersect(b@).insert(x));
                assert(s1.difference(b@) =~= s0.difference(b@));
            } else {
                assert(s1.intersect(b@) =~= s0.intersect(b@));
                assert(s1.difference(b@) =~= s0.difference(b@).insert(x));
            }
        }
        if set_contains(b, &xs[i]) == present {
            set_insert(&mut out, xs[i]);
        }
        i = i + 1;
    }
    assert(xs@.take(xs.len() as int) =~= xs@);
    out
}

} // verus!
