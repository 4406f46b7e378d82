//! The commitment to a name: a transaction may etch a name only if one of
//! its inputs reveals the name in its script and spends an output that
//! has matured.

use crate::encoding::{le_bytes, push_le};
use crate::ids::bytes_equal;
use crate::rune::Rune;
use vstd::prelude::*;

verus! {

/// The bytes without the zero bytes at their end.
pub open spec fn without_trailing_zeros(bytes: Seq<u8>) -> Seq<u8>
    decreases bytes.len(),
{
    if bytes.len() > 0 && bytes.last() == 0 {
        without_trailing_zeros(bytes.drop_last())
    } else {
        bytes
    }
}

/// The bytes that commit to a name: the number of the name in
/// little-endian bytes, without the zero bytes at the end.
pub open spec fn spec_commitment(rune: Rune) -> Seq<u8> {
    without_trailing_zeros(le_bytes(rune.0 as nat, 16))
}

/// The number of confirmations that the committing output needs.
pub open spec fn spec_commit_confirmations() -> u32 {
    6
}

/// The bytes that commit to a name.
pub fn commitment_of(rune: Rune) -> (r: Vec<u8>)
    ensures
        r@ == spec_commitment(rune),
{
    let mut out: Vec<u8> = Vec::new();
    push_le(&mut out, rune.0, 16);
    proof {
        assert(out@ =~= le_bytes(rune.0 as nat, 16));
    }
    while out.len() > 0 && out[out.len() - 1] == 0
        invariant
            without_trailing_zeros(out@) == spec_commitment(rune),
        decreases out.len(),
    {
        let ghost before = out@;
        out.pop();
        proof {
            assert(out@ =~= before.drop_last());
        }
    }
    out
}

/// The number of confirmations that the committing output needs.
///
/// Trusted: reads `ordinals::Runestone::COMMIT_CONFIRMATIONS`, which that
/// crate defines as 6.
#[verifier::external_body]
fn commit_confirmations() -> (n: u32)
    ensures
        n == spec_commit_confirmations(),
{
    u32::from(ordinals::Runestone::COMMIT_CONFIRMATIONS)
}

/// What the commitment rule reads of an input: the data that its script
/// pushes, whether the output that it spends is a taproot output, and how
/// many confirmations the transaction of that output has.
#[derive(Debug, PartialEq, Eq)]
pub struct CommitInput {
    pub pushes: Vec<Vec<u8>>,
    pub taproot: bool,
    pub confirmations: u32,
}

pub struct CommitInputView {
    pub pushes: Seq<Seq<u8>>,
    pub taproot: bool,
    pub confirmations: u32,
}

/// The views of the byte strings.
pub open spec fn byte_views(list: Seq<Vec<u8>>) -> Seq<Seq<u8>> {
    Seq::new(list.len(), |i: int| list[i]@)
}

impl View for CommitInput {
    type V = CommitInputView;

    open spec fn view(&self) -> CommitInputView {
        CommitInputView {
            pushes: byte_views(self.pushes@),
            taproot: self.taproot,
            confirmations: self.confirmations,
        }
    }
}

/// Whether an input commits to a name: its script pushes the commitment,
/// and the output that it spends is a taproot output with enough
/// confirmations.
pub open spec fn input_commits(input: CommitInputView, rune: Rune) -> bool {
    &&& input.pushes.contains(spec_commitment(rune))
    &&& input.taproot
    &&& input.confirmations >= spec_commit_confirmations()
}

/// Whether a transaction with these inputs commits to a name: one of the
/// inputs does.
pub open spec fn spec_commits_to_rune(inputs: Seq<CommitInputView>, rune: Rune) -> bool {
    exists|i: int| 0 <= i < inputs.len() && input_commits(#[trigger] inputs[i], rune)
}

/// Whether one of the pushes is the commitment to the name. Only for an
/// input of which this holds does the spent output matter.
pub fn holds_commitment(rune: Rune, pushes: &Vec<Vec<u8>>) -> (r: bool)
    ensures
        r == byte_views(pushes@).contains(spec_commitment(rune)),
{
    let commitment = commitment_of(rune);
    let mut j: usize = 0;
    while j < pushes.len()
        invariant
            j <= pushes.len(),
            commitment@ == spec_commitment(rune),
            forall|k: int| 0 <= k < j ==> (#[trigger] byte_views(pushes@)[k]) != commitment@,
        decreases pushes.len() - j,
    {
        if bytes_equal(&pushes[j], &commitment) {
            assert(byte_views(pushes@)[j as int] == commitment@);
            return true;
        }
        j = j + 1;
    }
    false
}

/// Whether the committing output has matured.
pub fn is_mature(confirmations: u32) -> (r: bool)
    ensures
        r == (confirmations >= spec_commit_confirmations()),
{
    confirmations >= commit_confirmations()
}

/// Whether a transaction with these inputs commits to the name.
pub fn commits_to_rune(rune: Rune, inputs: &Vec<CommitInput>) -> (r: bool)
    ensures
        r == spec_commits_to_rune(Seq::new(inputs@.len(), |i: int| inputs@[i]@), rune),
{
    let ghost views = Seq::new(inputs@.len(), |i: int| inputs@[i]@);
    let mut i: usize = 0;
    while i < inputs.len()
        invariant
            i <= inputs.len(),
            views == Seq::new(inputs@.len(), |i: int| inputs@[i]@),
            forall|k: int| 0 <= k < i ==> !input_commits(#[trigger] views[k], rune),
        decreases inputs.len() - i,
    {
        let input = &inputs[i];
        if input.taproot && is_mature(input.confirmations) && holds_commitment(
            rune,
            &input.pushes,
        ) {
            assert(input_commits(views[i as int], rune));
            return true;
        }
        i = i + 1;
    }
    false
}

} // verus!
