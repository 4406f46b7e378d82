//! The stable byte form of rune identifiers, spaced runes and rune
//! amounts: every number in little-endian bytes of its full width, the
//! fields one after the other, a list behind its length in four bytes.

use crate::rune::Rune;
use crate::rune_amount::RuneAmount;
use crate::rune_id::{byte_of, RuneId};
use crate::spaced_rune::SpacedRune;
use vstd::prelude::*;

verus! {

/// The `n` lowest bytes of `x`, the least significant first.
pub open spec fn le_bytes(x: nat, n: nat) -> Seq<u8>
    decreases n,
{
    if n == 0 {
        Seq::empty()
    } else {
        seq![(x % 256) as u8] + le_bytes(x / 256, (n - 1) as nat)
    }
}

/// The number that the bytes stand for, the least significant first.
pub open spec fn le_value(bytes: Seq<u8>) -> nat
    decreases bytes.len(),
{
    if bytes.len() == 0 {
        0
    } else {
        bytes[0] as nat + 256 * le_value(bytes.drop_first())
    }
}

/// 256 to the power of `n`.
pub open spec fn pow256(n: nat) -> nat
    decreases n,
{
    if n == 0 {
        1
    } else {
        256 * pow256((n - 1) as nat)
    }
}

pub proof fn lemma_le_bytes_len(x: nat, n: nat)
    ensures
        le_bytes(x, n).len() == n,
    decreases n,
{
    if n > 0 {
        lemma_le_bytes_len(x / 256, (n - 1) as nat);
    }
}

/// What `n` bytes stand for is below 256 to the power of `n`.
pub proof fn lemma_le_value_bound(bytes: Seq<u8>)
    ensures
        le_value(bytes) < pow256(bytes.len()),
    decreases bytes.len(),
{
    if bytes.len() > 0 {
        lemma_le_value_bound(bytes.drop_first());
        let rest = le_value(bytes.drop_first());
        let top = pow256((bytes.len() - 1) as nat);
        assert(bytes[0] as nat + 256 * rest < 256 * top) by (nonlinear_arith)
            requires
                rest < top,
                bytes[0] < 256,
        ;
    }
}

/// A number below 256 to the power of `n` is what its `n` bytes stand
/// for.
pub proof fn lemma_value_of_bytes(x: nat, n: nat)
    requires
        x < pow256(n),
    ensures
        le_value(le_bytes(x, n)) == x,
    decreases n,
{
    if n > 0 {
        let tail = le_bytes(x / 256, (n - 1) as nat);
        let bytes = le_bytes(x, n);
        let top = pow256((n - 1) as nat);
        assert(x / 256 < top) by (nonlinear_arith)
            requires
                x < 256 * top,
        ;
        lemma_value_of_bytes(x / 256, (n - 1) as nat);
        lemma_le_bytes_len(x / 256, (n - 1) as nat);
        assert(bytes.drop_first() =~= tail);
        assert(bytes[0] == (x % 256) as u8);
        assert(x % 256 + 256 * (x / 256) == x) by (nonlinear_arith);
    }
}

/// Bytes are the bytes of the number that they stand for.
pub proof fn lemma_bytes_of_value(bytes: Seq<u8>)
    ensures
        le_bytes(le_value(bytes), bytes.len()) == bytes,
    decreases bytes.len(),
{
    if bytes.len() > 0 {
        let rest = le_value(bytes.drop_first());
        let x = le_value(bytes);
        lemma_bytes_of_value(bytes.drop_first());
        let first = bytes[0] as nat;
        assert((first + 256 * rest) % 256 == first && (first + 256 * rest) / 256 == rest)
            by (nonlinear_arith)
            requires
                first < 256,
        ;
        assert(le_bytes(x, bytes.len()) =~= bytes);
    } else {
        assert(le_bytes(le_value(bytes), bytes.len()) =~= bytes);
    }
}

pub proof fn lemma_pow256_widths()
    ensures
        pow256(4) == 0x1_0000_0000,
        pow256(8) == 0x1_0000_0000_0000_0000,
        pow256(15) == 0x100_0000_0000_0000_0000_0000_0000_0000,
        pow256(16) == 0x1_0000_0000_0000_0000_0000_0000_0000_0000,
{
    assert(pow256(0) == 1);
    assert(pow256(1) == 256);
    assert(pow256(2) == 0x1_0000);
    assert(pow256(3) == 0x100_0000);
    assert(pow256(4) == 0x1_0000_0000);
    assert(pow256(5) == 0x100_0000_0000);
    assert(pow256(6) == 0x1_0000_0000_0000);
    assert(pow256(7) == 0x100_0000_0000_0000);
    assert(pow256(8) == 0x1_0000_0000_0000_0000);
    assert(pow256(9) == 0x100_0000_0000_0000_0000);
    assert(pow256(10) == 0x1_0000_0000_0000_0000_0000);
    assert(pow256(11) == 0x100_0000_0000_0000_0000_0000);
    assert(pow256(12) == 0x1_0000_0000_0000_0000_0000_0000);
    assert(pow256(13) == 0x100_0000_0000_0000_0000_0000_0000);
    assert(pow256(14) == 0x1_0000_0000_0000_0000_0000_0000_0000);
    assert(pow256(15) == 0x100_0000_0000_0000_0000_0000_0000_0000);
    assert(pow256(16) == 0x1_0000_0000_0000_0000_0000_0000_0000_0000);
}

proof fn lemma_pow256_grows(a: nat, b: nat)
    requires
        a <= b,
    ensures
        pow256(a) <= pow256(b),
    decreases b,
{
    if a < b {
        lemma_pow256_grows(a, (b - 1) as nat);
    }
}

/// Appends the `n` lowest bytes of `x`, the least significant first.
pub fn push_le(out: &mut Vec<u8>, x: u128, n: usize)
    ensures
        final(out)@ == old(out)@ + le_bytes(x as nat, n as nat),
{
    let mut rest: u128 = x;
    let mut i: usize = 0;
    while i < n
        invariant
            i <= n,
            out@ + le_bytes(rest as nat, (n - i) as nat) == old(out)@ + le_bytes(
                x as nat,
                n as nat,
            ),
        decreases n - i,
    {
        let ghost before = out@;
        let ghost tail = le_bytes((rest / 256) as nat, (n - i - 1) as nat);
        let b: u8 = (rest % 256) as u8;
        out.push(b);
        proof {
            assert(le_bytes(rest as nat, (n - i) as nat) == seq![b] + tail);
            assert(before.push(b) + tail =~= before + (seq![b] + tail));
        }
        rest = rest / 256;
        i += 1;
    }
    proof {
        assert(out@ + le_bytes(rest as nat, 0) =~= out@);
    }
}

/// Reads the number that stands in the `n` bytes from `from` on.
pub fn read_le(bytes: &[u8], from: usize, n: usize) -> (r: u128)
    requires
        from + n <= bytes.len(),
        n <= 16,
    ensures
        r as nat == le_value(bytes@.subrange(from as int, from + n)),
{
    let mut acc: u128 = 0;
    let mut i: usize = n;
    proof {
        assert(bytes@.subrange(from + n, from + n).len() == 0);
    }
    while i > 0
        invariant
            i <= n,
            n <= 16,
            from + n <= bytes.len(),
            acc as nat == le_value(bytes@.subrange(from + i, from + n)),
        decreases i,
    {
        let ghost part = bytes@.subrange(from + i, from + n);
        let ghost longer = bytes@.subrange(from + i - 1, from + n);
        proof {
            lemma_le_value_bound(part);
            lemma_pow256_grows(part.len(), 15);
            lemma_pow256_widths();
            assert(longer.drop_first() =~= part);
        }
        i -= 1;
        acc = acc * 256 + bytes[from + i] as u128;
    }
    acc
}

/// The bytes of a rune identifier: the block in eight bytes, then the
/// transaction index in four.
pub open spec fn rune_id_bytes(id: RuneId) -> Seq<u8> {
    le_bytes(id.block as nat, 8) + le_bytes(id.tx as nat, 4)
}

/// The rune identifier that stands in the bytes from `at` on.
pub open spec fn rune_id_at(bytes: Seq<u8>, at: int) -> RuneId {
    RuneId {
        block: le_value(bytes.subrange(at, at + 8)) as u64,
        tx: le_value(bytes.subrange(at + 8, at + 12)) as u32,
    }
}

/// The rune identifier that twelve bytes stand for; any other number of
/// bytes stands for none.
pub open spec fn rune_id_of(bytes: Seq<u8>) -> Option<RuneId> {
    if bytes.len() == 12 {
        Some(rune_id_at(bytes, 0))
    } else {
        None
    }
}

/// The bytes of a spaced rune: the rune in sixteen bytes, then the
/// spacers in four.
pub open spec fn spaced_rune_bytes(rune: SpacedRune) -> Seq<u8> {
    le_bytes(rune.rune.0 as nat, 16) + le_bytes(rune.spacers as nat, 4)
}

/// The spaced rune that twenty bytes stand for.
pub open spec fn spaced_rune_of(bytes: Seq<u8>) -> Option<SpacedRune> {
    if bytes.len() == 20 {
        Some(
            SpacedRune {
                rune: Rune(le_value(bytes.subrange(0, 16)) as u128),
                spacers: le_value(bytes.subrange(16, 20)) as u32,
            },
        )
    } else {
        None
    }
}

/// The bytes of a rune amount: the rune identifier, then the amount in
/// sixteen bytes.
pub open spec fn rune_amount_bytes(amount: RuneAmount) -> Seq<u8> {
    rune_id_bytes(amount.rune_id) + le_bytes(amount.amount as nat, 16)
}

/// The rune amount that stands in the 28 bytes from `at` on.
pub open spec fn rune_amount_at(bytes: Seq<u8>, at: int) -> RuneAmount {
    RuneAmount {
        rune_id: rune_id_at(bytes, at),
        amount: le_value(bytes.subrange(at + 12, at + 28)) as u128,
    }
}

/// The rune amount that 28 bytes stand for.
pub open spec fn rune_amount_of(bytes: Seq<u8>) -> Option<RuneAmount> {
    if bytes.len() == 28 {
        Some(rune_amount_at(bytes, 0))
    } else {
        None
    }
}

/// The bytes of the amounts one after the other.
pub open spec fn amounts_flat(amounts: Seq<RuneAmount>) -> Seq<u8>
    decreases amounts.len(),
{
    if amounts.len() == 0 {
        Seq::empty()
    } else {
        amounts_flat(amounts.drop_last()) + rune_amount_bytes(amounts.last())
    }
}

/// The bytes of a list of rune amounts: its length in four bytes, then
/// the amounts. A list too long for that has no bytes.
pub open spec fn rune_amounts_bytes(amounts: Seq<RuneAmount>) -> Option<Seq<u8>> {
    if amounts.len() <= u32::MAX {
        Some(le_bytes(amounts.len(), 4) + amounts_flat(amounts))
    } else {
        None
    }
}

/// The list of rune amounts that the bytes stand for: the first four
/// bytes give the length, and the rest must hold exactly that many
/// amounts.
pub open spec fn rune_amounts_of(bytes: Seq<u8>) -> Option<Seq<RuneAmount>> {
    if bytes.len() >= 4 && bytes.len() == 4 + 28 * le_value(bytes.subrange(0, 4)) {
        Some(
            Seq::new(
                le_value(bytes.subrange(0, 4)),
                |i: int| rune_amount_at(bytes, 4 + 28 * i),
            ),
        )
    } else {
        None
    }
}

fn read_rune_id(bytes: &[u8], at: usize) -> (id: RuneId)
    requires
        at + 12 <= bytes.len(),
    ensures
        id == rune_id_at(bytes@, at as int),
{
    proof {
        lemma_le_value_bound(bytes@.subrange(at as int, at + 8));
        lemma_le_value_bound(bytes@.subrange(at + 8, at + 12));
        lemma_pow256_widths();
    }
    let block = read_le(bytes, at, 8);
    let tx = read_le(bytes, at + 8, 4);
    RuneId { block: block as u64, tx: tx as u32 }
}

fn read_rune_amount(bytes: &[u8], at: usize) -> (amount: RuneAmount)
    requires
        at + 28 <= bytes.len(),
    ensures
        amount == rune_amount_at(bytes@, at as int),
{
    let rune_id = read_rune_id(bytes, at);
    let amount = read_le(bytes, at + 12, 16);
    RuneAmount { rune_id, amount }
}

/// The bytes of the rune identifier.
pub fn encode_rune_id(id: &RuneId) -> (bytes: Vec<u8>)
    ensures
        bytes@ == rune_id_bytes(*id),
{
    let mut out: Vec<u8> = Vec::new();
    push_le(&mut out, id.block as u128, 8);
    push_le(&mut out, id.tx as u128, 4);
    proof {
        assert(out@ =~= rune_id_bytes(*id));
    }
    out
}

/// Reads a rune identifier from exactly twelve bytes.
pub fn decode_rune_id(bytes: &[u8]) -> (r: Option<RuneId>)
    ensures
        r == rune_id_of(bytes@),
{
    if bytes.len() != 12 {
        return None;
    }
    Some(read_rune_id(bytes, 0))
}

/// The bytes of the spaced rune.
pub fn encode_spaced_rune(rune: &SpacedRune) -> (bytes: Vec<u8>)
    ensures
        bytes@ == spaced_rune_bytes(*rune),
{
    let mut out: Vec<u8> = Vec::new();
    push_le(&mut out, rune.rune.0, 16);
    push_le(&mut out, rune.spacers as u128, 4);
    proof {
        assert(out@ =~= spaced_rune_bytes(*rune));
    }
    out
}

/// Reads a spaced rune from exactly twenty bytes.
pub fn decode_spaced_rune(bytes: &[u8]) -> (r: Option<SpacedRune>)
    ensures
        r == spaced_rune_of(bytes@),
{
    if bytes.len() != 20 {
        return None;
    }
    proof {
        lemma_le_value_bound(bytes@.subrange(16, 20));
        lemma_pow256_widths();
    }
    let rune = read_le(bytes, 0, 16);
    let spacers = read_le(bytes, 16, 4);
    Some(SpacedRune { rune: Rune(rune), spacers: spacers as u32 })
}

fn push_rune_amount(out: &mut Vec<u8>, amount: &RuneAmount)
    ensures
        final(out)@ == old(out)@ + rune_amount_bytes(*amount),
{
    push_le(out, amount.rune_id.block as u128, 8);
    push_le(out, amount.rune_id.tx as u128, 4);
    push_le(out, amount.amount, 16);
    proof {
        assert(out@ =~= old(out)@ + rune_amount_bytes(*amount));
    }
}

/// The bytes of the rune amount.
pub fn encode_rune_amount(amount: &RuneAmount) -> (bytes: Vec<u8>)
    ensures
        bytes@ == rune_amount_bytes(*amount),
{
    let mut out: Vec<u8> = Vec::new();
    push_rune_amount(&mut out, amount);
    proof {
        assert(out@ =~= rune_amount_bytes(*amount));
    }
    out
}

/// Reads a rune amount from exactly 28 bytes.
pub fn decode_rune_amount(bytes: &[u8]) -> (r: Option<RuneAmount>)
    ensures
        r == rune_amount_of(bytes@),
{
    if bytes.len() != 28 {
        return None;
    }
    Some(read_rune_amount(bytes, 0))
}

/// The bytes of the list of rune amounts, if its length fits four bytes.
pub fn encode_rune_amounts(amounts: &Vec<RuneAmount>) -> (r: Option<Vec<u8>>)
    ensures
        match rune_amounts_bytes(amounts@) {
            Some(bytes) => r.is_some() && r.unwrap()@ == bytes,
            None => r.is_none(),
        },
{
    if amounts.len() > 0xffff_ffff {
        return None;
    }
    let mut out: Vec<u8> = Vec::new();
    push_le(&mut out, amounts.len() as u128, 4);
    let mut i: usize = 0;
    while i < amounts.len()
        invariant
            i <= amounts@.len(),
            out@ == le_bytes(amounts@.len(), 4) + amounts_flat(amounts@.take(i as int)),
        decreases amounts@.len() - i,
    {
        let ghost before = out@;
        push_rune_amount(&mut out, &amounts[i]);
        proof {
            let longer = amounts@.take(i + 1);
            assert(longer.drop_last() =~= amounts@.take(i as int));
            assert(longer.last() == amounts@[i as int]);
            assert(out@ =~= le_bytes(amounts@.len(), 4) + amounts_flat(longer));
        }
        i += 1;
    }
    proof {
        assert(amounts@.take(i as int) =~= amounts@);
    }
    Some(out)
}

/// Reads a list of rune amounts, which must fill the bytes exactly.
pub fn decode_rune_amounts(bytes: &[u8]) -> (r: Option<Vec<RuneAmount>>)
    ensures
        match rune_amounts_of(bytes@) {
            Some(amounts) => r.is_some() && r.unwrap()@ == amounts,
            None => r.is_none(),
        },
{
    if bytes.len() < 4 {
        return None;
    }
    proof {
        lemma_le_value_bound(bytes@.subrange(0, 4));
        lemma_pow256_widths();
    }
    let count = read_le(bytes, 0, 4);
    if (bytes.len() - 4) as u128 != 28 * count {
        return None;
    }
    let ghost wanted = rune_amounts_of(bytes@).unwrap();
    let mut out: Vec<RuneAmount> = Vec::new();
    let mut i: usize = 0;
    while (i as u128) < count
        invariant
            i <= count,
            bytes.len() == 4 + 28 * count,
            rune_amounts_of(bytes@) == Some(wanted),
            wanted.len() == count,
            out@ == wanted.take(i as int),
        decreases count - i,
    {
        proof {
            }
        let amount = read_rune_amount(bytes, 4 + 28 * i);
        out.push(amount);
        proof {
            assert(out@ =~= wanted.take(i + 1));
        }
        i += 1;
    }
    proof {
        assert(wanted.take(i as int) =~= wanted);
    }
    Some(out)
}

proof fn lemma_rune_id_at(front: Seq<u8>, id: RuneId, back: Seq<u8>)
    ensures
        rune_id_at(front + rune_id_bytes(id) + back, front.len() as int) == id,
{
    let bytes = front + rune_id_bytes(id) + back;
    let at = front.len() as int;
    lemma_le_bytes_len(id.block as nat, 8);
    lemma_le_bytes_len(id.tx as nat, 4);
    lemma_pow256_widths();
    lemma_value_of_bytes(id.block as nat, 8);
    lemma_value_of_bytes(id.tx as nat, 4);
    assert(bytes.subrange(at, at + 8) =~= le_bytes(id.block as nat, 8));
    assert(bytes.subrange(at + 8, at + 12) =~= le_bytes(id.tx as nat, 4));
}

proof fn lemma_rune_amount_at(front: Seq<u8>, amount: RuneAmount, back: Seq<u8>)
    ensures
        rune_amount_bytes(amount).len() == 28,
        rune_amount_at(front + rune_amount_bytes(amount) + back, front.len() as int) == amount,
{
    let bytes = front + rune_amount_bytes(amount) + back;
    let at = front.len() as int;
    let tail = le_bytes(amount.amount as nat, 16);
    lemma_le_bytes_len(amount.rune_id.block as nat, 8);
    lemma_le_bytes_len(amount.rune_id.tx as nat, 4);
    lemma_le_bytes_len(amount.amount as nat, 16);
    lemma_pow256_widths();
    lemma_value_of_bytes(amount.amount as nat, 16);
    lemma_rune_id_at(front, amount.rune_id, tail + back);
    assert(bytes =~= front + rune_id_bytes(amount.rune_id) + (tail + back));
    assert(bytes.subrange(at + 12, at + 28) =~= tail);
}

/// A rune identifier is read back from its bytes.
pub proof fn lemma_rune_id_round_trip(id: RuneId)
    ensures
        rune_id_of(rune_id_bytes(id)) == Some(id),
{
    let none = Seq::<u8>::empty();
    lemma_rune_id_at(none, id, none);
    lemma_le_bytes_len(id.block as nat, 8);
    lemma_le_bytes_len(id.tx as nat, 4);
    assert(none + rune_id_bytes(id) + none =~= rune_id_bytes(id));
}

/// Twelve bytes are the bytes of the rune identifier that they stand for:
/// no two byte forms give one identifier.
pub proof fn lemma_rune_id_bytes_are_unique(bytes: Seq<u8>)
    requires
        bytes.len() == 12,
    ensures
        rune_id_bytes(rune_id_of(bytes).unwrap()) == bytes,
{
    let low = bytes.subrange(0, 8);
    let high = bytes.subrange(8, 12);
    lemma_le_value_bound(low);
    lemma_le_value_bound(high);
    lemma_pow256_widths();
    lemma_bytes_of_value(low);
    lemma_bytes_of_value(high);
    assert(low + high =~= bytes);
}

/// A spaced rune is read back from its bytes.
pub proof fn lemma_spaced_rune_round_trip(rune: SpacedRune)
    ensures
        spaced_rune_of(spaced_rune_bytes(rune)) == Some(rune),
{
    let bytes = spaced_rune_bytes(rune);
    lemma_le_bytes_len(rune.rune.0 as nat, 16);
    lemma_le_bytes_len(rune.spacers as nat, 4);
    lemma_pow256_widths();
    lemma_value_of_bytes(rune.rune.0 as nat, 16);
    lemma_value_of_bytes(rune.spacers as nat, 4);
    assert(bytes.subrange(0, 16) =~= le_bytes(rune.rune.0 as nat, 16));
    assert(bytes.subrange(16, 20) =~= le_bytes(rune.spacers as nat, 4));
}

/// A rune amount is read back from its bytes.
pub proof fn lemma_rune_amount_round_trip(amount: RuneAmount)
    ensures
        rune_amount_of(rune_amount_bytes(amount)) == Some(amount),
{
    let none = Seq::<u8>::empty();
    lemma_rune_amount_at(none, amount, none);
    assert(none + rune_amount_bytes(amount) + none =~= rune_amount_bytes(amount));
}

proof fn lemma_amounts_flat_len(amounts: Seq<RuneAmount>)
    ensures
        amounts_flat(amounts).len() == 28 * amounts.len(),
    decreases amounts.len(),
{
    if amounts.len() > 0 {
        lemma_amounts_flat_len(amounts.drop_last());
        lemma_rune_amount_at(Seq::empty(), amounts.last(), Seq::empty());
    }
}

proof fn lemma_amounts_flat_at(front: Seq<u8>, amounts: Seq<RuneAmount>, back: Seq<u8>, i: int)
    requires
        0 <= i < amounts.len(),
    ensures
        rune_amount_at(front + amounts_flat(amounts) + back, front.len() + 28 * i) == amounts[i],
    decreases amounts.len(),
{
    let shorter = amounts.drop_last();
    let last = rune_amount_bytes(amounts.last());
    lemma_amounts_flat_len(shorter);
    if i == amounts.len() - 1 {
        lemma_rune_amount_at(front + amounts_flat(shorter), amounts.last(), back);
        assert(front + amounts_flat(amounts) + back =~= front + amounts_flat(shorter) + last
            + back);
    } else {
        lemma_amounts_flat_at(front, shorter, last + back, i);
        assert(front + amounts_flat(amounts) + back =~= front + amounts_flat(shorter) + (last
            + back));
    }
}

/// A list of rune amounts is read back from its bytes.
pub proof fn lemma_rune_amounts_round_trip(amounts: Seq<RuneAmount>)
    requires
        amounts.len() <= u32::MAX,
    ensures
        rune_amounts_of(rune_amounts_bytes(amounts).unwrap()) == Some(amounts),
{
    let head = le_bytes(amounts.len(), 4);
    let bytes = head + amounts_flat(amounts);
    let none = Seq::<u8>::empty();
    lemma_le_bytes_len(amounts.len(), 4);
    lemma_amounts_flat_len(amounts);
    lemma_pow256_widths();
    lemma_value_of_bytes(amounts.len(), 4);
    assert(bytes.subrange(0, 4) =~= head);
    let read = rune_amounts_of(bytes).unwrap();
    assert forall|i: int| 0 <= i < amounts.len() implies read[i] == amounts[i] by {
        lemma_amounts_flat_at(head, amounts, none, i);
        assert(head + amounts_flat(amounts) + none =~= bytes);
    }
    assert(read =~= amounts);
}

proof fn lemma_shift_step(x: u64, i: u64)
    requires
        i < 8,
    ensures
        ((x >> (8 * i)) as nat % 256) as u8 == byte_of(x, i),
        i < 7 ==> (x >> (8 * i)) as nat / 256 == (x >> (8 * (i + 1))) as nat,
        x >> 0 == x,
{
    let y = x >> (8 * i);
    assert(y % 256 == y & 0xff) by (bit_vector);
    assert(i < 7 ==> (x >> (8 * i)) / 256 == x >> (8 * (i + 1))) by (bit_vector)
        requires
            i < 8,
    ;
    assert(x >> 0 == x) by (bit_vector);
}

proof fn lemma_le_bytes_by_shifts(x: u64, i: u64, n: nat)
    requires
        i + n <= 8,
    ensures
        le_bytes((x >> (8 * i)) as nat, n) == Seq::new(n, |k: int| byte_of(x, (i + k) as u64)),
    decreases n,
{
    let shifted = Seq::new(n, |k: int| byte_of(x, (i + k) as u64));
    if n > 0 {
        lemma_shift_step(x, i);
        lemma_le_bytes_by_shifts(x, (i + 1) as u64, (n - 1) as nat);
        lemma_le_bytes_len((x >> (8 * i)) as nat, n);
        assert(le_bytes((x >> (8 * i)) as nat, n) =~= shifted);
    } else {
        assert(le_bytes((x >> (8 * i)) as nat, n) =~= shifted);
    }
}

/// The bytes of a rune identifier are its key bytes.
pub proof fn lemma_rune_id_bytes_are_key_bytes(id: RuneId)
    ensures
        rune_id_bytes(id) == id.spec_to_bytes(),
{
    lemma_shift_step(id.block, 0);
    lemma_shift_step(id.tx as u64, 0);
    lemma_le_bytes_by_shifts(id.block, 0, 8);
    lemma_le_bytes_by_shifts(id.tx as u64, 0, 4);
    assert(rune_id_bytes(id) =~= id.spec_to_bytes());
}

} // verus!
