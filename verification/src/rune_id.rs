use crate::text::{chars_of, decimal, parse_unsigned, parse_unsigned_in, push_decimal, string_of};
use vstd::prelude::*;

verus! {

/// Identifier of an etched rune: the block of the etching and the index of
/// the etching transaction within that block.
#[derive(Debug, Copy, Clone, PartialEq, Eq, Structural, Hash, PartialOrd, Ord)]
pub struct RuneId {
    pub block: u64,
    pub tx: u32,
}

/// Byte `i` of `x`, counting from the least significant one.
pub open spec fn byte_of(x: u64, i: u64) -> u8 {
    ((x >> (8 * i)) & 0xff) as u8
}

/// Whether `a` comes before `b`, or equals it, in the order of a dictionary:
/// the first position at which the two differ decides.
pub open spec fn lex_le(a: Seq<u8>, b: Seq<u8>) -> bool
    recommends
        a.len() == b.len(),
{
    a == b || exists|i: int|
        0 <= i < a.len() && #[trigger] a[i] < b[i] && a.take(i) == b.take(i)
}

/// Index of the first `c` in `s`, if there is one.
pub open spec fn first_index_of(s: Seq<char>, c: char) -> Option<int> {
    if exists|i: int| 0 <= i < s.len() && s[i] == c {
        Some(choose|i: int| 0 <= i < s.len() && s[i] == c && !s.take(i).contains(c))
    } else {
        None
    }
}

/// Finds the first occurrence of `c` in `v`.
pub fn find_char(v: &Vec<char>, c: char) -> (r: Option<usize>)
    ensures
        match r {
            Some(i) => i < v.len() && v@[i as int] == c && !v@.take(i as int).contains(c),
            None => !v@.contains(c),
        },
{
    let mut i: usize = 0;
    while i < v.len()
        invariant
            i <= v.len(),
            !v@.take(i as int).contains(c),
        decreases v.len() - i,
    {
        if v[i] == c {
            return Some(i);
        }
        proof {
            assert(v@.take(i + 1) =~= v@.take(i as int).push(v@[i as int]));
        }
        i = i + 1;
    }
    assert(v@.take(v.len() as int) =~= v@);
    None
}

impl Default for RuneId {
    fn default() -> (id: Self)
        ensures
            id == (RuneId { block: 0, tx: 0 }),
    {
        RuneId { block: 0, tx: 0 }
    }
}

impl RuneId {
    pub fn new(block: u64, tx: u32) -> (id: Self)
        ensures
            id == (RuneId { block, tx }),
    {
        RuneId { block, tx }
    }

    /// The twelve key bytes of the identifier: the block in eight
    /// little-endian bytes, then the transaction index in four.
    pub open spec fn spec_to_bytes(self) -> Seq<u8> {
        seq![
            byte_of(self.block, 0),
            byte_of(self.block, 1),
            byte_of(self.block, 2),
            byte_of(self.block, 3),
            byte_of(self.block, 4),
            byte_of(self.block, 5),
            byte_of(self.block, 6),
            byte_of(self.block, 7),
            byte_of(self.tx as u64, 0),
            byte_of(self.tx as u64, 1),
            byte_of(self.tx as u64, 2),
            byte_of(self.tx as u64, 3),
        ]
    }

    pub fn to_bytes(&self) -> (bytes: [u8; 12])
        ensures
            bytes@ == self.spec_to_bytes(),
    {
        let b: u64 = self.block;
        let t: u64 = self.tx as u64;
        let bytes: [u8; 12] = [
            ((b >> 0) & 0xff) as u8,
            ((b >> 8) & 0xff) as u8,
            ((b >> 16) & 0xff) as u8,
            ((b >> 24) & 0xff) as u8,
            ((b >> 32) & 0xff) as u8,
            ((b >> 40) & 0xff) as u8,
            ((b >> 48) & 0xff) as u8,
            ((b >> 56) & 0xff) as u8,
            ((t >> 0) & 0xff) as u8,
            ((t >> 8) & 0xff) as u8,
            ((t >> 16) & 0xff) as u8,
            ((t >> 24) & 0xff) as u8,
        ];
        assert(bytes@ =~= self.spec_to_bytes());
        bytes
    }

    /// The key bytes of two identifiers, the smaller key first, so that a
    /// pair of runes yields the same two keys whichever is named first.
    pub fn get_sorted_rune_ids(rune0: &RuneId, rune1: &RuneId) -> (r: ([u8; 12], [u8; 12]))
        ensures
            lex_le(rune0.spec_to_bytes(), rune1.spec_to_bytes()) ==> r.0@ == rune0.spec_to_bytes()
                && r.1@ == rune1.spec_to_bytes(),
            !lex_le(rune0.spec_to_bytes(), rune1.spec_to_bytes()) ==> r.0@ == rune1.spec_to_bytes()
                && r.1@ == rune0.spec_to_bytes(),
    {
        let rune0_bytes = rune0.to_bytes();
        let rune1_bytes = rune1.to_bytes();
        if bytes_le(&rune0_bytes, &rune1_bytes) {
            (rune0_bytes, rune1_bytes)
        } else {
            (rune1_bytes, rune0_bytes)
        }
    }

    /// The step from `self` to `next` as a pair of differences: the
    /// difference of the blocks, and the difference of the transaction
    /// indices if the blocks are equal, else the index of `next`.
    pub open spec fn spec_delta(self, next: RuneId) -> Option<(u128, u128)> {
        if next.block < self.block {
            None
        } else if next.block == self.block {
            if next.tx < self.tx {
                None
            } else {
                Some((0u128, (next.tx - self.tx) as u128))
            }
        } else {
            Some(((next.block - self.block) as u128, next.tx as u128))
        }
    }

    pub fn delta(self, next: RuneId) -> (r: Option<(u128, u128)>)
        ensures
            r == self.spec_delta(next),
    {
        if next.block < self.block {
            return None;
        }
        let block: u64 = next.block - self.block;
        let tx: u32 = if block == 0 {
            if next.tx < self.tx {
                return None;
            }
            next.tx - self.tx
        } else {
            next.tx
        };
        Some((block as u128, tx as u128))
    }

    /// The identifier reached from `self` by the differences `block` and
    /// `tx`, if it fits.
    pub open spec fn spec_next(self, block: u128, tx: u128) -> Option<RuneId> {
        if self.block + block > u64::MAX {
            None
        } else if block == 0 {
            if self.tx + tx > u32::MAX {
                None
            } else {
                Some(RuneId { block: self.block, tx: (self.tx + tx) as u32 })
            }
        } else if tx > u32::MAX {
            None
        } else {
            Some(RuneId { block: (self.block + block) as u64, tx: tx as u32 })
        }
    }

    pub fn next(self, block: u128, tx: u128) -> (r: Option<RuneId>)
        ensures
            r == self.spec_next(block, tx),
    {
        if block > u64::MAX as u128 || block as u64 > u64::MAX - self.block {
            return None;
        }
        if tx > u32::MAX as u128 {
            return None;
        }
        let new_tx: u32 = if block == 0 {
            if tx as u32 > u32::MAX - self.tx {
                return None;
            }
            self.tx + tx as u32
        } else {
            tx as u32
        };
        Some(RuneId::new(self.block + block as u64, new_tx))
    }

    /// What a text of the form `block:tx` denotes: the part before the
    /// first colon is the block, the part after it the transaction index.
    pub open spec fn spec_parse(s: Seq<char>) -> Option<RuneId> {
        match first_index_of(s, ':') {
            None => None,
            Some(i) => match (
                parse_unsigned(s.take(i), u64::MAX as nat),
                parse_unsigned(s.skip(i + 1), u32::MAX as nat),
            ) {
                (Some(block), Some(tx)) => Some(RuneId { block: block as u64, tx: tx as u32 }),
                _ => None,
            },
        }
    }

    /// Reads an identifier written as `block:tx`.
    pub fn parse(s: &str) -> (r: Result<RuneId, String>)
        ensures
            match Self::spec_parse(s@) {
                Some(id) => r == Ok::<RuneId, String>(id),
                None => r.is_err(),
            },
            r.is_err() ==> {
                let e = r->Err_0@;
                if !s@.contains(':') {
                    e == "Invalid format: expected 'block:tx'"@
                } else if parse_unsigned(
                    s@.take(first_index_of(s@, ':').unwrap()),
                    u64::MAX as nat,
                ).is_none() {
                    e == "Invalid block number"@
                } else {
                    e == "Invalid transaction number"@
                }
            },
    {
        let v = chars_of(s);
        let colon = match find_char(&v, ':') {
            Some(i) => i,
            None => {
                return Err("Invalid format: expected 'block:tx'".to_owned());
            },
        };
        proof {
            let j = first_index_of(v@, ':').unwrap();
            assert(v@[colon as int] == ':');
            if j < colon {
                assert(v@.take(colon as int)[j] == ':');
            }
            if colon < j {
                assert(v@.take(j)[colon as int] == ':');
            }
            assert(j == colon);
            assert(v@.take(colon as int) =~= v@.subrange(0, colon as int));
            assert(v@.skip(colon + 1) =~= v@.subrange(colon + 1, v.len() as int));
        }
        let block = match parse_unsigned_in(&v, 0, colon, u64::MAX as u128) {
            Some(n) => n as u64,
            None => {
                return Err("Invalid block number".to_owned());
            },
        };
        let tx = match parse_unsigned_in(&v, colon + 1, v.len(), u32::MAX as u128) {
            Some(n) => n as u32,
            None => {
                return Err("Invalid transaction number".to_owned());
            },
        };
        Ok(RuneId::new(block, tx))
    }

    /// The identifier as text: block and transaction index in decimal,
    /// separated by a colon.
    pub open spec fn spec_to_string(self) -> Seq<char> {
        decimal(self.block as nat) + seq![':'] + decimal(self.tx as nat)
    }

    pub fn to_string(&self) -> (s: String)
        ensures
            s@ == self.spec_to_string(),
    {
        let mut out: Vec<char> = Vec::new();
        push_decimal(&mut out, self.block as u128);
        out.push(':');
        push_decimal(&mut out, self.tx as u128);
        assert(out@ =~= self.spec_to_string());
        string_of(&out)
    }
}

impl std::str::FromStr for RuneId {
    type Err = String;

    fn from_str(s: &str) -> (r: Result<Self, String>)
        ensures
            match RuneId::spec_parse(s@) {
                Some(id) => r == Ok::<RuneId, String>(id),
                None => r.is_err(),
            },
            r.is_err() ==> {
                let e = r->Err_0@;
                if !s@.contains(':') {
                    e == "Invalid format: expected 'block:tx'"@
                } else if parse_unsigned(
                    s@.take(first_index_of(s@, ':').unwrap()),
                    u64::MAX as nat,
                ).is_none() {
                    e == "Invalid block number"@
                } else {
                    e == "Invalid transaction number"@
                }
            },
    {
        RuneId::parse(s)
    }
}

/// Compares two keys in dictionary order.
pub fn bytes_le(a: &[u8; 12], b: &[u8; 12]) -> (r: bool)
    ensures
        r == lex_le(a@, b@),
{
    let mut i: usize = 0;
    while i < 12
        invariant
            i <= 12,
            a@.take(i as int) == b@.take(i as int),
        decreases 12 - i,
    {
        if a[i] < b[i] {
            return true;
        }
        if a[i] > b[i] {
            proof {
                assert forall|j: int| 0 <= j < 12 && #[trigger] a@[j] < b@[j] implies a@.take(j)
                    != b@.take(j) by {
                    if j < i {
                        assert(a@.take(i as int)[j] == b@.take(i as int)[j]);
                    } else if j > i {
                        assert(a@.take(j)[i as int] != b@.take(j)[i as int]);
                    }
                }
                assert(a@[i as int] != b@[i as int]);
            }
            return false;
        }
        proof {
            assert(a@.take(i + 1) =~= a@.take(i as int).push(a@[i as int]));
            assert(b@.take(i + 1) =~= b@.take(i as int).push(b@[i as int]));
        }
        i = i + 1;
    }
    assert(a@.take(12) =~= a@);
    assert(b@.take(12) =~= b@);
    true
}

/// Stepping by the difference between two identifiers leads from the first
/// to the second.
pub proof fn lemma_delta_then_next(from: RuneId, to: RuneId)
    requires
        from.spec_delta(to).is_some(),
    ensures
        from.spec_next(from.spec_delta(to).unwrap().0, from.spec_delta(to).unwrap().1) == Some(to),
{
}

/// The difference to the identifier reached by a step is that step.
pub proof fn lemma_next_then_delta(from: RuneId, block: u128, tx: u128)
    requires
        from.spec_next(block, tx).is_some(),
    ensures
        from.spec_delta(from.spec_next(block, tx).unwrap()) == Some((block, tx)),
{
}

/// Of two keys of equal length, one comes before the other or equals it.
pub proof fn lemma_lex_le_total(a: Seq<u8>, b: Seq<u8>)
    requires
        a.len() == b.len(),
    ensures
        lex_le(a, b) || lex_le(b, a),
    decreases a.len(),
{
    if a != b {
        if a.len() == 0 {
            assert(a =~= b);
        } else if a[0] != b[0] {
            assert(a.take(0) =~= b.take(0));
        } else {
            lemma_lex_le_total(a.skip(1), b.skip(1));
            if a.skip(1) == b.skip(1) {
                assert forall|i: int| 0 <= i < a.len() implies a[i] == b[i] by {
                    if i > 0 {
                        assert(a.skip(1)[i - 1] == b.skip(1)[i - 1]);
                    }
                }
                assert(a =~= b);
            } else if lex_le(a.skip(1), b.skip(1)) {
                let i = choose|i: int|
                    0 <= i < a.skip(1).len() && #[trigger] a.skip(1)[i] < b.skip(1)[i] && a.skip(
                        1,
                    ).take(i) == b.skip(1).take(i);
                assert(a[i + 1] < b[i + 1]);
                assert(a.take(i + 1) =~= seq![a[0]] + a.skip(1).take(i));
                assert(b.take(i + 1) =~= seq![b[0]] + b.skip(1).take(i));
            } else {
                let i = choose|i: int|
                    0 <= i < b.skip(1).len() && #[trigger] b.skip(1)[i] < a.skip(1)[i] && b.skip(
                        1,
                    ).take(i) == a.skip(1).take(i);
                assert(b[i + 1] < a[i + 1]);
                assert(a.take(i + 1) =~= seq![a[0]] + a.skip(1).take(i));
                assert(b.take(i + 1) =~= seq![b[0]] + b.skip(1).take(i));
            }
        }
    }
}

} // verus!
