use crate::rune::Rune;
use crate::rune_id::RuneId;
use crate::table::{Key, Value};
use vstd::prelude::*;
use vstd::std_specs::convert::FromSpecImpl;

verus! {

/// The number that 16 bytes denote when the first byte is the most
/// significant one.
pub open spec fn be_value(bytes: Seq<u8>) -> u128
    decreases bytes.len(),
{
    if bytes.len() == 0 {
        0u128
    } else {
        (be_value(bytes.drop_last()) << 8) | (bytes.last() as u128)
    }
}

/// Reads the 16 bytes of `bytes` that start at `from` as one number.
pub fn read_be(bytes: &[u8; 32], from: usize) -> (r: u128)
    requires
        from + 16 <= 32,
    ensures
        r == be_value(bytes@.subrange(from as int, from + 16)),
{
    let mut acc: u128 = 0;
    let mut i: usize = 0;
    while i < 16
        invariant
            i <= 16,
            from + 16 <= 32,
            acc == be_value(bytes@.subrange(from as int, from + i)),
        decreases 16 - i,
    {
        proof {
            assert(bytes@.subrange(from as int, from + i + 1).drop_last() =~= bytes@.subrange(
                from as int,
                from + i,
            ));
        }
        acc = (acc << 8) | (bytes[from + i] as u128);
        i = i + 1;
    }
    acc
}

/// The identifier of a transaction: its 32 bytes, held as two numbers.
#[derive(Debug, Copy, Clone, PartialEq, Eq, Structural, Hash, PartialOrd, Ord)]
pub struct SerializedTxid {
    pub hi: u128,
    pub lo: u128,
}

impl SerializedTxid {
    /// The identifier made of 32 bytes: the first 16 give `hi`, the last 16
    /// give `lo`, each with the most significant byte first.
    pub open spec fn spec_from_bytes(bytes: [u8; 32]) -> SerializedTxid {
        SerializedTxid {
            hi: be_value(bytes@.subrange(0, 16)),
            lo: be_value(bytes@.subrange(16, 32)),
        }
    }

    pub fn from_bytes(bytes: &[u8; 32]) -> (r: Self)
        ensures
            r == Self::spec_from_bytes(*bytes),
    {
        SerializedTxid { hi: read_be(bytes, 0), lo: read_be(bytes, 16) }
    }

    /// The identifier whose bytes are all zero.
    pub fn all_zeros() -> (r: Self)
        ensures
            r == (SerializedTxid { hi: 0, lo: 0 }),
    {
        SerializedTxid { hi: 0, lo: 0 }
    }
}

impl From<[u8; 32]> for SerializedTxid {
    fn from(bytes: [u8; 32]) -> (r: Self) {
        SerializedTxid::from_bytes(&bytes)
    }
}

impl FromSpecImpl<[u8; 32]> for SerializedTxid {
    open spec fn obeys_from_spec() -> bool {
        true
    }

    open spec fn from_spec(bytes: [u8; 32]) -> Self {
        SerializedTxid::spec_from_bytes(bytes)
    }
}

/// The hash of a block header, held like a transaction identifier.
#[derive(Debug, Copy, Clone, PartialEq, Eq, Structural, Hash, PartialOrd, Ord)]
pub struct BlockHash {
    pub hi: u128,
    pub lo: u128,
}

impl BlockHash {
    pub fn from_bytes(bytes: &[u8; 32]) -> (r: Self)
        ensures
            r == (BlockHash {
                hi: be_value(bytes@.subrange(0, 16)),
                lo: be_value(bytes@.subrange(16, 32)),
            }),
    {
        BlockHash { hi: read_be(bytes, 0), lo: read_be(bytes, 16) }
    }
}

/// An output of a transaction.
#[derive(Debug, Copy, Clone, PartialEq, Eq, Structural, Hash, PartialOrd, Ord)]
pub struct OutPoint {
    pub txid: SerializedTxid,
    pub vout: u32,
}

impl OutPoint {
    pub fn new(txid: SerializedTxid, vout: u32) -> (r: Self)
        ensures
            r == (OutPoint { txid, vout }),
    {
        OutPoint { txid, vout }
    }

    /// Whether this is the output that the input of a coinbase names: no
    /// transaction, and the largest index.
    pub open spec fn spec_is_null(self) -> bool {
        self.txid == (SerializedTxid { hi: 0, lo: 0 }) && self.vout == u32::MAX
    }

    pub fn is_null(&self) -> (r: bool)
        ensures
            r == self.spec_is_null(),
    {
        self.txid.hi == 0 && self.txid.lo == 0 && self.vout == u32::MAX
    }
}

/// A block of the chain: its hash and its height.
#[derive(Debug, Copy, Clone, PartialEq, Eq, Structural, Hash)]
pub struct BlockId {
    pub hash: BlockHash,
    pub height: u64,
}

/// The input of a transaction that spent an output.
#[derive(Debug, Copy, Clone, PartialEq, Eq, Structural, Hash)]
pub struct SpenderReference {
    pub txid: SerializedTxid,
    pub vin: u32,
}

/// A locking script, as bytes.
#[derive(Debug, PartialEq, Eq, Hash)]
pub struct ScriptPubKey {
    pub bytes: Vec<u8>,
}

impl Clone for ScriptPubKey {
    fn clone(&self) -> (r: Self)
        ensures
            r@ == self@,
    {
        ScriptPubKey { bytes: copy_bytes(&self.bytes) }
    }
}

impl View for ScriptPubKey {
    type V = Seq<u8>;

    open spec fn view(&self) -> Seq<u8> {
        self.bytes@
    }
}

/// Copies a vector of bytes.
pub fn copy_bytes(v: &Vec<u8>) -> (r: Vec<u8>)
    ensures
        r@ == v@,
{
    let mut out: Vec<u8> = Vec::new();
    let mut i: usize = 0;
    while i < v.len()
        invariant
            i <= v.len(),
            out@ == v@.take(i as int),
        decreases v.len() - i,
    {
        proof {
            assert(v@.take(i + 1) =~= v@.take(i as int).push(v@[i as int]));
        }
        out.push(v[i]);
        i = i + 1;
    }
    assert(v@.take(v.len() as int) =~= v@);
    out
}

/// Whether two vectors hold the same bytes.
pub fn bytes_equal(a: &Vec<u8>, b: &Vec<u8>) -> (r: bool)
    ensures
        r == (a@ == b@),
{
    if a.len() != b.len() {
        return false;
    }
    let mut i: usize = 0;
    while i < a.len()
        invariant
            i <= a.len(),
            a.len() == b.len(),
            a@.take(i as int) == b@.take(i as int),
        decreases a.len() - i,
    {
        if a[i] != b[i] {
            return false;
        }
        proof {
            assert(a@.take(i + 1) =~= a@.take(i as int).push(a@[i as int]));
            assert(b@.take(i + 1) =~= b@.take(i as int).push(b@[i as int]));
        }
        i = i + 1;
    }
    assert(a@.take(a.len() as int) =~= a@);
    assert(b@.take(b.len() as int) =~= b@);
    true
}

impl ScriptPubKey {
    pub fn new(bytes: Vec<u8>) -> (r: Self)
        ensures
            r@ == bytes@,
    {
        ScriptPubKey { bytes }
    }

    /// Whether the script starts with the opcode that makes an output
    /// unspendable (`OP_RETURN`, byte `0x6a`).
    pub open spec fn spec_is_op_return(s: Seq<u8>) -> bool {
        s.len() > 0 && s[0] == 0x6a
    }

    pub fn is_op_return(&self) -> (r: bool)
        ensures
            r == Self::spec_is_op_return(self@),
    {
        self.bytes.len() > 0 && self.bytes[0] == 0x6a
    }
}

impl View for SerializedTxid {
    type V = SerializedTxid;

    open spec fn view(&self) -> SerializedTxid {
        *self
    }
}

impl View for BlockHash {
    type V = BlockHash;

    open spec fn view(&self) -> BlockHash {
        *self
    }
}

impl View for OutPoint {
    type V = OutPoint;

    open spec fn view(&self) -> OutPoint {
        *self
    }
}

impl View for BlockId {
    type V = BlockId;

    open spec fn view(&self) -> BlockId {
        *self
    }
}

impl View for SpenderReference {
    type V = SpenderReference;

    open spec fn view(&self) -> SpenderReference {
        *self
    }
}

impl View for RuneId {
    type V = RuneId;

    open spec fn view(&self) -> RuneId {
        *self
    }
}

impl View for Rune {
    type V = Rune;

    open spec fn view(&self) -> Rune {
        *self
    }
}

impl Key for SerializedTxid {
    fn same(&self, other: &Self) -> (r: bool) {
        *self == *other
    }

    fn dup_key(&self) -> (r: Self) {
        *self
    }
}

impl Key for BlockHash {
    fn same(&self, other: &Self) -> (r: bool) {
        *self == *other
    }

    fn dup_key(&self) -> (r: Self) {
        *self
    }
}

impl Key for OutPoint {
    fn same(&self, other: &Self) -> (r: bool) {
        *self == *other
    }

    fn dup_key(&self) -> (r: Self) {
        *self
    }
}

impl Key for RuneId {
    fn same(&self, other: &Self) -> (r: bool) {
        *self == *other
    }

    fn dup_key(&self) -> (r: Self) {
        *self
    }
}

impl Key for Rune {
    fn same(&self, other: &Self) -> (r: bool) {
        *self == *other
    }

    fn dup_key(&self) -> (r: Self) {
        *self
    }
}

impl Key for u64 {
    fn same(&self, other: &Self) -> (r: bool) {
        *self == *other
    }

    fn dup_key(&self) -> (r: Self) {
        *self
    }
}

impl Key for ScriptPubKey {
    fn same(&self, other: &Self) -> (r: bool) {
        bytes_equal(&self.bytes, &other.bytes)
    }

    fn dup_key(&self) -> (r: Self) {
        ScriptPubKey { bytes: copy_bytes(&self.bytes) }
    }
}

impl Value for ScriptPubKey {
    fn dup(&self) -> (r: Self) {
        ScriptPubKey { bytes: copy_bytes(&self.bytes) }
    }
}

impl Value for u128 {
    fn dup(&self) -> (r: Self) {
        *self
    }
}

impl Value for u32 {
    fn dup(&self) -> (r: Self) {
        *self
    }
}

impl Value for RuneId {
    fn dup(&self) -> (r: Self) {
        *self
    }
}

impl Value for BlockHash {
    fn dup(&self) -> (r: Self) {
        *self
    }
}

impl Value for SpenderReference {
    fn dup(&self) -> (r: Self) {
        *self
    }
}

impl Value for BlockId {
    fn dup(&self) -> (r: Self) {
        *self
    }
}

} // verus!
