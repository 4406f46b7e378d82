use crate::ids::{BlockHash, OutPoint, SerializedTxid};
use crate::rune::Rune;
use crate::rune_amount::RuneAmount;
use crate::rune_id::RuneId;
use crate::spaced_rune::SpacedRune;
use crate::table::Value;
use vstd::prelude::*;

verus! {

/// Copies a vector of plain values.
pub fn copy_vec<T: Copy>(v: &Vec<T>) -> (r: Vec<T>)
    ensures
        r@ == v@,
{
    let mut out: Vec<T> = Vec::new();
    let mut i: usize = 0;
    while i < v.len()
        invariant
            i <= v.len(),
            out@ == v@.take(i as int),
        decreases v.len() - i,
    {
        proof {
            assert(v@.take(i + 1) =~= v@.take(i as int).push(v@[i as int]));
        }
        out.push(v[i]);
        i = i + 1;
    }
    assert(v@.take(v.len() as int) =~= v@);
    out
}

impl<T: Copy> Value for Vec<T> {
    fn dup(&self) -> (r: Self) {
        copy_vec(self)
    }
}

/// The terms under which a rune can be minted.
#[derive(Default, Debug, PartialEq, Copy, Clone, Eq)]
pub struct Terms {
    /// Units created by one mint.
    pub amount: Option<u128>,
    /// Number of mints allowed.
    pub cap: Option<u128>,
    /// First height at which minting is open, and first at which it is
    /// closed again.
    pub height: (Option<u64>, Option<u64>),
    /// The same two bounds, counted from the block of the etching.
    pub offset: (Option<u64>, Option<u64>),
}

/// The place of an inscription: a transaction and an index in it.
#[derive(Debug, PartialEq, Copy, Clone, Eq, Structural, Hash)]
pub struct InscriptionId {
    pub txid: SerializedTxid,
    pub index: u32,
}

/// What is recorded of an etched rune.
#[derive(Debug, PartialEq, Copy, Clone, Eq)]
pub struct RuneEntry {
    pub block: u64,
    pub burned: u128,
    pub divisibility: u8,
    pub etching: SerializedTxid,
    pub terms: Option<Terms>,
    pub mints: u128,
    pub number: u64,
    pub premine: u128,
    pub spaced_rune: SpacedRune,
    pub symbol: Option<char>,
    pub pending_burns: u128,
    pub pending_mints: u128,
    pub inscription_id: Option<InscriptionId>,
    pub timestamp: u64,
    pub turbo: bool,
}

/// Why a rune cannot be minted at some height.
#[derive(Debug, PartialEq, Copy, Clone, Eq, Structural)]
pub enum MintError {
    /// The cap of the rune has been reached.
    Cap(u128),
    /// Minting has closed at the given height.
    End(u64),
    /// Minting opens only at the given height.
    Start(u64),
    /// The rune has no terms.
    Unmintable,
}

pub open spec fn sat_add(a: u64, b: u64) -> u64 {
    if a + b > u64::MAX {
        u64::MAX
    } else {
        (a + b) as u64
    }
}

/// The later of two optional bounds, and the one that is present if only
/// one is.
pub open spec fn later(relative: Option<u64>, absolute: Option<u64>) -> Option<u64> {
    match (relative, absolute) {
        (Some(r), Some(a)) => Some(if r >= a { r } else { a }),
        (Some(r), None) => Some(r),
        (None, a) => a,
    }
}

/// The earlier of two optional bounds, and the one that is present if only
/// one is.
pub open spec fn earlier(relative: Option<u64>, absolute: Option<u64>) -> Option<u64> {
    match (relative, absolute) {
        (Some(r), Some(a)) => Some(if r <= a { r } else { a }),
        (Some(r), None) => Some(r),
        (None, a) => a,
    }
}

impl RuneEntry {
    /// First height at which the rune can be minted, if its terms set one.
    pub open spec fn spec_start(self) -> Option<u64> {
        match self.terms {
            None => None,
            Some(terms) => later(
                match terms.offset.0 {
                    Some(o) => Some(sat_add(self.block, o)),
                    None => None,
                },
                terms.height.0,
            ),
        }
    }

    /// First height at which the rune can no longer be minted, if its terms
    /// set one.
    pub open spec fn spec_end(self) -> Option<u64> {
        match self.terms {
            None => None,
            Some(terms) => earlier(
                match terms.offset.1 {
                    Some(o) => Some(sat_add(self.block, o)),
                    None => None,
                },
                terms.height.1,
            ),
        }
    }

    /// The amount that a mint at `height` creates, or why there can be no
    /// mint: the rune needs terms, the height must lie in the window that
    /// they set, and the number of mints must be below the cap. A missing
    /// cap or amount counts as zero.
    pub open spec fn spec_mintable(self, height: u64) -> Result<u128, MintError> {
        match self.terms {
            None => Err(MintError::Unmintable),
            Some(terms) => {
                if self.spec_start().is_some() && height < self.spec_start().unwrap() {
                    Err(MintError::Start(self.spec_start().unwrap()))
                } else if self.spec_end().is_some() && height >= self.spec_end().unwrap() {
                    Err(MintError::End(self.spec_end().unwrap()))
                } else if self.mints >= terms.cap.unwrap_or(0) {
                    Err(MintError::Cap(terms.cap.unwrap_or(0)))
                } else {
                    Ok(terms.amount.unwrap_or(0))
                }
            },
        }
    }

    pub fn start(&self) -> (r: Option<u64>)
        ensures
            r == self.spec_start(),
    {
        match self.terms {
            None => None,
            Some(terms) => {
                let relative: Option<u64> = match terms.offset.0 {
                    Some(o) => Some(self.block.saturating_add(o)),
                    None => None,
                };
                match (relative, terms.height.0) {
                    (Some(r), Some(a)) => Some(if r >= a { r } else { a }),
                    (Some(r), None) => Some(r),
                    (None, a) => a,
                }
            },
        }
    }

    pub fn end(&self) -> (r: Option<u64>)
        ensures
            r == self.spec_end(),
    {
        match self.terms {
            None => None,
            Some(terms) => {
                let relative: Option<u64> = match terms.offset.1 {
                    Some(o) => Some(self.block.saturating_add(o)),
                    None => None,
                };
                match (relative, terms.height.1) {
                    (Some(r), Some(a)) => Some(if r <= a { r } else { a }),
                    (Some(r), None) => Some(r),
                    (None, a) => a,
                }
            },
        }
    }

    pub fn mintable(&self, height: u64) -> (r: Result<u128, MintError>)
        ensures
            r == self.spec_mintable(height),
            r.is_ok() ==> self.terms.is_some() && self.mints < self.terms.unwrap().cap.unwrap_or(0),
    {
        let terms = match self.terms {
            None => {
                return Err(MintError::Unmintable);
            },
            Some(terms) => terms,
        };
        match self.start() {
            Some(start) => {
                if height < start {
                    return Err(MintError::Start(start));
                }
            },
            None => {},
        }
        match self.end() {
            Some(end) => {
                if height >= end {
                    return Err(MintError::End(end));
                }
            },
            None => {},
        }
        let cap: u128 = match terms.cap {
            Some(c) => c,
            None => 0,
        };
        if self.mints >= cap {
            return Err(MintError::Cap(cap));
        }
        Ok(
            match terms.amount {
                Some(a) => a,
                None => 0,
            },
        )
    }

    /// Whether the number of mints respects the cap of the rune. A rune
    /// without terms, or without a cap, has cap zero.
    pub open spec fn within_cap(self) -> bool {
        match self.terms {
            Some(terms) => match terms.cap {
                Some(cap) => self.mints <= cap,
                None => true,
            },
            None => true,
        }
    }
}

impl View for RuneEntry {
    type V = RuneEntry;

    open spec fn view(&self) -> RuneEntry {
        *self
    }
}

impl Value for RuneEntry {
    fn dup(&self) -> (r: Self) {
        *self
    }
}

/// What an output holds: its value in satoshis, its rune balances in order,
/// and whether it has been spent.
#[derive(Debug, PartialEq, Eq)]
pub struct TxOutEntry {
    pub runes: Vec<RuneAmount>,
    pub value: u64,
    pub spent: bool,
}

pub struct TxOutEntryView {
    pub runes: Seq<RuneAmount>,
    pub value: u64,
    pub spent: bool,
}

impl View for TxOutEntry {
    type V = TxOutEntryView;

    open spec fn view(&self) -> TxOutEntryView {
        TxOutEntryView { runes: self.runes@, value: self.value, spent: self.spent }
    }
}

impl Clone for TxOutEntry {
    fn clone(&self) -> (r: Self)
        ensures
            r@ == self@,
    {
        TxOutEntry { runes: copy_vec(&self.runes), value: self.value, spent: self.spent }
    }
}

impl Value for TxOutEntry {
    fn dup(&self) -> (r: Self) {
        self.clone()
    }
}

/// An output that a transaction consumed, with the balances it held.
#[derive(Debug, PartialEq, Eq)]
pub struct SpentInput {
    pub outpoint: OutPoint,
    pub runes: Vec<RuneAmount>,
}

pub struct SpentInputView {
    pub outpoint: OutPoint,
    pub runes: Seq<RuneAmount>,
}

impl View for SpentInput {
    type V = SpentInputView;

    open spec fn view(&self) -> SpentInputView {
        SpentInputView { outpoint: self.outpoint, runes: self.runes@ }
    }
}

impl Clone for SpentInput {
    fn clone(&self) -> (r: Self)
        ensures
            r@ == self@,
    {
        SpentInput { outpoint: self.outpoint, runes: copy_vec(&self.runes) }
    }
}

/// The effect of one transaction on the rune state: the outputs it
/// consumed, the outputs it produced, the rune it etched, what it minted
/// and what it burned.
#[derive(Debug, PartialEq, Eq)]
pub struct TransactionStateChange {
    pub inputs: Vec<SpentInput>,
    pub outputs: Vec<TxOutEntry>,
    pub etched: Option<(RuneId, Rune)>,
    pub minted: Option<RuneAmount>,
    pub burned: Vec<RuneAmount>,
}

pub struct TransactionStateChangeView {
    pub inputs: Seq<SpentInputView>,
    pub outputs: Seq<TxOutEntryView>,
    pub etched: Option<(RuneId, Rune)>,
    pub minted: Option<RuneAmount>,
    pub burned: Seq<RuneAmount>,
}

impl View for TransactionStateChange {
    type V = TransactionStateChangeView;

    open spec fn view(&self) -> TransactionStateChangeView {
        TransactionStateChangeView {
            inputs: Seq::new(self.inputs@.len(), |i: int| self.inputs@[i]@),
            outputs: Seq::new(self.outputs@.len(), |i: int| self.outputs@[i]@),
            etched: self.etched,
            minted: self.minted,
            burned: self.burned@,
        }
    }
}

impl Clone for TransactionStateChange {
    fn clone(&self) -> (r: Self)
        ensures
            r@ == self@,
    {
        let mut inputs: Vec<SpentInput> = Vec::new();
        let mut i: usize = 0;
        while i < self.inputs.len()
            invariant
                i <= self.inputs.len(),
                inputs@.len() == i,
                forall|j: int| 0 <= j < i ==> (#[trigger] inputs@[j])@ == self.inputs@[j]@,
            decreases self.inputs.len() - i,
        {
            inputs.push(self.inputs[i].clone());
            i = i + 1;
        }
        let mut outputs: Vec<TxOutEntry> = Vec::new();
        let mut k: usize = 0;
        while k < self.outputs.len()
            invariant
                k <= self.outputs.len(),
                outputs@.len() == k,
                forall|j: int| 0 <= j < k ==> (#[trigger] outputs@[j])@ == self.outputs@[j]@,
            decreases self.outputs.len() - k,
        {
            outputs.push(self.outputs[k].clone());
            k = k + 1;
        }
        let r = TransactionStateChange {
            inputs,
            outputs,
            etched: self.etched,
            minted: self.minted,
            burned: copy_vec(&self.burned),
        };
        assert(r@.inputs =~= self@.inputs);
        assert(r@.outputs =~= self@.outputs);
        r
    }
}

impl Value for TransactionStateChange {
    fn dup(&self) -> (r: Self) {
        self.clone()
    }
}

impl TransactionStateChangeView {
    /// Whether the transaction changed anything about runes.
    pub open spec fn has_rune_updates(self) -> bool {
        self.etched.is_some() || self.minted.is_some() || self.burned.len() > 0 || (exists|
            i: int,
        |
            0 <= i < self.inputs.len() && (#[trigger] self.inputs[i]).runes.len() > 0) || (exists|
            i: int,
        |
            0 <= i < self.outputs.len() && (#[trigger] self.outputs[i]).runes.len() > 0)
    }
}

impl TransactionStateChange {
    pub fn has_rune_updates(&self) -> (r: bool)
        ensures
            r == self@.has_rune_updates(),
    {
        if self.etched.is_some() || self.minted.is_some() || self.burned.len() > 0 {
            return true;
        }
        let mut i: usize = 0;
        while i < self.inputs.len()
            invariant
                i <= self.inputs.len(),
                forall|j: int| 0 <= j < i ==> (#[trigger] self@.inputs[j]).runes.len() == 0,
            decreases self.inputs.len() - i,
        {
            if self.inputs[i].runes.len() > 0 {
                assert(self@.inputs[i as int].runes.len() > 0);
                return true;
            }
            i = i + 1;
        }
        let mut k: usize = 0;
        while k < self.outputs.len()
            invariant
                k <= self.outputs.len(),
                forall|j: int| 0 <= j < k ==> (#[trigger] self@.outputs[j]).runes.len() == 0,
            decreases self.outputs.len() - k,
        {
            if self.outputs[k].runes.len() > 0 {
                assert(self@.outputs[k as int].runes.len() > 0);
                return true;
            }
            k = k + 1;
        }
        false
    }
}

/// What the indexer keeps of a block header.
#[derive(Debug, PartialEq, Copy, Clone, Eq, Structural)]
pub struct BlockHeader {
    pub hash: BlockHash,
    pub prev_blockhash: BlockHash,
    pub time: u32,
}

/// The record of an indexed block.
#[derive(Debug, PartialEq, Eq)]
pub struct Block {
    pub height: u64,
    pub header: BlockHeader,
    pub tx_ids: Vec<SerializedTxid>,
    pub etched_runes: Vec<RuneId>,
}

pub struct BlockView {
    pub height: u64,
    pub header: BlockHeader,
    pub tx_ids: Seq<SerializedTxid>,
    pub etched_runes: Seq<RuneId>,
}

impl View for Block {
    type V = BlockView;

    open spec fn view(&self) -> BlockView {
        BlockView {
            height: self.height,
            header: self.header,
            tx_ids: self.tx_ids@,
            etched_runes: self.etched_runes@,
        }
    }
}

impl Clone for Block {
    fn clone(&self) -> (r: Self)
        ensures
            r@ == self@,
    {
        Block {
            height: self.height,
            header: self.header,
            tx_ids: copy_vec(&self.tx_ids),
            etched_runes: copy_vec(&self.etched_runes),
        }
    }
}

impl Value for Block {
    fn dup(&self) -> (r: Self) {
        self.clone()
    }
}

impl Block {
    /// The record of a block in which nothing was indexed.
    pub fn empty_block(height: u64, header: BlockHeader) -> (r: Block)
        ensures
            r@ == (BlockView {
                height,
                header,
                tx_ids: Seq::<SerializedTxid>::empty(),
                etched_runes: Seq::<RuneId>::empty(),
            }),
    {
        Block { height, header, tx_ids: Vec::new(), etched_runes: Vec::new() }
    }
}

/// Where something happened: in the mempool, or in the block at a height.
#[derive(Debug, PartialEq, Copy, Clone, Eq, Structural)]
pub struct Location {
    pub mempool: bool,
    pub block_height: Option<u64>,
}

impl Location {
    pub fn mempool() -> (r: Location)
        ensures
            r == (Location { mempool: true, block_height: None }),
    {
        Location { mempool: true, block_height: None }
    }

    pub fn block(height: u64) -> (r: Location)
        ensures
            r == (Location { mempool: false, block_height: Some(height) }),
    {
        Location { mempool: false, block_height: Some(height) }
    }
}

/// The state of the mint of a rune, as shown to clients.
#[derive(Debug, Clone, Copy, PartialEq, Eq, Structural)]
pub struct MintResponse {
    pub start: Option<u64>,
    pub end: Option<u64>,
    pub mintable: bool,
    pub cap: u128,
    pub amount: u128,
    pub mints: u128,
}

impl RuneEntry {
    /// The state of the mint of this rune at the given height, if the rune
    /// has terms.
    pub fn mint_response(&self, height: u64) -> (r: Option<MintResponse>)
        ensures
            r == (match self.terms {
                None => None::<MintResponse>,
                Some(terms) => Some(
                    MintResponse {
                        start: self.spec_start(),
                        end: self.spec_end(),
                        mintable: self.spec_mintable(height).is_ok(),
                        cap: terms.cap.unwrap_or(0),
                        amount: terms.amount.unwrap_or(0),
                        mints: self.mints,
                    },
                ),
            }),
    {
        match self.terms {
            None => None,
            Some(terms) => Some(
                MintResponse {
                    start: self.start(),
                    end: self.end(),
                    mintable: self.mintable(height).is_ok(),
                    cap: match terms.cap {
                        Some(c) => c,
                        None => 0,
                    },
                    amount: match terms.amount {
                        Some(a) => a,
                        None => 0,
                    },
                    mints: self.mints,
                },
            ),
        }
    }
}

} // verus!
