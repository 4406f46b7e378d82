use crate::decipher::{decipher_edicts, decipher_etching, decipher_head};
use crate::ids::{copy_bytes, OutPoint, ScriptPubKey};
use crate::model::Terms;
use crate::rune::Rune;
use crate::rune_id::RuneId;
use vstd::prelude::*;

verus! {

/// An output of a transaction: its value and its locking script.
#[derive(Debug, PartialEq, Eq)]
pub struct TxOutput {
    pub value: u64,
    pub script_pubkey: ScriptPubKey,
}

/// What the indexer reads of a transaction: the outputs it consumes and
/// the outputs it creates.
#[derive(Debug, PartialEq, Eq)]
pub struct Transaction {
    pub inputs: Vec<OutPoint>,
    pub outputs: Vec<TxOutput>,
}

pub struct TransactionView {
    pub inputs: Seq<OutPoint>,
    /// The locking scripts of the outputs.
    pub scripts: Seq<Seq<u8>>,
    /// The values of the outputs.
    pub values: Seq<u64>,
}

impl View for Transaction {
    type V = TransactionView;

    open spec fn view(&self) -> TransactionView {
        TransactionView {
            inputs: self.inputs@,
            scripts: Seq::new(self.outputs@.len(), |i: int| self.outputs@[i].script_pubkey@),
            values: Seq::new(self.outputs@.len(), |i: int| self.outputs@[i].value),
        }
    }
}

/// An instruction to move an amount of a rune to an output. The output
/// that is one past the last stands for every output that can hold runes.
#[derive(Default, Debug, PartialEq, Copy, Clone, Eq, Structural)]
pub struct Edict {
    pub id: RuneId,
    pub amount: u128,
    pub output: u32,
}

/// The properties that an etching gives to a new rune.
#[derive(Default, Debug, PartialEq, Copy, Clone, Eq)]
pub struct Etching {
    pub divisibility: Option<u8>,
    pub premine: Option<u128>,
    pub rune: Option<Rune>,
    pub spacers: Option<u32>,
    pub symbol: Option<char>,
    pub terms: Option<Terms>,
    pub turbo: bool,
}

/// A well-formed message of the protocol.
#[derive(Default, Debug, PartialEq, Eq)]
pub struct Runestone {
    pub edicts: Vec<Edict>,
    pub etching: Option<Etching>,
    pub mint: Option<RuneId>,
    pub pointer: Option<u32>,
}

pub struct RunestoneView {
    pub edicts: Seq<Edict>,
    pub etching: Option<Etching>,
    pub mint: Option<RuneId>,
    pub pointer: Option<u32>,
}

/// A malformed message of the protocol: the runes that enter the
/// transaction are burned. The name it meant to etch and the rune it meant
/// to mint are kept.
#[derive(Default, Debug, PartialEq, Copy, Clone, Eq)]
pub struct Cenotaph {
    pub etching: Option<Rune>,
    pub mint: Option<RuneId>,
}

/// What the outputs of a transaction say in the protocol.
#[derive(Debug, PartialEq, Eq)]
pub enum Artifact {
    Cenotaph(Cenotaph),
    Runestone(Runestone),
}

pub enum ArtifactView {
    Cenotaph(Cenotaph),
    Runestone(RunestoneView),
}

impl View for Runestone {
    type V = RunestoneView;

    open spec fn view(&self) -> RunestoneView {
        RunestoneView {
            edicts: self.edicts@,
            etching: self.etching,
            mint: self.mint,
            pointer: self.pointer,
        }
    }
}

impl View for Artifact {
    type V = ArtifactView;

    open spec fn view(&self) -> ArtifactView {
        match self {
            Artifact::Cenotaph(c) => ArtifactView::Cenotaph(*c),
            Artifact::Runestone(r) => ArtifactView::Runestone(r@),
        }
    }
}

/// The view of a message that may be absent.
pub open spec fn view_of(artifact: Option<Artifact>) -> Option<ArtifactView> {
    match artifact {
        Some(a) => Some(a@),
        None => None,
    }
}

impl ArtifactView {
    /// The rune that the message mints.
    pub open spec fn mint(self) -> Option<RuneId> {
        match self {
            ArtifactView::Cenotaph(c) => c.mint,
            ArtifactView::Runestone(r) => r.mint,
        }
    }
}

impl Artifact {
    /// The rune that the message mints.
    pub fn mint(&self) -> (r: Option<RuneId>)
        ensures
            r == self@.mint(),
    {
        match self {
            Artifact::Cenotaph(c) => c.mint,
            Artifact::Runestone(r) => r.mint,
        }
    }
}

/// The message that the protocol reads from the locking scripts of the
/// outputs of a transaction, if they hold one.
pub uninterp spec fn deciphered(scripts: Seq<Seq<u8>>) -> Option<ArtifactView>;

/// The heading of a message: whether it is malformed, the name a malformed
/// message meant to etch, the rune it mints, and its pointer.
pub type Head = (bool, Option<u128>, Option<(u64, u32)>, Option<u32>);

/// An edict as four numbers: block and index of the rune, amount, output.
pub type RawEdict = (u64, u32, u128, u32);

/// Terms as plain numbers: amount, cap, height bounds, offset bounds.
pub type RawTerms = (Option<u128>, Option<u128>, (Option<u64>, Option<u64>), (Option<u64>, Option<u64>));

/// An etching as plain values: divisibility, premine, name, spacers,
/// symbol, turbo, terms.
pub type RawEtching = (
    Option<u8>,
    Option<u128>,
    Option<u128>,
    Option<u32>,
    Option<char>,
    bool,
    Option<RawTerms>,
);

pub open spec fn raw_id(id: Option<RuneId>) -> Option<(u64, u32)> {
    match id {
        Some(id) => Some((id.block, id.tx)),
        None => None,
    }
}

pub open spec fn raw_rune(rune: Option<Rune>) -> Option<u128> {
    match rune {
        Some(r) => Some(r.0),
        None => None,
    }
}

pub open spec fn head_of(artifact: Option<ArtifactView>) -> Option<Head> {
    match artifact {
        None => None,
        Some(ArtifactView::Cenotaph(c)) => Some((true, raw_rune(c.etching), raw_id(c.mint), None)),
        Some(ArtifactView::Runestone(r)) => Some((false, None, raw_id(r.mint), r.pointer)),
    }
}

pub open spec fn raw_edict(e: Edict) -> RawEdict {
    (e.id.block, e.id.tx, e.amount, e.output)
}

pub open spec fn edicts_of(artifact: Option<ArtifactView>) -> Seq<RawEdict> {
    match artifact {
        Some(ArtifactView::Runestone(r)) => Seq::new(r.edicts.len(), |i: int| raw_edict(r.edicts[i])),
        _ => Seq::empty(),
    }
}

pub open spec fn raw_terms(terms: Option<Terms>) -> Option<RawTerms> {
    match terms {
        Some(t) => Some((t.amount, t.cap, t.height, t.offset)),
        None => None,
    }
}

pub open spec fn raw_etching(etching: Option<Etching>) -> Option<RawEtching> {
    match etching {
        Some(e) => Some(
            (
                e.divisibility,
                e.premine,
                raw_rune(e.rune),
                e.spacers,
                e.symbol,
                e.turbo,
                raw_terms(e.terms),
            ),
        ),
        None => None,
    }
}

pub open spec fn etching_of(artifact: Option<ArtifactView>) -> Option<RawEtching> {
    match artifact {
        Some(ArtifactView::Runestone(r)) => raw_etching(r.etching),
        _ => None,
    }
}

fn id_of(raw: Option<(u64, u32)>) -> (r: Option<RuneId>)
    ensures
        raw_id(r) == raw,
        raw.is_none() ==> r.is_none(),
{
    match raw {
        Some((block, tx)) => Some(RuneId { block, tx }),
        None => None,
    }
}

fn rune_of(raw: Option<u128>) -> (r: Option<Rune>)
    ensures
        raw_rune(r) == raw,
{
    match raw {
        Some(n) => Some(Rune(n)),
        None => None,
    }
}

fn etching_from(raw: Option<RawEtching>) -> (r: Option<Etching>)
    ensures
        raw_etching(r) == raw,
{
    match raw {
        None => None,
        Some((divisibility, premine, rune, spacers, symbol, turbo, terms)) => Some(
            Etching {
                divisibility,
                premine,
                rune: rune_of(rune),
                spacers,
                symbol,
                terms: match terms {
                    Some((amount, cap, height, offset)) => Some(
                        Terms { amount, cap, height, offset },
                    ),
                    None => None,
                },
                turbo,
            },
        ),
    }
}

/// Whatever has the same plain values is the same etching.
proof fn lemma_raw_etching_injective(a: Option<Etching>, b: Option<Etching>)
    requires
        raw_etching(a) == raw_etching(b),
    ensures
        a == b,
{
    if a.is_some() {
        assert(b.is_some());
        let x = a.unwrap();
        let y = b.unwrap();
        assert(raw_rune(x.rune) == raw_rune(y.rune));
        assert(x.rune == y.rune) by {
            if x.rune.is_some() {
                assert(y.rune.is_some());
            }
        }
        assert(raw_terms(x.terms) == raw_terms(y.terms));
        assert(x.terms == y.terms) by {
            if x.terms.is_some() {
                assert(y.terms.is_some());
                let s = x.terms.unwrap();
                let t = y.terms.unwrap();
                assert(s.amount == t.amount && s.cap == t.cap && s.height == t.height && s.offset
                    == t.offset);
            }
        }
        assert(x.divisibility == y.divisibility);
        assert(x == y);
    }
}

impl Transaction {
    /// Copies of the locking scripts of the outputs, in order.
    pub fn scripts(&self) -> (r: Vec<Vec<u8>>)
        ensures
            r.deep_view() == self@.scripts,
            r@.len() == self.outputs@.len(),
    {
        let mut out: Vec<Vec<u8>> = Vec::new();
        let mut i: usize = 0;
        while i < self.outputs.len()
            invariant
                i <= self.outputs.len(),
                out@.len() == i,
                forall|j: int| 0 <= j < i ==> (#[trigger] out@[j])@ == self.outputs@[j].script_pubkey@,
            decreases self.outputs.len() - i,
        {
            out.push(copy_bytes(&self.outputs[i].script_pubkey.bytes));
            i = i + 1;
        }
        proof {
            assert forall|j: int| 0 <= j < out@.len() implies #[trigger] out@[j].deep_view()
                == self@.scripts[j] by {
                assert(out@[j].deep_view() =~= out@[j]@);
            }
            assert(out.deep_view() =~= self@.scripts);
        }
        out
    }

    /// Reads the message of the protocol that the outputs hold, if any.
    /// The number of outputs must fit the 32 bits in which the protocol
    /// counts them.
    pub fn decipher(&self) -> (r: Option<Artifact>)
        requires
            self.outputs@.len() <= u32::MAX,
        ensures
            r.is_some() == deciphered(self@.scripts).is_some(),
            r.is_some() ==> r.unwrap()@ == deciphered(self@.scripts).unwrap(),
    {
        let scripts = self.scripts();
        let ghost named = deciphered(self@.scripts);
        let head = decipher_head(&scripts);
        match head {
            None => None,
            Some((cenotaph, rune, mint, pointer)) => {
                if cenotaph {
                    let c = Cenotaph { etching: rune_of(rune), mint: id_of(mint) };
                    proof {
                        let d = named.unwrap()->Cenotaph_0;
                        assert(c.etching == d.etching) by {
                            if c.etching.is_some() {
                                assert(d.etching.is_some());
                            }
                        }
                        assert(c.mint == d.mint) by {
                            if c.mint.is_some() {
                                assert(d.mint.is_some());
                            }
                        }
                    }
                    Some(Artifact::Cenotaph(c))
                } else {
                    let raw_edicts = decipher_edicts(&scripts);
                    let raw = decipher_etching(&scripts);
                    let ghost d = named.unwrap()->Runestone_0;
                    let mut edicts: Vec<Edict> = Vec::new();
                    let mut i: usize = 0;
                    while i < raw_edicts.len()
                        invariant
                            i <= raw_edicts.len(),
                            raw_edicts@.len() == d.edicts.len(),
                            forall|j: int|
                                0 <= j < raw_edicts@.len() ==> #[trigger] raw_edicts@[j]
                                    == raw_edict(d.edicts[j]),
                            edicts@ == d.edicts.take(i as int),
                        decreases raw_edicts.len() - i,
                    {
                        let (block, tx, amount, output) = raw_edicts[i];
                        proof {
                            assert(raw_edicts@[i as int] == raw_edict(d.edicts[i as int]));
                            assert(d.edicts.take(i + 1) =~= d.edicts.take(i as int).push(
                                d.edicts[i as int],
                            ));
                        }
                        edicts.push(Edict { id: RuneId { block, tx }, amount, output });
                        i = i + 1;
                    }
                    let etching = etching_from(raw);
                    let mint = id_of(mint);
                    proof {
                        assert(d.edicts.take(raw_edicts.len() as int) =~= d.edicts);
                        lemma_raw_etching_injective(etching, d.etching);
                        assert(mint == d.mint) by {
                            if mint.is_some() {
                                assert(d.mint.is_some());
                            }
                        }
                    }
                    Some(Artifact::Runestone(Runestone { edicts, etching, mint, pointer }))
                }
            },
        }
    }
}

} // verus!
