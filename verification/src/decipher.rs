use crate::artifact::{deciphered, edicts_of, etching_of, head_of, Head, RawEdict, RawEtching};
use bitcoin::{absolute::LockTime, transaction::Version, Amount, ScriptBuf, Transaction, TxOut};
use ordinals::{Artifact, Runestone};
use vstd::prelude::*;

verus! {

/// The heading of the message that the scripts hold.
///
/// Trusted: calls `ordinals::Runestone::decipher` on a transaction whose
/// outputs carry the given locking scripts, in order; that function reads
/// nothing else of a transaction than these scripts and their number, and
/// it does not return where their number does not fit 32 bits. Of
/// its result this keeps which of the two forms it has, the name that a
/// malformed message meant to etch, the rune to mint and the pointer.
#[verifier::external_body]
pub(crate) fn decipher_head(scripts: &Vec<Vec<u8>>) -> (r: Option<Head>)
    requires
        scripts@.len() <= u32::MAX,
    ensures
        r == head_of(deciphered(scripts.deep_view())),
{
    let tx = Transaction { version: Version::TWO, lock_time: LockTime::ZERO, input: Vec::new(),
        output: scripts.iter().map(|s| TxOut { value: Amount::ZERO,
            script_pubkey: ScriptBuf::from_bytes(s.clone()) }).collect() };
    Runestone::decipher(&tx).map(|a| match a {
        Artifact::Cenotaph(c) =>
            (true, c.etching.map(|r| r.0), c.mint.map(|m| (m.block, m.tx)), None),
        Artifact::Runestone(r) => (false, None, r.mint.map(|m| (m.block, m.tx)), r.pointer),
    })
}

/// The edicts of the message that the scripts hold, in order; none where
/// there is no message or the message is malformed.
///
/// Trusted: calls `ordinals::Runestone::decipher` as above, and keeps of
/// its result the edicts.
#[verifier::external_body]
pub(crate) fn decipher_edicts(scripts: &Vec<Vec<u8>>) -> (r: Vec<RawEdict>)
    requires
        scripts@.len() <= u32::MAX,
    ensures
        r@ == edicts_of(deciphered(scripts.deep_view())),
{
    let tx = Transaction { version: Version::TWO, lock_time: LockTime::ZERO, input: Vec::new(),
        output: scripts.iter().map(|s| TxOut { value: Amount::ZERO,
            script_pubkey: ScriptBuf::from_bytes(s.clone()) }).collect() };
    match Runestone::decipher(&tx) {
        Some(Artifact::Runestone(r)) =>
            r.edicts.iter().map(|e| (e.id.block, e.id.tx, e.amount, e.output)).collect(),
        _ => Vec::new(),
    }
}

/// The etching of the message that the scripts hold, if it is well formed
/// and has one.
///
/// Trusted: calls `ordinals::Runestone::decipher` as above, and keeps of
/// its result the etching, field by field.
#[verifier::external_body]
pub(crate) fn decipher_etching(scripts: &Vec<Vec<u8>>) -> (r: Option<RawEtching>)
    requires
        scripts@.len() <= u32::MAX,
    ensures
        r == etching_of(deciphered(scripts.deep_view())),
{
    let tx = Transaction { version: Version::TWO, lock_time: LockTime::ZERO, input: Vec::new(),
        output: scripts.iter().map(|s| TxOut { value: Amount::ZERO,
            script_pubkey: ScriptBuf::from_bytes(s.clone()) }).collect() };
    match Runestone::decipher(&tx) {
        Some(Artifact::Runestone(r)) => r.etching.map(|e| (e.divisibility, e.premine,
            e.rune.map(|r| r.0), e.spacers, e.symbol, e.turbo,
            e.terms.map(|t| (t.amount, t.cap, t.height, t.offset)))),
        _ => None,
    }
}

} // verus!
