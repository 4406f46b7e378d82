use rune_indexer::artifact::{Artifact, Cenotaph, Edict, Etching, Runestone, Transaction, TxOutput};
use rune_indexer::ids::ScriptPubKey;
use rune_indexer::model::Terms;
use rune_indexer::rune::Rune;
use rune_indexer::rune_id::RuneId;

fn output(script: Vec<u8>) -> TxOutput {
    TxOutput { value: 546, script_pubkey: ScriptPubKey::new(script) }
}

fn pay_script() -> Vec<u8> {
    // OP_1 <32 bytes>: an output that can hold runes.
    let mut s = vec![0x51, 0x20];
    s.extend_from_slice(&[7u8; 32]);
    s
}

fn tx_with(stone: &ordinals::Runestone, extra_outputs: usize) -> Transaction {
    let mut outputs = vec![output(stone.encipher().into_bytes())];
    for _ in 0..extra_outputs {
        outputs.push(output(pay_script()));
    }
    Transaction { inputs: vec![], outputs }
}

#[test]
fn decipher_reads_etching_edicts_mint_and_pointer() {
    let stone = ordinals::Runestone {
        edicts: vec![
            ordinals::Edict { id: ordinals::RuneId { block: 5, tx: 1 }, amount: 10, output: 1 },
            ordinals::Edict { id: ordinals::RuneId { block: 7, tx: 2 }, amount: 0, output: 3 },
        ],
        etching: Some(ordinals::Etching {
            divisibility: Some(2),
            premine: Some(1000),
            rune: Some(ordinals::Rune(99246114928149462)),
            spacers: Some(5),
            symbol: Some('$'),
            terms: Some(ordinals::Terms {
                amount: Some(100),
                cap: Some(5),
                height: (Some(10), Some(20)),
                offset: (None, Some(7)),
            }),
            turbo: true,
        }),
        mint: Some(ordinals::RuneId { block: 9, tx: 4 }),
        pointer: Some(2),
    };
    let tx = tx_with(&stone, 2);
    let expected = Artifact::Runestone(Runestone {
        edicts: vec![
            Edict { id: RuneId::new(5, 1), amount: 10, output: 1 },
            Edict { id: RuneId::new(7, 2), amount: 0, output: 3 },
        ],
        etching: Some(Etching {
            divisibility: Some(2),
            premine: Some(1000),
            rune: Some(Rune(99246114928149462)),
            spacers: Some(5),
            symbol: Some('$'),
            terms: Some(Terms {
                amount: Some(100),
                cap: Some(5),
                height: (Some(10), Some(20)),
                offset: (None, Some(7)),
            }),
            turbo: true,
        }),
        mint: Some(RuneId::new(9, 4)),
        pointer: Some(2),
    });
    assert_eq!(tx.decipher(), Some(expected));
}

#[test]
fn decipher_gives_nothing_without_a_message() {
    let tx = Transaction { inputs: vec![], outputs: vec![output(pay_script())] };
    assert_eq!(tx.decipher(), None);
    let empty = Transaction { inputs: vec![], outputs: vec![] };
    assert_eq!(empty.decipher(), None);
}

#[test]
fn decipher_reports_a_malformed_message() {
    // OP_RETURN OP_13 followed by an opcode that pushes no data.
    let tx = Transaction { inputs: vec![], outputs: vec![output(vec![0x6a, 0x5d, 0x51])] };
    assert_eq!(
        tx.decipher(),
        Some(Artifact::Cenotaph(Cenotaph { etching: None, mint: None }))
    );
    // A pointer past the outputs is dropped, an edict past them is a flaw.
    let stone = ordinals::Runestone {
        edicts: vec![ordinals::Edict {
            id: ordinals::RuneId { block: 5, tx: 1 },
            amount: 10,
            output: 9,
        }],
        etching: Some(ordinals::Etching { rune: Some(ordinals::Rune(77)), ..Default::default() }),
        mint: Some(ordinals::RuneId { block: 3, tx: 3 }),
        pointer: None,
    };
    let tx = tx_with(&stone, 1);
    let expected = Artifact::Cenotaph(Cenotaph {
        etching: Some(Rune(77)),
        mint: Some(RuneId::new(3, 3)),
    });
    assert_eq!(tx.decipher(), Some(expected));
    assert_eq!(tx.decipher().unwrap().mint(), Some(RuneId::new(3, 3)));
}
