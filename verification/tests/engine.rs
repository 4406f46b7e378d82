use rune_indexer::address_updater::AddressUpdater;
use rune_indexer::artifact::{Transaction, TxOutput};
use rune_indexer::cache::{UpdaterCache, UpdaterCacheSettings};
use rune_indexer::events::{Event, EventType};
use rune_indexer::ids::{
    BlockHash, BlockId, OutPoint, ScriptPubKey, SerializedTxid, SpenderReference,
};
use rune_indexer::model::{BlockHeader, RuneEntry, Terms, TxOutEntry};
use rune_indexer::rollback::{Rollback, RollbackError};
use rune_indexer::rune::Rune;
use rune_indexer::rune_amount::RuneAmount;
use rune_indexer::rune_id::RuneId;
use rune_indexer::rune_parser::{RuneParser, RESERVED};
use rune_indexer::settings::{Chain, Settings};
use rune_indexer::spaced_rune::SpacedRune;
use rune_indexer::store::{Store, StoreError, StoreWithLock};
use rune_indexer::transaction_updater::{Counter, TransactionUpdater, TransactionUpdaterError};
use rune_indexer::updater::{
    commit, detect_reorg, handle_reorg, index_block, index_tx, mempool_changes, remove_txs,
    revert_block, FetchedBlock, IndexedTransaction, ReorgError, Updater, UpdaterError,
};

const HEIGHT: u32 = 300_000;

fn txid(i: u8) -> SerializedTxid {
    SerializedTxid::from([i; 32])
}

fn hash(i: u8) -> BlockHash {
    BlockHash::from_bytes(&[i; 32])
}

fn pay(tag: u8) -> TxOutput {
    let mut s = vec![0x51, 0x20];
    s.extend_from_slice(&[tag; 32]);
    TxOutput { value: 546, script_pubkey: ScriptPubKey::new(s) }
}

fn message(stone: &ordinals::Runestone) -> TxOutput {
    TxOutput { value: 0, script_pubkey: ScriptPubKey::new(stone.encipher().into_bytes()) }
}

fn settings() -> Settings {
    Settings {
        chain: Chain::Regtest,
        no_index_inscriptions: true,
        index_spent_outputs: false,
        index_addresses: false,
        commit_interval: 1,
        main_loop_interval: 500,
        max_recoverable_reorg_depth: 3,
    }
}

fn db_at(height: u64) -> StoreWithLock {
    // The chain below `height` is taken as purged.
    let mut store = Store::new();
    store.set_block_count(height);
    store.set_purged_blocks_count(height.saturating_sub(1));
    StoreWithLock::new(store)
}

fn hello() -> Rune {
    "HELLO".parse().unwrap()
}

fn etch_hello(premine: u128, terms: Option<ordinals::Terms>) -> ordinals::Runestone {
    ordinals::Runestone {
        edicts: vec![],
        etching: Some(ordinals::Etching {
            divisibility: Some(1),
            premine: Some(premine),
            rune: Some(ordinals::Rune(hello().0)),
            spacers: None,
            symbol: Some('H'),
            terms,
            turbo: false,
        }),
        mint: None,
        pointer: None,
    }
}

fn entry(tx: u8, transaction: Transaction) -> IndexedTransaction {
    IndexedTransaction { txid: txid(tx), transaction, commitment: true, icon: None }
}

fn block(n: u8, txdata: Vec<IndexedTransaction>) -> FetchedBlock {
    FetchedBlock {
        header: BlockHeader { hash: hash(n), prev_blockhash: hash(n - 1), time: 1_700_000_000 },
        txdata,
        node_hashes: vec![],
    }
}

fn block_cache(db: &StoreWithLock) -> UpdaterCache {
    UpdaterCache::new(db, UpdaterCacheSettings::new(&settings(), false)).unwrap()
}

/// Indexes one block through a cache and commits it; gives the events.
fn apply(db: &mut StoreWithLock, b: &FetchedBlock) -> Vec<Event> {
    let mut cache = block_cache(db);
    let height = cache.get_block_count();
    let record = index_block(&mut cache, db, Chain::Regtest, b, height as u32).unwrap();
    cache.set_new_block(record);
    cache.flush(db).unwrap();
    cache.send_events()
}

fn amounts(list: &[(RuneId, u128)]) -> Vec<RuneAmount> {
    list.iter().map(|p| RuneAmount::from(*p)).collect()
}

#[test]
fn etch_with_premine_then_transfer() {
    let mut db = db_at(HEIGHT as u64);
    let id = RuneId::new(HEIGHT as u64, 0);
    let t0 = Transaction { inputs: vec![], outputs: vec![pay(1), message(&etch_hello(1000, None))] };
    let events = apply(&mut db, &block(1, vec![entry(1, t0)]));

    let rune = db.read().get_rune(&id).unwrap();
    assert_eq!(rune.premine, 1000);
    assert_eq!(rune.mints, 0);
    assert_eq!(rune.burned, 0);
    assert_eq!(rune.number, 1);
    assert_eq!(rune.block, HEIGHT as u64);
    assert_eq!(rune.etching, txid(1));
    assert_eq!(rune.divisibility, 1);
    assert_eq!(rune.symbol, Some('H'));
    assert_eq!(rune.spaced_rune, SpacedRune::new(hello(), 0));
    assert_eq!(rune.timestamp, 1_700_000_000);
    assert_eq!(db.read().get_rune_id(&hello()).unwrap(), id);
    assert_eq!(db.read().get_runes_count(), 1);

    let out = db.read().get_tx_out(&OutPoint::new(txid(1), 0), None).unwrap();
    assert_eq!(out, TxOutEntry { runes: amounts(&[(id, 1000)]), value: 546, spent: false });
    assert!(db.read().get_tx_out(&OutPoint::new(txid(1), 1), None).is_err());

    assert!(events.contains(&Event::RuneEtched {
        block_height: HEIGHT,
        txid: txid(1),
        rune_id: id,
        in_mempool: false
    }));
    assert!(events.contains(&Event::RuneTransferred {
        block_height: HEIGHT,
        txid: txid(1),
        outpoint: OutPoint::new(txid(1), 0),
        rune_id: id,
        amount: 1000,
        in_mempool: false
    }));
    assert_eq!(events[0].event_type(), EventType::RuneEtched);
    assert_eq!(db.read().get_rune_transactions(&id), vec![txid(1)]);

    // The transfer: 300 go to the second output by an edict, the rest to
    // the first.
    let stone = ordinals::Runestone {
        edicts: vec![ordinals::Edict {
            id: ordinals::RuneId { block: HEIGHT as u64, tx: 0 },
            amount: 300,
            output: 1,
        }],
        ..Default::default()
    };
    let t1 = Transaction {
        inputs: vec![OutPoint::new(txid(1), 0)],
        outputs: vec![pay(2), pay(3), message(&stone)],
    };
    apply(&mut db, &block(2, vec![entry(2, t1)]));
    assert!(db.read().get_tx_out(&OutPoint::new(txid(1), 0), None).unwrap().spent);
    assert_eq!(
        db.read().get_tx_out(&OutPoint::new(txid(2), 0), None).unwrap().runes,
        amounts(&[(id, 700)])
    );
    assert_eq!(
        db.read().get_tx_out(&OutPoint::new(txid(2), 1), None).unwrap().runes,
        amounts(&[(id, 300)])
    );
    assert_eq!(db.read().get_rune_transactions(&id), vec![txid(1), txid(2)]);
    assert_eq!(db.read().get_block_count(), HEIGHT as u64 + 2);
}

fn mintable_entry(cap: u128, amount: u128, mints: u128) -> RuneEntry {
    RuneEntry {
        block: 10,
        burned: 0,
        divisibility: 0,
        etching: txid(9),
        terms: Some(Terms { amount: Some(amount), cap: Some(cap), height: (None, None), offset: (None, None) }),
        mints,
        number: 1,
        premine: 0,
        spaced_rune: SpacedRune::new(hello(), 0),
        symbol: None,
        pending_burns: 0,
        pending_mints: 0,
        inscription_id: None,
        timestamp: 0,
        turbo: false,
    }
}

fn mint_tx(id: RuneId) -> Transaction {
    let stone = ordinals::Runestone {
        mint: Some(ordinals::RuneId { block: id.block, tx: id.tx }),
        ..Default::default()
    };
    Transaction { inputs: vec![], outputs: vec![pay(1), message(&stone)] }
}

#[test]
fn mint_within_cap_then_cap_reached() {
    let mut db = db_at(HEIGHT as u64);
    let id = RuneId::new(10, 1);
    db.write().set_rune(id, mintable_entry(5, 100, 4));

    let events = apply(&mut db, &block(1, vec![entry(1, mint_tx(id))]));
    assert_eq!(db.read().get_rune(&id).unwrap().mints, 5);
    assert_eq!(
        db.read().get_tx_out(&OutPoint::new(txid(1), 0), None).unwrap().runes,
        amounts(&[(id, 100)])
    );
    assert!(events.contains(&Event::RuneMinted {
        block_height: HEIGHT,
        txid: txid(1),
        rune_id: id,
        amount: 100,
        in_mempool: false
    }));

    // The cap is reached: the next mint changes nothing.
    let before = db.read().get_rune(&id).unwrap();
    let events = apply(&mut db, &block(2, vec![entry(2, mint_tx(id))]));
    assert!(events.is_empty());
    assert_eq!(db.read().get_rune(&id).unwrap(), before);
    assert!(db.read().get_tx_out(&OutPoint::new(txid(2), 0), None).is_err());
    assert!(db.read().get_tx_state_changes(&txid(2), Some(false)).is_err());
    assert_eq!(before.mintable(HEIGHT as u64 + 2), Err(rune_indexer::model::MintError::Cap(5)));
}

#[test]
fn two_mints_in_one_block_respect_the_cap() {
    let mut db = db_at(HEIGHT as u64);
    let id = RuneId::new(10, 1);
    db.write().set_rune(id, mintable_entry(5, 100, 4));
    apply(&mut db, &block(1, vec![entry(1, mint_tx(id)), entry(2, mint_tx(id))]));
    assert_eq!(db.read().get_rune(&id).unwrap().mints, 5);
    assert!(db.read().get_tx_out(&OutPoint::new(txid(2), 0), None).is_err());
}

#[test]
fn cenotaph_burns_inputs() {
    let mut db = db_at(HEIGHT as u64);
    let id = RuneId::new(10, 1);
    db.write().set_rune(id, mintable_entry(5, 100, 0));
    db.write().set_tx_out(
        OutPoint::new(txid(7), 0),
        TxOutEntry { runes: amounts(&[(id, 1000)]), value: 546, spent: false },
        false,
    );
    // OP_RETURN OP_13 and an opcode: a malformed message.
    let bad = TxOutput { value: 0, script_pubkey: ScriptPubKey::new(vec![0x6a, 0x5d, 0x51]) };
    let t = Transaction { inputs: vec![OutPoint::new(txid(7), 0)], outputs: vec![pay(1), bad] };
    let events = apply(&mut db, &block(1, vec![entry(1, t)]));

    assert_eq!(db.read().get_rune(&id).unwrap().burned, 1000);
    assert!(db.read().get_tx_out(&OutPoint::new(txid(1), 0), None).is_err());
    assert!(db.read().get_tx_out(&OutPoint::new(txid(1), 1), None).is_err());
    assert!(db.read().get_tx_out(&OutPoint::new(txid(7), 0), None).unwrap().spent);
    let change = db.read().get_tx_state_changes(&txid(1), Some(false)).unwrap();
    assert_eq!(change.burned, amounts(&[(id, 1000)]));
    assert!(change.outputs.iter().all(|o| o.runes.is_empty()));
    assert_eq!(change.inputs[0].runes, amounts(&[(id, 1000)]));
    assert_eq!(
        events,
        vec![Event::RuneBurned {
            block_height: HEIGHT,
            txid: txid(1),
            rune_id: id,
            amount: 1000,
            in_mempool: false
        }]
    );
}

#[test]
fn runes_sent_to_an_unspendable_output_are_burned() {
    let mut db = db_at(HEIGHT as u64);
    let id = RuneId::new(10, 1);
    db.write().set_rune(id, mintable_entry(5, 100, 0));
    db.write().set_tx_out(
        OutPoint::new(txid(7), 0),
        TxOutEntry { runes: amounts(&[(id, 50)]), value: 546, spent: false },
        false,
    );
    let stone = ordinals::Runestone {
        edicts: vec![ordinals::Edict {
            id: ordinals::RuneId { block: 10, tx: 1 },
            amount: 20,
            output: 0,
        }],
        ..Default::default()
    };
    // The message itself is output 0, which is unspendable.
    let t = Transaction { inputs: vec![OutPoint::new(txid(7), 0)], outputs: vec![message(&stone), pay(1)] };
    apply(&mut db, &block(1, vec![entry(1, t)]));
    assert_eq!(db.read().get_rune(&id).unwrap().burned, 20);
    assert_eq!(
        db.read().get_tx_out(&OutPoint::new(txid(1), 1), None).unwrap().runes,
        amounts(&[(id, 30)])
    );
}

#[test]
fn edict_for_all_outputs_divides_the_balance() {
    let mut db = db_at(HEIGHT as u64);
    let id = RuneId::new(10, 1);
    db.write().set_rune(id, mintable_entry(5, 100, 0));
    db.write().set_tx_out(
        OutPoint::new(txid(7), 0),
        TxOutEntry { runes: amounts(&[(id, 10)]), value: 546, spent: false },
        false,
    );
    let stone = ordinals::Runestone {
        edicts: vec![ordinals::Edict {
            id: ordinals::RuneId { block: 10, tx: 1 },
            amount: 0,
            output: 4,
        }],
        ..Default::default()
    };
    let t = Transaction {
        inputs: vec![OutPoint::new(txid(7), 0)],
        outputs: vec![pay(1), pay(2), message(&stone), pay(3)],
    };
    apply(&mut db, &block(1, vec![entry(1, t)]));
    let held = |vout: u32| db.read().get_tx_out(&OutPoint::new(txid(1), vout), None).unwrap().runes;
    assert_eq!(held(0), amounts(&[(id, 4)]));
    assert_eq!(held(1), amounts(&[(id, 3)]));
    assert_eq!(held(3), amounts(&[(id, 3)]));
    assert!(db.read().get_tx_out(&OutPoint::new(txid(1), 2), None).is_err());
    assert_eq!(db.read().get_rune(&id).unwrap().burned, 0);
}

#[test]
fn etching_rules() {
    let db = db_at(HEIGHT as u64);
    let cache = block_cache(&db);
    let parser = RuneParser::new(Chain::Regtest, HEIGHT, false);
    let t = Transaction { inputs: vec![], outputs: vec![pay(1), message(&etch_hello(5, None))] };
    // Without a commitment the name is not etched.
    let change = parser.index_runes(&cache, &db, 3, &t, false).unwrap();
    assert_eq!(change.etched, None);
    assert!(!change.has_rune_updates());
    // With it, the rune gets the place of the transaction as identifier.
    let change = parser.index_runes(&cache, &db, 3, &t, true).unwrap();
    assert_eq!(change.etched, Some((RuneId::new(HEIGHT as u64, 3), hello())));
    assert_eq!(change.outputs[0].runes, amounts(&[(RuneId::new(HEIGHT as u64, 3), 5)]));
    assert_eq!(change.rune_ids(), vec![RuneId::new(HEIGHT as u64, 3)]);
    // At a low height short names are below the minimum.
    let early = RuneParser::new(Chain::Regtest, 5, false);
    assert_eq!(early.index_runes(&cache, &db, 3, &t, true).unwrap().etched, None);
    // An etching without a name gets a reserved name.
    let mut stone = etch_hello(0, None);
    stone.etching.as_mut().unwrap().rune = None;
    let t = Transaction { inputs: vec![], outputs: vec![pay(1), message(&stone)] };
    let change = parser.index_runes(&cache, &db, 2, &t, false).unwrap();
    let expected = RESERVED + ((u128::from(HEIGHT) << 32) | 2);
    assert_eq!(change.etched, Some((RuneId::new(HEIGHT as u64, 2), Rune(expected))));
    assert_eq!(Rune(expected).0, ordinals::Rune::reserved(HEIGHT as u64, 2).0);
}

#[test]
fn parser_gives_the_same_result_twice() {
    let db = db_at(HEIGHT as u64);
    let cache = block_cache(&db);
    let parser = RuneParser::new(Chain::Regtest, HEIGHT, false);
    let t = Transaction { inputs: vec![], outputs: vec![pay(1), message(&etch_hello(1000, None))] };
    let a = parser.index_runes(&cache, &db, 0, &t, true).unwrap();
    let b = parser.index_runes(&cache, &db, 0, &t, true).unwrap();
    assert_eq!(a, b);
}

#[test]
fn block_then_rollback_restores_the_store() {
    let mut db = db_at(HEIGHT as u64);
    let id = RuneId::new(10, 1);
    db.write().set_rune(id, mintable_entry(5, 100, 1));
    db.write().set_tx_out(
        OutPoint::new(txid(7), 0),
        TxOutEntry { runes: amounts(&[(id, 40)]), value: 546, spent: false },
        false,
    );
    db.write().set_runes_count(1);
    let mut stone = etch_hello(1000, None);
    stone.mint = Some(ordinals::RuneId { block: 10, tx: 1 });
    let t = Transaction {
        inputs: vec![OutPoint::new(txid(7), 0)],
        outputs: vec![pay(1), message(&stone)],
    };
    apply(&mut db, &block(1, vec![entry(1, t)]));
    let etched = RuneId::new(HEIGHT as u64, 0);
    assert_eq!(db.read().get_rune(&id).unwrap().mints, 2);
    assert_eq!(db.read().get_rune(&etched).unwrap().number, 2);
    assert_eq!(
        db.read().get_tx_out(&OutPoint::new(txid(1), 0), None).unwrap().runes,
        amounts(&[(id, 140), (etched, 1000)])
    );

    let change = db.read().get_tx_state_changes(&txid(1), Some(false)).unwrap();
    assert_eq!(Rollback::new(false).revert_transaction(db.write(), &txid(1), &change), Ok(()));

    assert_eq!(db.read().get_rune(&id).unwrap(), mintable_entry(5, 100, 1));
    assert_eq!(db.read().get_rune(&etched), Err(StoreError::NotFound));
    assert_eq!(db.read().get_rune_id(&hello()), Err(StoreError::NotFound));
    assert_eq!(db.read().get_runes_count(), 1);
    assert_eq!(
        db.read().get_tx_out(&OutPoint::new(txid(7), 0), None).unwrap(),
        TxOutEntry { runes: amounts(&[(id, 40)]), value: 546, spent: false }
    );
    assert!(db.read().get_tx_out(&OutPoint::new(txid(1), 0), None).is_err());
    assert!(db.read().get_tx_state_changes(&txid(1), Some(false)).is_err());
    assert!(db.read().get_rune_transactions(&id).is_empty());
    assert!(db.read().get_rune_transactions(&etched).is_empty());
}

#[test]
fn mempool_mint_then_mined() {
    let mut db = db_at(HEIGHT as u64);
    let id = RuneId::new(10, 1);
    db.write().set_rune(id, mintable_entry(5, 100, 0));
    let tm = entry(1, mint_tx(id));
    let updater = Updater::new(settings());

    let events = updater.index_new_tx(&mut db, tm, 1_700_000_000).unwrap();
    assert!(events.contains(&Event::RuneMinted {
        block_height: HEIGHT,
        txid: txid(1),
        rune_id: id,
        amount: 100,
        in_mempool: true
    }));
    assert_eq!(db.read().get_rune(&id).unwrap().pending_mints, 1);
    assert_eq!(db.read().get_rune(&id).unwrap().mints, 0);
    assert!(db.read().is_tx_in_mempool(&txid(1)));
    assert_eq!(db.read().get_mempool_txids(), vec![txid(1)]);
    assert!(db.read().get_tx_out(&OutPoint::new(txid(1), 0), Some(true)).is_ok());
    assert!(db.read().get_tx_out(&OutPoint::new(txid(1), 0), Some(false)).is_err());

    // The block with the transaction arrives, then the mempool is updated.
    apply(&mut db, &block(1, vec![entry(1, mint_tx(id))]));
    assert_eq!(db.read().get_rune(&id).unwrap().mints, 1);
    updater.index_mempool(&mut db, &vec![], &vec![txid(1)], 1_700_000_100).unwrap();

    let rune = db.read().get_rune(&id).unwrap();
    assert_eq!(rune.pending_mints, 0);
    assert_eq!(rune.mints, 1);
    assert!(!db.read().is_tx_in_mempool(&txid(1)));
    assert!(db.read().get_tx_out(&OutPoint::new(txid(1), 0), Some(true)).is_err());
    assert_eq!(
        db.read().get_tx_out(&OutPoint::new(txid(1), 0), None).unwrap().runes,
        amounts(&[(id, 100)])
    );
}

#[test]
fn pending_counters_return_to_their_values() {
    let mut db = db_at(HEIGHT as u64);
    let id = RuneId::new(10, 1);
    db.write().set_rune(id, mintable_entry(5, 100, 2));
    db.write().set_tx_out(
        OutPoint::new(txid(7), 0),
        TxOutEntry { runes: amounts(&[(id, 40)]), value: 546, spent: false },
        false,
    );
    let before = db.read().get_rune(&id).unwrap();
    // Mints, and sends everything to the unspendable output 1.
    let stone = ordinals::Runestone {
        mint: Some(ordinals::RuneId { block: 10, tx: 1 }),
        pointer: Some(1),
        ..Default::default()
    };
    let t = Transaction {
        inputs: vec![OutPoint::new(txid(7), 0)],
        outputs: vec![pay(1), message(&stone)],
    };
    let mut cache = UpdaterCache::new(&db, UpdaterCacheSettings::new(&settings(), true)).unwrap();
    index_tx(&mut cache, &db, Chain::Regtest, 7, &entry(1, t)).unwrap();
    cache.flush(&mut db).unwrap();
    let pending = db.read().get_rune(&id).unwrap();
    assert_eq!(pending.pending_mints, 1);
    assert_eq!(pending.pending_burns, 140);
    assert_eq!(pending.mints, 2);
    assert_eq!(pending.burned, 0);
    // The output of the chain is untouched; the mempool holds a spent copy.
    assert!(!db.read().get_tx_out(&OutPoint::new(txid(7), 0), Some(false)).unwrap().spent);
    assert!(db.read().get_tx_out(&OutPoint::new(txid(7), 0), Some(true)).unwrap().spent);

    assert_eq!(remove_txs(&mut db, &vec![txid(1)], true), Ok(()));
    assert_eq!(db.read().get_rune(&id).unwrap(), before);
    assert!(db.read().get_tx_out(&OutPoint::new(txid(7), 0), Some(true)).is_err());
    assert!(!db.read().get_tx_out(&OutPoint::new(txid(7), 0), None).unwrap().spent);
    assert!(db.read().get_mempool_txids().is_empty());
}

#[test]
fn counters_overflow_is_an_error() {
    let db = db_at(HEIGHT as u64);
    let mut db = db;
    let id = RuneId::new(10, 1);
    let mut e = mintable_entry(5, 100, 0);
    e.burned = u128::MAX - 5;
    db.write().set_rune(id, e);
    let mut cache = block_cache(&db);
    let change = rune_indexer::model::TransactionStateChange {
        inputs: vec![],
        outputs: vec![],
        etched: None,
        minted: None,
        burned: amounts(&[(id, 6)]),
    };
    let t = Transaction { inputs: vec![], outputs: vec![] };
    let updater = TransactionUpdater::new(false);
    assert_eq!(
        updater.save(&mut cache, &db, 0, HEIGHT, txid(1), &t, &change, None),
        Err(TransactionUpdaterError::Overflow(Counter::Burn))
    );
    assert_eq!(
        TransactionUpdaterError::Overflow(Counter::Burn).to_string(),
        "overflow in burn"
    );
    // A state change for an unknown rune is refused.
    let change = rune_indexer::model::TransactionStateChange {
        inputs: vec![],
        outputs: vec![],
        etched: None,
        minted: Some(RuneAmount::from((RuneId::new(1, 1), 5))),
        burned: vec![],
    };
    assert_eq!(
        updater.save(&mut cache, &db, 0, HEIGHT, txid(1), &t, &change, None),
        Err(TransactionUpdaterError::Store(StoreError::NotFound))
    );
    // An etching needs a message.
    let change = rune_indexer::model::TransactionStateChange {
        inputs: vec![],
        outputs: vec![],
        etched: Some((RuneId::new(HEIGHT as u64, 0), hello())),
        minted: None,
        burned: vec![],
    };
    assert_eq!(
        updater.save(&mut cache, &db, 0, HEIGHT, txid(1), &t, &change, None),
        Err(TransactionUpdaterError::NoArtifactFound(txid(1)))
    );
}

fn chain_of(db: &mut StoreWithLock, first: u8, blocks: u8) {
    for n in 0..blocks {
        apply(db, &block(first + n, vec![]));
    }
}

#[test]
fn reorg_detection_depths() {
    let mut db = db_at(100);
    // Blocks 100..=104 with hashes 1..=5.
    chain_of(&mut db, 1, 5);
    let height = 105;
    // The block names the stored parent: all is well.
    assert_eq!(detect_reorg(&db, &hash(5), &vec![], height, 3), Ok(()));
    // The node has other blocks at 104 and 103, and agrees at 102.
    let node = vec![hash(55), hash(44), hash(3), hash(2)];
    assert_eq!(
        detect_reorg(&db, &hash(55), &node, height, 3),
        Err(ReorgError::Recoverable { height, depth: 3 })
    );
    // With a recoverable depth of 2 the same is out of reach.
    assert_eq!(detect_reorg(&db, &hash(55), &node, height, 2), Err(ReorgError::Unrecoverable));
    // Agreement one deeper than the recoverable depth is not found.
    let deeper = vec![hash(55), hash(44), hash(33), hash(2)];
    assert_eq!(detect_reorg(&db, &hash(55), &deeper, height, 3), Err(ReorgError::Unrecoverable));
    assert_eq!(
        detect_reorg(&db, &hash(55), &deeper, height, 4),
        Err(ReorgError::Recoverable { height, depth: 4 })
    );
    // The node must have told the hashes that are compared.
    assert_eq!(detect_reorg(&db, &hash(55), &vec![hash(55)], height, 3), Err(ReorgError::RPCError));
    // Nothing lies below the first block; an unknown parent is no reorg.
    assert_eq!(detect_reorg(&db, &hash(55), &node, 0, 3), Err(ReorgError::Unrecoverable));
    assert_eq!(detect_reorg(&db, &hash(55), &node, 300, 3), Ok(()));
    assert_eq!(
        ReorgError::Recoverable { height: 105, depth: 3 }.to_string(),
        "3 block deep reorg detected at height 105"
    );
    assert_eq!(ReorgError::Unrecoverable.to_string(), "unrecoverable reorg detected");
    assert!(UpdaterError::BitcoinReorg(ReorgError::Unrecoverable).is_halted());
    assert!(!UpdaterError::BitcoinReorg(ReorgError::Recoverable { height: 1, depth: 1 }).is_halted());
}

#[test]
fn reorg_of_depth_two_takes_the_mint_back() {
    let mut db = db_at(98);
    let id = RuneId::new(10, 1);
    db.write().set_rune(id, mintable_entry(5, 100, 0));
    // Heights 98, 99 and 100; the mint is in the block at 100.
    apply(&mut db, &block(1, vec![]));
    apply(&mut db, &block(2, vec![]));
    apply(&mut db, &block(3, vec![entry(1, mint_tx(id))]));
    assert_eq!(db.read().get_rune(&id).unwrap().mints, 1);
    assert_eq!(db.read().get_block_count(), 101);

    // The node replaced the blocks at 99 and 100 and agrees at 98.
    let node = vec![hash(33), hash(22), hash(1)];
    let found = detect_reorg(&db, &hash(33), &node, 101, 3);
    assert_eq!(found, Err(ReorgError::Recoverable { height: 101, depth: 3 }));
    handle_reorg(&mut db, 101, 3).unwrap();

    assert_eq!(db.read().get_rune(&id).unwrap().mints, 0);
    assert!(db.read().get_tx_out(&OutPoint::new(txid(1), 0), None).is_err());
    assert_eq!(db.read().get_block_count(), 98);
    assert!(db.read().get_block_hash(100).is_err());
    assert!(db.read().get_block_hash(99).is_err());
    assert!(db.read().get_block_by_hash(&hash(3)).is_err());

    // The canonical blocks are indexed in their place.
    let mut updater = Updater::new(settings());
    let canonical = vec![
        FetchedBlock {
            header: BlockHeader { hash: hash(1), prev_blockhash: hash(0), time: 5 },
            txdata: vec![],
            node_hashes: vec![],
        },
        FetchedBlock {
            header: BlockHeader { hash: hash(22), prev_blockhash: hash(1), time: 6 },
            txdata: vec![],
            node_hashes: vec![],
        },
        FetchedBlock {
            header: BlockHeader { hash: hash(33), prev_blockhash: hash(22), time: 7 },
            txdata: vec![],
            node_hashes: vec![],
        },
    ];
    updater.update_to_tip(&mut db, &canonical, false).unwrap();
    assert!(updater.is_at_tip());
    assert_eq!(db.read().get_block_count(), 101);
    assert_eq!(db.read().get_block_hash(99), Ok(hash(22)));
    assert_eq!(db.read().get_block_hash(100), Ok(hash(33)));
    assert_eq!(db.read().get_rune(&id).unwrap().mints, 0);
}

#[test]
fn update_to_tip_halts_on_a_deep_reorg() {
    let mut db = db_at(100);
    chain_of(&mut db, 1, 5);
    let mut updater = Updater::new(settings());
    updater.update_to_tip(&mut db, &vec![], false).unwrap();
    assert!(updater.is_at_tip());
    let next = FetchedBlock {
        header: BlockHeader { hash: hash(66), prev_blockhash: hash(55), time: 9 },
        txdata: vec![],
        node_hashes: vec![hash(55), hash(44), hash(33), hash(22)],
    };
    let err = updater.update_to_tip(&mut db, &vec![next], false).unwrap_err();
    assert_eq!(err, UpdaterError::BitcoinReorg(ReorgError::Unrecoverable));
    assert!(err.is_halted());
    assert!(!updater.is_at_tip());
    assert_eq!(db.read().get_block_count(), 105);
}

#[test]
fn commit_interval_decides_when_blocks_reach_the_store() {
    // With an interval of one every block is committed at once.
    let mut db = db_at(100);
    let updater = Updater::new(settings());
    let mut cache = block_cache(&db);
    let mut addresses = AddressUpdater::new();
    updater.apply_block(&mut cache, &mut addresses, &mut db, &block(1, vec![]), false).unwrap();
    assert_eq!(db.read().get_block_count(), 101);
    updater.apply_block(&mut cache, &mut addresses, &mut db, &block(2, vec![]), false).unwrap();
    assert_eq!(db.read().get_block_count(), 102);

    // With a large interval the store stays at the last committed height
    // until the window is committed.
    let mut wide = settings();
    wide.commit_interval = 10_000;
    let updater = Updater::new(wide);
    let mut db = db_at(100);
    let mut cache = block_cache(&db);
    updater.apply_block(&mut cache, &mut addresses, &mut db, &block(1, vec![]), false).unwrap();
    updater.apply_block(&mut cache, &mut addresses, &mut db, &block(2, vec![]), false).unwrap();
    assert_eq!(db.read().get_block_count(), 100);
    assert_eq!(cache.get_block_count(), 102);
    assert_eq!(cache.get_block_height_tip(), 101);
    assert!(db.read().get_block_hash(100).is_err());
    assert!(!cache.should_flush(10_000));
    assert!(cache.should_flush(2));
    cache.flush(&mut db).unwrap();
    assert_eq!(db.read().get_block_count(), 102);
    assert_eq!(db.read().get_block_hash(101), Ok(hash(2)));
}

#[test]
fn flush_twice_changes_nothing() {
    let mut db = db_at(HEIGHT as u64);
    let id = RuneId::new(10, 1);
    db.write().set_rune(id, mintable_entry(5, 100, 0));
    let mut cache = block_cache(&db);
    let b = block(1, vec![entry(1, mint_tx(id))]);
    let record = index_block(&mut cache, &db, Chain::Regtest, &b, HEIGHT).unwrap();
    cache.set_new_block(record);
    cache.flush(&mut db).unwrap();
    let rune = db.read().get_rune(&id).unwrap();
    let count = db.read().get_block_count();
    let out = db.read().get_tx_out(&OutPoint::new(txid(1), 0), None).unwrap();
    cache.flush(&mut db).unwrap();
    assert_eq!(db.read().get_rune(&id).unwrap(), rune);
    assert_eq!(db.read().get_block_count(), count);
    assert_eq!(db.read().get_tx_out(&OutPoint::new(txid(1), 0), None).unwrap(), out);
    assert_eq!(db.read().get_rune_transactions(&id), vec![txid(1)]);
}

#[test]
fn purge_deletes_what_sank_below_the_recoverable_depth() {
    let mut db = db_at(HEIGHT as u64);
    let id = RuneId::new(10, 1);
    db.write().set_rune(id, mintable_entry(50, 100, 0));
    db.write().set_tx_out(
        OutPoint::new(txid(7), 0),
        TxOutEntry { runes: amounts(&[(id, 40)]), value: 546, spent: false },
        false,
    );
    // The first block spends the output; the recoverable depth is 3.
    let t = Transaction { inputs: vec![OutPoint::new(txid(7), 0)], outputs: vec![pay(1)] };
    apply(&mut db, &block(1, vec![entry(1, t)]));
    assert!(db.read().get_tx_state_changes(&txid(1), Some(false)).is_ok());
    for n in 2..=4 {
        apply(&mut db, &block(n, vec![]));
        assert!(db.read().get_tx_state_changes(&txid(1), Some(false)).is_ok());
        assert_eq!(db.read().get_purged_blocks_count(), HEIGHT as u64 - 1);
    }
    // Heights so far: HEIGHT .. HEIGHT + 3. The next block purges HEIGHT.
    apply(&mut db, &block(5, vec![]));
    assert_eq!(db.read().get_purged_blocks_count(), HEIGHT as u64);
    assert!(db.read().get_tx_state_changes(&txid(1), Some(false)).is_err());
    assert!(db.read().get_tx_out(&OutPoint::new(txid(7), 0), None).is_err());
    // The output that the transaction produced is kept.
    assert!(db.read().get_tx_out(&OutPoint::new(txid(1), 0), None).is_ok());
    assert!(db.read().get_block_hash(HEIGHT as u64).is_ok());
}

fn script(tag: u8) -> ScriptPubKey {
    pay(tag).script_pubkey
}

fn with_addresses() -> Settings {
    let mut s = settings();
    s.index_addresses = true;
    s.commit_interval = 10;
    s
}

#[test]
fn output_created_and_spent_in_one_window_leaves_no_trace() {
    let mut db = db_at(HEIGHT as u64);
    let mut updater = Updater::new(with_addresses());
    // Tc creates an output for the script A; Td, one block later, spends it.
    let tc = Transaction { inputs: vec![], outputs: vec![pay(0xA), pay(0xB)] };
    let td = Transaction { inputs: vec![OutPoint::new(txid(1), 0)], outputs: vec![pay(0xC)] };
    let blocks = vec![block(1, vec![entry(1, tc)]), block(2, vec![entry(2, td)])];
    let events = updater.update_to_tip(&mut db, &blocks, false).unwrap();

    let a = db.read().get_script_pubkey_outpoints(&script(0xA), false);
    assert!(a.is_empty());
    assert!(db.read().get_outpoint_script_pubkey(&OutPoint::new(txid(1), 0), false).is_err());
    // The other outputs are indexed both ways.
    assert_eq!(
        db.read().get_script_pubkey_outpoints(&script(0xB), false),
        vec![OutPoint::new(txid(1), 1)]
    );
    assert_eq!(
        db.read().get_script_pubkey_outpoints(&script(0xC), false),
        vec![OutPoint::new(txid(2), 0)]
    );
    assert_eq!(
        db.read().get_outpoint_script_pubkey(&OutPoint::new(txid(1), 1), false).unwrap(),
        script(0xB)
    );
    // Each script that changed is told of, at the last height.
    let addresses: Vec<&Event> =
        events.iter().filter(|e| e.event_type() == EventType::AddressModified).collect();
    assert_eq!(addresses.len(), 3);
    let bitcoin_script = bitcoin::ScriptBuf::from_bytes(script(0xA).bytes);
    let expected = bitcoin::Address::from_script(&bitcoin_script, bitcoin::Network::Regtest)
        .unwrap()
        .to_string();
    assert_eq!(
        addresses[0],
        &Event::AddressModified {
            address: expected,
            location: rune_indexer::model::Location::block(HEIGHT as u64 + 1),
        }
    );
}

#[test]
fn spending_an_indexed_output_removes_it_from_its_script() {
    let mut db = db_at(HEIGHT as u64);
    let mut updater = Updater::new(with_addresses());
    let tc = Transaction { inputs: vec![], outputs: vec![pay(0xA)] };
    updater.update_to_tip(&mut db, &vec![block(1, vec![entry(1, tc)])], false).unwrap();
    assert_eq!(
        db.read().get_script_pubkey_outpoints(&script(0xA), false),
        vec![OutPoint::new(txid(1), 0)]
    );
    let td = Transaction { inputs: vec![OutPoint::new(txid(1), 0)], outputs: vec![pay(0xA)] };
    updater.update_to_tip(&mut db, &vec![block(2, vec![entry(2, td)])], false).unwrap();
    assert_eq!(
        db.read().get_script_pubkey_outpoints(&script(0xA), false),
        vec![OutPoint::new(txid(2), 0)]
    );
    // Spending an output of which the store knows no script is an error.
    let te = Transaction { inputs: vec![OutPoint::new(txid(9), 0)], outputs: vec![] };
    let err = updater.update_to_tip(&mut db, &vec![block(3, vec![entry(3, te)])], false);
    assert_eq!(err, Err(UpdaterError::DB(StoreError::NotFound)));
    assert_eq!(db.read().get_block_count(), HEIGHT as u64 + 2);
}

#[test]
fn address_updater_for_the_mempool_keeps_the_chain_entries() {
    let mut db = db_at(HEIGHT as u64);
    let updater = Updater::new(with_addresses());
    let mut chain = Updater::new(with_addresses());
    let tc = Transaction { inputs: vec![], outputs: vec![pay(0xA)] };
    chain.update_to_tip(&mut db, &vec![block(1, vec![entry(1, tc)])], false).unwrap();
    // A transaction of the mempool spends the output and creates another.
    let tm = Transaction { inputs: vec![OutPoint::new(txid(1), 0)], outputs: vec![pay(0xD)] };
    updater.index_mempool(&mut db, &vec![entry(5, tm)], &vec![], 7).unwrap();
    assert_eq!(
        db.read().get_script_pubkey_outpoints(&script(0xA), false),
        vec![OutPoint::new(txid(1), 0)]
    );
    assert_eq!(
        db.read().get_script_pubkey_outpoints(&script(0xD), true),
        vec![OutPoint::new(txid(5), 0)]
    );
    assert!(db.read().get_script_pubkey_outpoints(&script(0xD), false).is_empty());
    assert!(db.read().is_tx_in_mempool(&txid(5)));
}

#[test]
fn address_updater_notes_and_forgets() {
    let db = db_at(HEIGHT as u64);
    let mut cache = block_cache(&db);
    let mut addresses = AddressUpdater::new();
    addresses.add_new_outpoint(OutPoint::new(txid(1), 0), script(0xA));
    // An unspendable output is not noted.
    addresses.add_new_outpoint(OutPoint::new(txid(1), 1), ScriptPubKey::new(vec![0x6a, 1, 2]));
    addresses.add_spent_outpoint(
        OutPoint::new(txid(8), 0),
        SpenderReference { txid: txid(1), vin: 0 },
    );
    // The store knows no script for the spent output: nothing is staged.
    assert_eq!(
        addresses.batch_update_script_pubkey(&mut cache, &db),
        Err(StoreError::NotFound)
    );
    let mut fresh = AddressUpdater::new();
    fresh.add_new_outpoint(OutPoint::new(txid(1), 0), script(0xA));
    assert_eq!(fresh.batch_update_script_pubkey(&mut cache, &db), Ok(()));
    let mut db = db;
    let events =
        commit(&with_addresses(), &mut cache, &mut AddressUpdater::new(), &mut db).unwrap();
    assert!(events.is_empty());
}

#[test]
fn mempool_changes_are_the_two_differences() {
    let mut db = db_at(HEIGHT as u64);
    let updater = Updater::new(settings());
    let plain = || Transaction { inputs: vec![], outputs: vec![pay(1)] };
    updater
        .index_mempool(&mut db, &vec![entry(1, plain()), entry(2, plain())], &vec![], 7)
        .unwrap();
    let (new, removed) = mempool_changes(&db, &vec![txid(2), txid(3), txid(4)]);
    assert_eq!(new, vec![txid(3), txid(4)]);
    assert_eq!(removed, vec![txid(1)]);
    let (new, removed) = mempool_changes(&db, &vec![]);
    assert!(new.is_empty());
    assert_eq!(removed, vec![txid(1), txid(2)]);
}

#[test]
fn update_with_shutdown_takes_no_block() {
    let mut db = db_at(100);
    let mut updater = Updater::new(settings());
    let events = updater.update_to_tip(&mut db, &vec![block(1, vec![])], true).unwrap();
    assert!(events.is_empty());
    assert!(!updater.is_at_tip());
    assert_eq!(db.read().get_block_count(), 100);
}

#[test]
fn supply_is_what_was_minted() {
    let mut db = db_at(HEIGHT as u64);
    let id = RuneId::new(10, 1);
    db.write().set_rune(id, mintable_entry(5, 100, 0));
    // Two mints, then a transfer that burns a part of one of them.
    apply(&mut db, &block(1, vec![entry(1, mint_tx(id)), entry(2, mint_tx(id))]));
    let stone = ordinals::Runestone {
        edicts: vec![ordinals::Edict {
            id: ordinals::RuneId { block: 10, tx: 1 },
            amount: 30,
            output: 0,
        }],
        ..Default::default()
    };
    let t = Transaction {
        inputs: vec![OutPoint::new(txid(1), 0)],
        outputs: vec![message(&stone), pay(3)],
    };
    apply(&mut db, &block(2, vec![entry(3, t)]));

    let rune = db.read().get_rune(&id).unwrap();
    let held = |outpoint: OutPoint| -> u128 {
        match db.read().get_tx_out(&outpoint, Some(false)) {
            Ok(e) if !e.spent => e.runes.iter().filter(|a| a.rune_id == id).map(|a| a.amount).sum(),
            _ => 0,
        }
    };
    let circulating = held(OutPoint::new(txid(1), 0))
        + held(OutPoint::new(txid(2), 0))
        + held(OutPoint::new(txid(3), 1));
    assert_eq!(rune.mints, 2);
    assert_eq!(rune.burned, 30);
    assert_eq!(circulating, 170);
    assert_eq!(circulating + rune.burned, rune.premine + rune.mints * 100);
}

#[test]
fn precache_stages_what_the_store_holds() {
    let mut db = db_at(HEIGHT as u64);
    let id = RuneId::new(10, 1);
    let known = OutPoint::new(txid(7), 0);
    let unknown = OutPoint::new(txid(8), 0);
    db.write().set_tx_out(
        known,
        TxOutEntry { runes: amounts(&[(id, 50)]), value: 546, spent: false },
        false,
    );
    let mut cache = block_cache(&db);
    let t = Transaction { inputs: vec![known, unknown, known], outputs: vec![pay(1)] };
    assert_eq!(cache.precache_tx_outs(&db, &vec![t]), Ok(()));
    assert_eq!(cache.get_tx_out(&db, &known).unwrap().runes, amounts(&[(id, 50)]));
    assert!(cache.get_tx_out(&db, &unknown).is_err());
    // The copy in the window is read from now on.
    db.write().delete_tx_out(&known, false);
    assert_eq!(cache.get_tx_out(&db, &known).unwrap().runes, amounts(&[(id, 50)]));
    assert!(block_cache(&db).get_tx_out(&db, &known).is_err());
}

#[test]
fn handle_reorg_takes_back_every_rolled_back_block() {
    let mut db = db_at(98);
    let id = RuneId::new(10, 1);
    db.write().set_rune(id, mintable_entry(5, 100, 0));
    // Heights 98, 99 and 100; a mint in each of the blocks at 99 and 100.
    apply(&mut db, &block(1, vec![]));
    apply(&mut db, &block(2, vec![entry(1, mint_tx(id))]));
    apply(&mut db, &block(3, vec![entry(2, mint_tx(id))]));
    assert_eq!(db.read().get_rune(&id).unwrap().mints, 2);
    assert_eq!(db.read().get_block_count(), 101);

    handle_reorg(&mut db, 101, 2).unwrap();

    assert_eq!(db.read().get_block_count(), 99);
    assert!(db.read().get_block_hash(100).is_err());
    assert!(db.read().get_block_hash(99).is_err());
    assert!(db.read().get_block_by_hash(&hash(3)).is_err());
    assert!(db.read().get_block_by_hash(&hash(2)).is_err());
    assert_eq!(db.read().get_block_hash(98), Ok(hash(1)));
    assert!(db.read().get_block_by_hash(&hash(1)).is_ok());
    assert_eq!(db.read().get_rune(&id).unwrap().mints, 0);
    assert!(db.read().get_tx_out(&OutPoint::new(txid(1), 0), None).is_err());
    assert!(db.read().get_tx_out(&OutPoint::new(txid(2), 0), None).is_err());
    assert!(db.read().get_tx_state_changes(&txid(1), Some(false)).is_err());
    assert!(db.read().get_tx_state_changes(&txid(2), Some(false)).is_err());

    // A depth of zero takes nothing back.
    handle_reorg(&mut db, 99, 0).unwrap();
    assert_eq!(db.read().get_block_count(), 99);
    assert_eq!(db.read().get_block_hash(98), Ok(hash(1)));
}

#[test]
fn rollback_reports_a_counter_that_would_fall_below_zero() {
    let mut db = db_at(HEIGHT as u64);
    let id = RuneId::new(10, 1);
    db.write().set_rune(id, mintable_entry(5, 100, 0));
    apply(&mut db, &block(1, vec![entry(1, mint_tx(id))]));
    assert_eq!(db.read().get_rune(&id).unwrap().mints, 1);
    let change = db.read().get_tx_state_changes(&txid(1), Some(false)).unwrap();
    let record = db.read().get_block_by_hash(&hash(1)).unwrap();

    // The counter was set back behind the back of the index.
    db.write().set_rune(id, mintable_entry(5, 100, 0));
    assert_eq!(
        Rollback::new(false).revert_transaction(db.write(), &txid(1), &change),
        Err(RollbackError::Overflow)
    );
    // Everything else was taken back, and the counter stays at zero.
    assert_eq!(db.read().get_rune(&id).unwrap().mints, 0);
    assert!(db.read().get_tx_out(&OutPoint::new(txid(1), 0), None).is_err());
    assert!(db.read().get_tx_state_changes(&txid(1), Some(false)).is_err());

    // The same through a block.
    let mut db = db_at(HEIGHT as u64);
    db.write().set_rune(id, mintable_entry(5, 100, 0));
    apply(&mut db, &block(1, vec![entry(1, mint_tx(id))]));
    db.write().set_rune(id, mintable_entry(5, 100, 0));
    assert_eq!(
        revert_block(db.write(), HEIGHT as u64, &record),
        Err(UpdaterError::Rollback(RollbackError::Overflow))
    );
    assert!(db.read().get_block_hash(HEIGHT as u64).is_err());
    assert!(db.read().get_block_by_hash(&hash(1)).is_err());

    // And through a reorganisation, which stops there.
    let mut db = db_at(HEIGHT as u64);
    db.write().set_rune(id, mintable_entry(5, 100, 0));
    apply(&mut db, &block(1, vec![]));
    apply(&mut db, &block(2, vec![entry(1, mint_tx(id))]));
    db.write().set_rune(id, mintable_entry(5, 100, 0));
    assert_eq!(
        handle_reorg(&mut db, HEIGHT as u64 + 2, 2),
        Err(UpdaterError::Rollback(RollbackError::Overflow))
    );
    assert!(db.read().get_block_hash(HEIGHT as u64 + 1).is_err());
    assert_eq!(db.read().get_block_hash(HEIGHT as u64), Ok(hash(1)));
    assert!(!UpdaterError::Rollback(RollbackError::Overflow).is_halted());
}

#[test]
fn removing_from_the_mempool_reports_a_counter_that_would_fall_below_zero() {
    let mut db = db_at(HEIGHT as u64);
    let id = RuneId::new(10, 1);
    db.write().set_rune(id, mintable_entry(5, 100, 0));
    let mut cache = UpdaterCache::new(&db, UpdaterCacheSettings::new(&settings(), true)).unwrap();
    index_tx(&mut cache, &db, Chain::Regtest, 7, &entry(1, mint_tx(id))).unwrap();
    cache.flush(&mut db).unwrap();
    assert_eq!(db.read().get_rune(&id).unwrap().pending_mints, 1);
    db.write().set_rune(id, mintable_entry(5, 100, 0));
    assert_eq!(
        remove_txs(&mut db, &vec![txid(9), txid(1)], true),
        Err(UpdaterError::Rollback(RollbackError::Overflow))
    );
    assert_eq!(db.read().get_rune(&id).unwrap().pending_mints, 0);
    assert!(db.read().get_mempool_txids().is_empty());
    // A transaction without a stored state change is passed over.
    assert_eq!(remove_txs(&mut db, &vec![txid(9)], true), Ok(()));
}

#[test]
fn confirming_block_is_read_through_the_window() {
    let mut db = db_at(HEIGHT as u64);
    let at = BlockId { hash: hash(1), height: HEIGHT as u64 };
    let mut cache = block_cache(&db);
    assert_eq!(cache.get_transaction_confirming_block(&db, txid(1)), Err(StoreError::NotFound));
    cache.set_transaction_confirming_block(txid(1), at);
    assert_eq!(cache.get_transaction_confirming_block(&db, txid(1)), Ok(at));
    assert_eq!(db.read().get_transaction_confirming_block(&txid(1)), Err(StoreError::NotFound));
    cache.flush(&mut db).unwrap();
    assert_eq!(db.read().get_transaction_confirming_block(&txid(1)), Ok(at));
    assert_eq!(block_cache(&db).get_transaction_confirming_block(&db, txid(1)), Ok(at));
    assert_eq!(
        block_cache(&db).get_transaction_confirming_block(&db, txid(2)),
        Err(StoreError::NotFound)
    );
    // A later entry replaces the stored one.
    let later = BlockId { hash: hash(2), height: HEIGHT as u64 + 1 };
    let mut cache = block_cache(&db);
    cache.set_transaction_confirming_block(txid(1), later);
    cache.flush(&mut db).unwrap();
    assert_eq!(db.read().get_transaction_confirming_block(&txid(1)), Ok(later));
}
