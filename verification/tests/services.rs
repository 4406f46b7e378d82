use rune_indexer::api::{
    add_subscription, block, delete_subscription, get_subscription, last_rune_transactions,
    address, mempool_txids, output, rune, runes, status, subscriptions, tip, transaction,
    AddressOutput, BlockQuery, BlockTip, Pagination, RuneQuery, RunicOutput, Subscription,
    WebhookSubscriptionManager,
};
use rune_indexer::model::RuneEntry;
use rune_indexer::spaced_rune::SpacedRune;
use rune_indexer::store::SpkDelta;
use rune_indexer::artifact::{Transaction, TxOutput};
use rune_indexer::ids::ScriptPubKey;
use rune_indexer::model::TxOutEntry;
use rune_indexer::rune_amount::RuneAmount;
use rune_indexer::events::{Event, EventType};
use rune_indexer::ids::{BlockHash, OutPoint, SerializedTxid};
use rune_indexer::memory::{
    extract_kb, read_cgroup_v2_memory, read_memory_snapshot, read_proc_meminfo,
    read_process_rss_bytes, MemorySnapshot,
};
use rune_indexer::model::{Block, BlockHeader};
use rune_indexer::options::{Options, RpcAuth};
use rune_indexer::rpc::{
    chain_of_node_name, classify_failure, into_option, validate_rpc_connection, NodeReply,
    RpcClientError, ValidationStep,
};
use rune_indexer::rune::Rune;
use rune_indexer::rune_id::RuneId;
use rune_indexer::settings::Chain;
use rune_indexer::store::{BatchUpdate, Store, StoreError, StoreWithLock};
use rune_indexer::subscription::{
    connection_step, ConnectionAction, ConnectionEvent, Handshake, HandshakeAction,
    HandshakeError, SendOutcome, TcpSubscription, TcpSubscriptionManager, TcpSubscriptionRequest,
    MAX_LINE,
};

/// The names that a request holds: the strings in the array `subscribe`
/// of a JSON object.
fn names_in(text: &str) -> Option<Vec<String>> {
    let value: serde_json::Value = serde_json::from_str(text).ok()?;
    value.get("subscribe")?.as_array()?.iter().map(|v| v.as_str().map(String::from)).collect()
}

/// Feeds the lines to a handshake; gives the number of answers and the end.
fn run_handshake(lines: &[&str]) -> (usize, Result<TcpSubscriptionRequest, HandshakeError>) {
    let mut handshake = Handshake::new();
    let mut pongs = 0;
    for line in lines {
        let names = Handshake::request_text(line).and_then(|text| names_in(&text));
        match handshake.on_line_with(line, names) {
            HandshakeAction::Continue => {}
            HandshakeAction::Pong => pongs += 1,
            HandshakeAction::PongThenFail(e) => return (pongs + 1, Err(e)),
            HandshakeAction::Accept(request) => return (pongs, Ok(request)),
            HandshakeAction::Fail(e) => return (pongs, Err(e)),
        }
    }
    (pongs, Err(Handshake::on_end(true)))
}

#[test]
fn handshake_success_with_ping_and_json() {
    let (pongs, end) =
        run_handshake(&["", "PING", "{\"subscribe\":[\"RuneEtched\",\"NewBlock\"]}"]);
    assert_eq!(pongs, 1);
    let request = end.unwrap();
    assert_eq!(request.subscribe, vec![EventType::RuneEtched, EventType::NewBlock]);
}

#[test]
fn handshake_errors_on_too_many_empty_lines() {
    let lines = [""; 20];
    let (pongs, end) = run_handshake(&lines);
    assert_eq!(pongs, 0);
    assert_eq!(end, Err(HandshakeError::TooManyPreambleLines));
}

#[test]
fn handshake_errors_on_invalid_json() {
    assert_eq!(run_handshake(&["{invalid}"]), (0, Err(HandshakeError::InvalidJson)));
}

#[test]
fn handshake_invalid_event_type_errors() {
    assert_eq!(
        run_handshake(&["{\"subscribe\":[\"NotAnEvent\"]}"]),
        (0, Err(HandshakeError::InvalidJson))
    );
}

#[test]
fn handshake_many_pings_then_json_under_cap() {
    let mut lines = vec!["PING"; 9];
    lines.push("{\"subscribe\":[\"Reorg\"]}");
    let (pongs, end) = run_handshake(&lines);
    assert_eq!(pongs, 9);
    assert_eq!(end.unwrap().subscribe, vec![EventType::Reorg]);
}

#[test]
fn handshake_rejects_requests_of_another_shape() {
    assert_eq!(run_handshake(&["{\"subscribe\":[1]}"]).1, Err(HandshakeError::InvalidJson));
    assert_eq!(run_handshake(&["{\"other\":[]}"]).1, Err(HandshakeError::InvalidJson));
    assert_eq!(
        run_handshake(&["{\"subscribe\":[], \"more\": 1}"]).1,
        Ok(TcpSubscriptionRequest { subscribe: vec![] })
    );
}

#[test]
fn handshake_errors_on_oversized_line() {
    let long = "a".repeat(MAX_LINE + 1);
    assert_eq!(run_handshake(&[&long]).1, Err(HandshakeError::LineTooLong));
    let fits = "a".repeat(MAX_LINE);
    assert_eq!(
        run_handshake(&[&fits, "{\"subscribe\":[\"Reorg\"]}"]).1,
        Ok(TcpSubscriptionRequest { subscribe: vec![EventType::Reorg] })
    );
}

#[test]
fn handshake_ignores_noise_then_accepts_json() {
    let (pongs, end) = run_handshake(&[
        "GET / HTTP/1.1",
        "ping",
        "   ",
        "{\"subscribe\":[\"NewBlock\"]}",
    ]);
    assert_eq!(pongs, 0);
    assert_eq!(end.unwrap().subscribe, vec![EventType::NewBlock]);
}

#[test]
fn handshake_accepts_ten_preamble_pings() {
    let mut lines = vec!["PING"; 10];
    lines.push("{\"subscribe\":[\"Reorg\"]}");
    let (pongs, end) = run_handshake(&lines);
    assert_eq!(pongs, 10);
    assert_eq!(end.unwrap().subscribe, vec![EventType::Reorg]);
}

#[test]
fn handshake_rejects_the_eleventh_preamble_line() {
    let mut handshake = Handshake::new();
    for _ in 0..10 {
        assert!(handshake.is_live());
        assert_eq!(handshake.on_line_with("", None), HandshakeAction::Continue);
    }
    assert!(handshake.is_live());
    assert_eq!(
        handshake.on_line_with("", None),
        HandshakeAction::Fail(HandshakeError::TooManyPreambleLines)
    );
    assert!(!handshake.is_live());
    let lines = vec!["PING"; 11];
    let (pongs, end) = run_handshake(&lines);
    // Every PING is answered, the last one too.
    assert_eq!(pongs, 11);
    assert_eq!(end, Err(HandshakeError::TooManyPreambleLines));
    let mut mixed = vec![""; 10];
    mixed.push("noise");
    mixed.push("{\"subscribe\":[\"Reorg\"]}");
    assert_eq!(run_handshake(&mixed), (0, Err(HandshakeError::TooManyPreambleLines)));
}

#[test]
fn handshake_trims_whitespace_and_crlf() {
    let (pongs, end) =
        run_handshake(&["  PING  \r", "  {\"subscribe\":[\"RuneMinted\"]}  \r"]);
    assert_eq!(pongs, 1);
    assert_eq!(end.unwrap().subscribe, vec![EventType::RuneMinted]);
}

#[test]
fn handshake_connection_closed_before_request() {
    assert_eq!(run_handshake(&[]).1, Err(HandshakeError::ConnectionClosed));
    assert_eq!(Handshake::on_end(false), HandshakeError::Read);
    assert_eq!(
        HandshakeError::ConnectionClosed.to_string(),
        "Connection closed before sending subscription request"
    );
}

#[test]
fn request_text_is_the_trimmed_line_that_opens_a_brace() {
    assert_eq!(Handshake::request_text("  {\"subscribe\":[]}  \r"), Some("{\"subscribe\":[]}".to_string()));
    assert_eq!(Handshake::request_text("{"), Some("{".to_string()));
    assert_eq!(Handshake::request_text("PING"), None);
    assert_eq!(Handshake::request_text("   "), None);
    assert_eq!(Handshake::request_text(""), None);
    assert_eq!(Handshake::request_text("x{"), None);
}

#[test]
fn handshake_with_given_names() {
    let mut handshake = Handshake::new();
    let names = Some(vec!["NewBlock".to_string(), "AddressModified".to_string()]);
    assert_eq!(
        handshake.on_line_with("{x", names),
        HandshakeAction::Accept(TcpSubscriptionRequest {
            subscribe: vec![EventType::NewBlock, EventType::AddressModified]
        })
    );
    assert_eq!(
        handshake.on_line_with("{x", None),
        HandshakeAction::Fail(HandshakeError::InvalidJson)
    );
    assert_eq!(
        handshake.on_line_with("{x", Some(vec!["newblock".to_string()])),
        HandshakeAction::Fail(HandshakeError::InvalidJson)
    );
}

#[test]
fn event_type_names() {
    let all = [
        EventType::RuneEtched,
        EventType::RuneBurned,
        EventType::RuneMinted,
        EventType::RuneTransferred,
        EventType::AddressModified,
        EventType::TransactionsAdded,
        EventType::TransactionsReplaced,
        EventType::NewBlock,
        EventType::Reorg,
    ];
    for kind in all {
        assert_eq!(EventType::from_name(&kind.name()), Some(kind));
    }
    assert_eq!(EventType::NewBlock.name(), "NewBlock");
    assert_eq!(EventType::from_name("Nope"), None);
}

#[test]
fn connection_steps() {
    let event = Event::Reorg { height: 5, depth: 2 };
    assert_eq!(
        connection_step(ConnectionEvent::Due(event.clone())),
        ConnectionAction::Send(event)
    );
    assert_eq!(connection_step(ConnectionEvent::Line(" PING\r".into())), ConnectionAction::Pong);
    assert_eq!(connection_step(ConnectionEvent::Line("hello".into())), ConnectionAction::Ignore);
    assert_eq!(connection_step(ConnectionEvent::ChannelClosed), ConnectionAction::Close);
    assert_eq!(connection_step(ConnectionEvent::ReadError), ConnectionAction::Close);
    assert_eq!(connection_step(ConnectionEvent::Disconnected), ConnectionAction::Close);
    assert_eq!(connection_step(ConnectionEvent::WriteError), ConnectionAction::Close);
}

#[test]
fn broadcast_reaches_the_interested_and_evicts_the_slow() {
    let mut manager = TcpSubscriptionManager::new();
    manager.register(TcpSubscription { id: 1, event_types: vec![EventType::NewBlock] });
    manager.register(TcpSubscription {
        id: 2,
        event_types: vec![EventType::Reorg, EventType::NewBlock],
    });
    manager.register(TcpSubscription { id: 3, event_types: vec![EventType::Reorg] });
    let new_block = Event::NewBlock { block_height: 7, block_hash: BlockHash::from_bytes(&[1; 32]) };
    let mut due = manager.broadcast(&new_block);
    due.sort();
    assert_eq!(due, vec![1, 2]);
    // The channel of 1 is full, that of 2 took the event.
    manager.evict(&vec![(1, SendOutcome::Full), (2, SendOutcome::Sent)]);
    assert_eq!(manager.broadcast(&new_block), vec![2]);
    manager.evict(&vec![(2, SendOutcome::Closed)]);
    assert!(manager.broadcast(&new_block).is_empty());
    let mut due = manager.broadcast(&Event::Reorg { height: 1, depth: 1 });
    due.sort();
    assert_eq!(due, vec![3]);
    manager.unregister(3);
    assert!(manager.broadcast(&Event::Reorg { height: 1, depth: 1 }).is_empty());
}

#[test]
fn extract_kb_reads_the_second_word() {
    assert_eq!(extract_kb("MemTotal:       16384256 kB"), Some(16384256));
    assert_eq!(extract_kb("VmRSS:\t  1234 kB"), Some(1234));
    assert_eq!(extract_kb("MemTotal:"), None);
    assert_eq!(extract_kb(""), None);
    assert_eq!(extract_kb("MemTotal: many kB"), None);
    assert_eq!(extract_kb("  a   7  "), Some(7));
    assert_eq!(extract_kb("a 18446744073709551616"), None);
}

const MEMINFO: &str = "MemTotal:       2048 kB\nMemFree:         100 kB\nMemAvailable:    512 kB\nBuffers: 1 kB\n";
const STATUS: &str = "Name:\tindexer\nVmPeak:\t 999 kB\nVmRSS:\t     300 kB\nThreads: 4\n";

#[test]
fn meminfo_and_status_are_read() {
    assert_eq!(read_proc_meminfo(MEMINFO), Some((2048 * 1024, 512 * 1024)));
    assert_eq!(read_proc_meminfo("MemTotal: 5 kB\n"), None);
    assert_eq!(read_proc_meminfo("MemAvailable: 5 kB\r\nMemTotal: 9 kB"), Some((9216, 5120)));
    assert_eq!(read_proc_meminfo("MemTotal: 18014398509481984 kB\nMemAvailable: 1 kB"), None);
    assert_eq!(read_process_rss_bytes(STATUS), Some(300 * 1024));
    assert_eq!(read_process_rss_bytes("VmRSS: x kB\nVmRSS: 2 kB"), Some(2048));
    assert_eq!(read_process_rss_bytes("Name: x"), None);
}

#[test]
fn memory_snapshot_prefers_the_control_group() {
    let meminfo = Some(MEMINFO.to_string());
    let status = Some(STATUS.to_string());
    assert_eq!(
        read_cgroup_v2_memory("4096\n", " 1024 \n", &meminfo, &status),
        Some(MemorySnapshot { total_bytes: 4096, used_bytes: 1024, process_rss_bytes: 307200 })
    );
    // Without a limit the total is that of the machine.
    assert_eq!(
        read_cgroup_v2_memory("max\n", "1024\n", &meminfo, &None),
        Some(MemorySnapshot { total_bytes: 2048 * 1024, used_bytes: 1024, process_rss_bytes: 0 })
    );
    assert_eq!(read_cgroup_v2_memory("max", "1024", &None, &None), None);
    assert_eq!(read_cgroup_v2_memory("lots", "1024", &meminfo, &None), None);
    assert_eq!(read_cgroup_v2_memory("4096", "", &meminfo, &None), None);

    assert_eq!(
        read_memory_snapshot(&Some("4096".into()), &Some("10".into()), &meminfo, &status),
        Some(MemorySnapshot { total_bytes: 4096, used_bytes: 10, process_rss_bytes: 307200 })
    );
    // Without the files of the control group the machine is asked.
    assert_eq!(
        read_memory_snapshot(&None, &Some("10".into()), &meminfo, &status),
        Some(MemorySnapshot {
            total_bytes: 2048 * 1024,
            used_bytes: 1536 * 1024,
            process_rss_bytes: 307200
        })
    );
    assert_eq!(read_memory_snapshot(&None, &None, &None, &status), None);
}

#[test]
fn rpc_validation_steps() {
    let reply = |s: &str| NodeReply::Chain(s.to_string());
    assert_eq!(validate_rpc_connection(0, reply("bitcoin"), Chain::Mainnet), ValidationStep::Accept);
    assert_eq!(validate_rpc_connection(3, reply("regtest"), Chain::Regtest), ValidationStep::Accept);
    assert_eq!(
        validate_rpc_connection(0, reply("testnet"), Chain::Mainnet),
        ValidationStep::Reject(RpcClientError::MismatchedChain(
            "testnet".to_string(),
            "mainnet".to_string()
        ))
    );
    assert_eq!(
        validate_rpc_connection(0, reply("liquid"), Chain::Mainnet),
        ValidationStep::Reject(RpcClientError::UnknownChain("liquid".to_string()))
    );
    assert_eq!(
        validate_rpc_connection(0, NodeReply::WarmingUp, Chain::Mainnet),
        ValidationStep::Retry(1)
    );
    assert_eq!(
        validate_rpc_connection(4, NodeReply::WarmingUp, Chain::Mainnet),
        ValidationStep::Retry(5)
    );
    assert_eq!(
        validate_rpc_connection(5, NodeReply::WarmingUp, Chain::Mainnet),
        ValidationStep::Reject(RpcClientError::FailedToConnect(
            "Failed to connect to Bitcoin Core RPC".to_string()
        ))
    );
    assert_eq!(
        validate_rpc_connection(0, NodeReply::Failed("refused".into()), Chain::Mainnet),
        ValidationStep::Reject(RpcClientError::FailedToConnect("refused".to_string()))
    );
    assert_eq!(classify_failure(Some(-28), "loading".into()), NodeReply::WarmingUp);
    assert_eq!(classify_failure(Some(-1), "x".into()), NodeReply::Failed("x".into()));
    assert_eq!(classify_failure(None, "x".into()), NodeReply::Failed("x".into()));
    assert_eq!(chain_of_node_name("signet"), Some(Chain::Signet));
    assert_eq!(chain_of_node_name("testnet4"), Some(Chain::Testnet4));
    assert_eq!(chain_of_node_name("main"), None);
    assert_eq!(
        RpcClientError::MismatchedChain("testnet".into(), "mainnet".into()).to_string(),
        "mismatched chain `testnet` does not match `mainnet`"
    );
    assert_eq!(RpcClientError::UnknownChain("x".into()).to_string(), "unknown chain x");
    assert_eq!(
        RpcClientError::FailedToConnect("y".into()).to_string(),
        "failed to connect to rpc y"
    );
}

#[test]
fn rpc_errors_that_mean_absence() {
    assert!(into_option(-8, "anything"));
    assert!(into_option(-5, "No such mempool or blockchain transaction. Use gettransaction"));
    assert!(!into_option(-5, "Another failure"));
    assert!(into_option(-1, "Block not found"));
    assert!(!into_option(-1, "not found here"));
    assert!(!into_option(-28, "Loading block index"));
}

fn options() -> Options {
    Options {
        bitcoin_rpc_password: None,
        bitcoin_rpc_url: "http://localhost:8332".into(),
        bitcoin_rpc_username: None,
        bitcoin_rpc_limit: 12,
        chain: Chain::Signet,
        config: None,
        cookie_file: None,
        data_dir: "./data".into(),
        no_index_inscriptions: false,
        index_spent_outputs: true,
        index_addresses: true,
        commit_interval: 5000,
        http_event_destination: None,
        zmq_endpoint: "tcp://127.0.0.1:28332".into(),
        http_listen: "0.0.0.0:3030".into(),
        csp_origin: Some("https://example.org".into()),
        decompress: false,
        main_loop_interval: 500,
        max_recoverable_reorg_depth: 6,
    }
}

#[test]
fn options_give_auth_and_settings() {
    let mut o = options();
    assert_eq!(o.get_bitcoin_rpc_auth(), RpcAuth::Anonymous);
    o.bitcoin_rpc_password = Some("secret".into());
    assert_eq!(o.get_bitcoin_rpc_auth(), RpcAuth::Anonymous);
    o.bitcoin_rpc_username = Some("user".into());
    assert_eq!(o.get_bitcoin_rpc_auth(), RpcAuth::UserPass("user".into(), "secret".into()));
    o.bitcoin_rpc_password = None;
    assert_eq!(o.get_bitcoin_rpc_auth(), RpcAuth::UserPass("user".into(), "".into()));
    o.cookie_file = Some("/tmp/.cookie".into());
    assert_eq!(o.get_bitcoin_rpc_auth(), RpcAuth::CookieFile("/tmp/.cookie".into()));
    let s = o.settings();
    assert_eq!(s.chain, Chain::Signet);
    assert_eq!(s.commit_interval, 5000);
    assert_eq!(s.max_recoverable_reorg_depth(), 6);
    assert!(s.index_spent_outputs && s.index_addresses && !s.no_index_inscriptions);
    let c = o.server_config();
    assert_eq!(c.http_listen, "0.0.0.0:3030");
    assert_eq!(c.csp_origin, Some("https://example.org".to_string()));
    assert_eq!(c.bitcoin_rpc_auth, RpcAuth::CookieFile("/tmp/.cookie".into()));
    assert_eq!(Chain::Mainnet.first_rune_height(), 840_000);
    assert_eq!(Chain::Testnet.first_rune_height(), 2_520_000);
    assert_eq!(Chain::Regtest.first_rune_height(), 0);
}

#[test]
fn api_reads_the_store() {
    let mut store = Store::new();
    let empty = StoreWithLock::new(Store::new());
    assert_eq!(tip(&empty), Err(StoreError::NotFound));
    assert_eq!(status(&empty), Err(StoreError::NotFound));

    let hash = BlockHash::from_bytes(&[9; 32]);
    let record = Block {
        height: 0,
        header: BlockHeader { hash, prev_blockhash: BlockHash::from_bytes(&[0; 32]), time: 1 },
        tx_ids: vec![SerializedTxid::from([1; 32])],
        etched_runes: vec![],
    };
    let mut update = BatchUpdate::new(3, 1, 0);
    update.blocks.insert(hash, record.clone());
    update.block_hashes.insert(0, hash);
    update.mempool_txs.insert(SerializedTxid::from([5; 32]));
    update.rune_ids.insert(Rune(7), RuneId::new(2, 3));
    update.rune_transactions.insert(RuneId::new(2, 3), vec![SerializedTxid::from([1; 32])]);
    store.batch_update(&update, false);
    let index = StoreWithLock::new(store);

    assert_eq!(tip(&index), Ok(BlockTip { height: 1, hash }));
    let s = status(&index).unwrap();
    assert_eq!(s.runes_count, 3);
    assert_eq!(s.mempool_tx_count, 1);
    assert_eq!(s.block_tip.height, 1);
    assert_eq!(block(&index, &BlockQuery::Height(0)), Ok(record.clone()));
    assert_eq!(block(&index, &BlockQuery::Hash(hash)), Ok(record));
    assert_eq!(block(&index, &BlockQuery::Height(1)), Err(StoreError::NotFound));
    assert_eq!(
        output(&index, &OutPoint::new(SerializedTxid::from([1; 32]), 0)),
        Err(StoreError::NotFound)
    );
    assert_eq!(mempool_txids(&index), vec![SerializedTxid::from([5; 32])]);
    assert_eq!(rune(&index, &RuneQuery::Rune(Rune(7))), Err(StoreError::NotFound));
    assert_eq!(rune(&index, &RuneQuery::Rune(Rune(8))), Err(StoreError::NotFound));
    assert_eq!(
        last_rune_transactions(&index, &RuneQuery::Rune(Rune(7))),
        Ok(vec![SerializedTxid::from([1; 32])])
    );
    assert!(last_rune_transactions(&index, &RuneQuery::Id(RuneId::new(9, 9))).unwrap().is_empty());
}

#[test]
fn transaction_shows_the_runes_of_its_outputs() {
    let txid = SerializedTxid::from([1; 32]);
    let held = vec![RuneAmount { rune_id: RuneId::new(2, 3), amount: 40 }];
    let mut store = Store::new();
    store.set_tx_out(
        OutPoint::new(txid, 1),
        TxOutEntry { runes: held.clone(), value: 546, spent: false },
        false,
    );
    let index = StoreWithLock::new(store);
    let spent = OutPoint::new(SerializedTxid::from([7; 32]), 4);
    let tx = Transaction {
        inputs: vec![spent],
        outputs: vec![
            TxOutput { value: 1000, script_pubkey: ScriptPubKey::new(vec![0x51]) },
            TxOutput { value: 546, script_pubkey: ScriptPubKey::new(vec![0x52, 0x53]) },
        ],
    };
    let shown = transaction(&index, &txid, &tx);
    assert_eq!(shown.input, vec![spent]);
    assert_eq!(
        shown.output,
        vec![
            RunicOutput {
                value: 1000,
                script_pubkey: ScriptPubKey::new(vec![0x51]),
                runes: vec![]
            },
            RunicOutput {
                value: 546,
                script_pubkey: ScriptPubKey::new(vec![0x52, 0x53]),
                runes: held
            },
        ]
    );
    let other = transaction(&index, &SerializedTxid::from([2; 32]), &tx);
    assert!(other.output.iter().all(|o| o.runes.is_empty()));
}

#[test]
fn webhook_subscriptions_are_kept_in_order() {
    let mut manager = WebhookSubscriptionManager::new();
    let sub = |id: u128, endpoint: &str| Subscription {
        id,
        endpoint: endpoint.to_string(),
        event_types: vec![EventType::NewBlock],
        last_success_epoch_secs: 0,
    };
    assert_eq!(add_subscription(&mut manager, sub(1, "a")), Ok(()));
    assert_eq!(add_subscription(&mut manager, sub(2, "b")), Ok(()));
    assert_eq!(add_subscription(&mut manager, sub(1, "c")), Ok(()));
    assert_eq!(subscriptions(&manager), Ok(vec![sub(1, "c"), sub(2, "b")]));
    assert_eq!(get_subscription(&manager, 2), Ok(sub(2, "b")));
    assert_eq!(get_subscription(&manager, 3), Err(StoreError::NotFound));
    assert_eq!(delete_subscription(&mut manager, 1), Ok(()));
    assert_eq!(delete_subscription(&mut manager, 1), Err(StoreError::NotFound));
    assert_eq!(subscriptions(&manager), Ok(vec![sub(2, "b")]));
}

#[test]
fn settings_come_from_the_options() {
    let options = Options {
        bitcoin_rpc_password: None,
        bitcoin_rpc_url: "http://localhost:8332".to_string(),
        bitcoin_rpc_username: None,
        bitcoin_rpc_limit: 12,
        chain: Chain::Signet,
        config: None,
        cookie_file: None,
        data_dir: "./data".to_string(),
        no_index_inscriptions: true,
        index_spent_outputs: false,
        index_addresses: true,
        commit_interval: 7,
        http_event_destination: None,
        zmq_endpoint: "tcp://127.0.0.1:28332".to_string(),
        http_listen: "0.0.0.0:3030".to_string(),
        csp_origin: None,
        decompress: false,
        main_loop_interval: 250,
        max_recoverable_reorg_depth: 4,
    };
    let by_method = options.settings();
    let settings = rune_indexer::settings::Settings::from(options);
    assert_eq!(settings, by_method);
    assert_eq!(settings.chain, Chain::Signet);
    assert_eq!(settings.commit_interval, 7);
    assert_eq!(settings.main_loop_interval, 250);
    assert_eq!(settings.max_recoverable_reorg_depth(), 4);
    assert!(settings.no_index_inscriptions && settings.index_addresses);
    assert!(!settings.index_spent_outputs);
}

fn plain_entry(number: u64) -> RuneEntry {
    RuneEntry {
        block: 10,
        burned: 0,
        divisibility: 0,
        etching: SerializedTxid::from([9; 32]),
        terms: None,
        mints: 0,
        number,
        premine: 0,
        spaced_rune: SpacedRune::new(Rune(number as u128), 0),
        symbol: None,
        pending_burns: 0,
        pending_mints: 0,
        inscription_id: None,
        timestamp: 0,
        turbo: false,
    }
}

#[test]
fn runes_are_listed_in_the_order_of_their_numbers() {
    let mut update = BatchUpdate::new(5, 0, 0);
    // Number 3 leads nowhere, and number 4 to a rune without an entry.
    for n in [1u64, 2, 5] {
        update.runes.insert(RuneId::new(n, 0), plain_entry(n));
        update.rune_numbers.insert(n, RuneId::new(n, 0));
    }
    update.rune_numbers.insert(4, RuneId::new(4, 0));
    let mut store = Store::new();
    store.batch_update(&update, false);
    let index = StoreWithLock::new(store);
    let item = |n: u64| (RuneId::new(n, 0), plain_entry(n));

    let all = runes(&index, Pagination { skip: 0, limit: 10 });
    assert_eq!(all.items, vec![item(1), item(2), item(5)]);
    assert_eq!(all.offset, 5);
    let first = runes(&index, Pagination { skip: 0, limit: 2 });
    assert_eq!(first.items, vec![item(1), item(2)]);
    assert_eq!(first.offset, 2);
    let next = runes(&index, Pagination { skip: first.offset, limit: 2 });
    assert!(next.items.is_empty());
    assert_eq!(next.offset, 4);
    let last = runes(&index, Pagination { skip: next.offset, limit: 2 });
    assert_eq!(last.items, vec![item(5)]);
    assert_eq!(last.offset, 5);
    let beyond = runes(&index, Pagination { skip: 9, limit: 2 });
    assert!(beyond.items.is_empty());
    assert_eq!(beyond.offset, 9);
    let none = runes(&index, Pagination { skip: 1, limit: 0 });
    assert!(none.items.is_empty());
    assert_eq!(none.offset, 1);
    let wide = runes(&index, Pagination { skip: 4, limit: u64::MAX });
    assert_eq!(wide.items, vec![item(5)]);
    assert_eq!(wide.offset, 5);
    assert!(runes(&StoreWithLock::new(Store::new()), Pagination { skip: 0, limit: 3 }).items.is_empty());
}

#[test]
fn address_holds_its_unspent_outputs() {
    let script = ScriptPubKey::new(vec![0x51, 0x20, 7]);
    let a = RuneId::new(2, 3);
    let b = RuneId::new(4, 5);
    let at = |i: u8| OutPoint::new(SerializedTxid::from([i; 32]), 0);
    let mut store = Store::new();
    store.set_tx_out(
        at(1),
        TxOutEntry { runes: vec![RuneAmount { rune_id: a, amount: 40 }], value: 546, spent: false },
        false,
    );
    store.set_tx_out(
        at(2),
        TxOutEntry { runes: vec![RuneAmount { rune_id: a, amount: 9 }], value: 1000, spent: true },
        false,
    );
    store.set_tx_out(
        at(3),
        TxOutEntry {
            runes: vec![RuneAmount { rune_id: b, amount: 1 }, RuneAmount { rune_id: a, amount: 2 }],
            value: 10,
            spent: false,
        },
        true,
    );
    let mut chain = BatchUpdate::new(0, 0, 0);
    chain.script_pubkeys.insert(script.clone(), SpkDelta { new: vec![at(1), at(2), at(4)], spent: vec![] });
    store.batch_update(&chain, false);
    let mut pool = BatchUpdate::new(0, 0, 0);
    pool.script_pubkeys.insert(script.clone(), SpkDelta { new: vec![at(3)], spent: vec![] });
    store.batch_update(&pool, true);
    let index = StoreWithLock::new(store);

    let data = address(&index, &script);
    assert_eq!(data.value, 556);
    assert_eq!(
        data.runes,
        vec![RuneAmount { rune_id: a, amount: 42 }, RuneAmount { rune_id: b, amount: 1 }]
    );
    assert_eq!(
        data.outputs,
        vec![
            AddressOutput {
                outpoint: at(1),
                value: 546,
                runes: vec![RuneAmount { rune_id: a, amount: 40 }]
            },
            AddressOutput {
                outpoint: at(3),
                value: 10,
                runes: vec![
                    RuneAmount { rune_id: b, amount: 1 },
                    RuneAmount { rune_id: a, amount: 2 }
                ]
            },
        ]
    );
    let other = address(&index, &ScriptPubKey::new(vec![1]));
    assert_eq!(other.value, 0);
    assert!(other.runes.is_empty() && other.outputs.is_empty());
}
