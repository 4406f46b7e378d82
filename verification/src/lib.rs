//! An indexer of runes on Bitcoin: the store, the window of staged writes,
//! the parser of transactions, the updater that applies their effects and
//! takes them back, the pipelines for blocks and for the mempool, and the
//! subscription protocol, each with its contract.

pub mod address_updater;
pub mod api;
pub mod artifact;
pub mod balances;
pub mod block_roundtrip;
pub mod cache;
pub mod circulation;
pub mod commitment;
pub mod conservation;
mod decipher;
pub mod encoding;
pub mod events;
pub mod height;
pub mod ids;
pub mod laws;
pub mod memory;
pub mod mempool;
pub mod model;
pub mod options;
pub mod refusal;
pub mod reverting;
pub mod rollback;
pub mod roundtrip;
pub mod rpc;
pub mod rune;
pub mod rune_amount;
pub mod rune_id;
pub mod rune_parser;
pub mod settings;
pub mod spaced_rune;
pub mod store;
pub mod subscription;
pub mod supply;
pub mod table;
pub mod text;
pub mod tip;
pub mod transaction_update;
pub mod transaction_updater;
pub mod txid_set;
pub mod updater;
