use crate::ids::{BlockHash, OutPoint, SerializedTxid};
use crate::model::{copy_vec, Location};
use crate::rune_id::RuneId;
use crate::text::{chars_of, string_of};
use vstd::prelude::*;

verus! {

/// The kinds of events that a subscriber can ask for.
#[derive(Debug, PartialEq, Copy, Clone, Eq, Structural, Hash)]
pub enum EventType {
    RuneEtched,
    RuneBurned,
    RuneMinted,
    RuneTransferred,
    AddressModified,
    TransactionsAdded,
    TransactionsReplaced,
    NewBlock,
    Reorg,
}

/// Something that happened to the indexed state.
#[allow(inconsistent_fields)]
#[derive(Debug, PartialEq, Eq)]
pub enum Event {
    RuneEtched { block_height: u32, txid: SerializedTxid, rune_id: RuneId, in_mempool: bool },
    RuneBurned {
        block_height: u32,
        txid: SerializedTxid,
        rune_id: RuneId,
        amount: u128,
        in_mempool: bool,
    },
    RuneMinted {
        block_height: u32,
        txid: SerializedTxid,
        rune_id: RuneId,
        amount: u128,
        in_mempool: bool,
    },
    RuneTransferred {
        block_height: u32,
        txid: SerializedTxid,
        outpoint: OutPoint,
        rune_id: RuneId,
        amount: u128,
        in_mempool: bool,
    },
    AddressModified { address: String, location: Location },
    TransactionsAdded { txids: Vec<SerializedTxid> },
    TransactionsReplaced { txids: Vec<SerializedTxid> },
    NewBlock { block_height: u64, block_hash: BlockHash },
    Reorg { height: u64, depth: u64 },
}

#[allow(inconsistent_fields)]
pub enum EventView {
    RuneEtched { block_height: u32, txid: SerializedTxid, rune_id: RuneId, in_mempool: bool },
    RuneBurned {
        block_height: u32,
        txid: SerializedTxid,
        rune_id: RuneId,
        amount: u128,
        in_mempool: bool,
    },
    RuneMinted {
        block_height: u32,
        txid: SerializedTxid,
        rune_id: RuneId,
        amount: u128,
        in_mempool: bool,
    },
    RuneTransferred {
        block_height: u32,
        txid: SerializedTxid,
        outpoint: OutPoint,
        rune_id: RuneId,
        amount: u128,
        in_mempool: bool,
    },
    AddressModified { address: Seq<char>, location: Location },
    TransactionsAdded { txids: Seq<SerializedTxid> },
    TransactionsReplaced { txids: Seq<SerializedTxid> },
    NewBlock { block_height: u64, block_hash: BlockHash },
    Reorg { height: u64, depth: u64 },
}

impl EventView {
    pub open spec fn event_type(self) -> EventType {
        match self {
            EventView::RuneEtched { .. } => EventType::RuneEtched,
            EventView::RuneBurned { .. } => EventType::RuneBurned,
            EventView::RuneMinted { .. } => EventType::RuneMinted,
            EventView::RuneTransferred { .. } => EventType::RuneTransferred,
            EventView::AddressModified { .. } => EventType::AddressModified,
            EventView::TransactionsAdded { .. } => EventType::TransactionsAdded,
            EventView::TransactionsReplaced { .. } => EventType::TransactionsReplaced,
            EventView::NewBlock { .. } => EventType::NewBlock,
            EventView::Reorg { .. } => EventType::Reorg,
        }
    }
}

impl View for Event {
    type V = EventView;

    open spec fn view(&self) -> EventView {
        match *self {
            Event::RuneEtched { block_height, txid, rune_id, in_mempool } => EventView::RuneEtched {
                block_height,
                txid,
                rune_id,
                in_mempool,
            },
            Event::RuneBurned {
                block_height,
                txid,
                rune_id,
                amount,
                in_mempool,
            } => EventView::RuneBurned { block_height, txid, rune_id, amount, in_mempool },
            Event::RuneMinted {
                block_height,
                txid,
                rune_id,
                amount,
                in_mempool,
            } => EventView::RuneMinted { block_height, txid, rune_id, amount, in_mempool },
            Event::RuneTransferred {
                block_height,
                txid,
                outpoint,
                rune_id,
                amount,
                in_mempool,
            } => EventView::RuneTransferred {
                block_height,
                txid,
                outpoint,
                rune_id,
                amount,
                in_mempool,
            },
            Event::AddressModified { address, location } => EventView::AddressModified {
                address: address@,
                location,
            },
            Event::TransactionsAdded { txids } => EventView::TransactionsAdded { txids: txids@ },
            Event::TransactionsReplaced { txids } => EventView::TransactionsReplaced {
                txids: txids@,
            },
            Event::NewBlock { block_height, block_hash } => EventView::NewBlock {
                block_height,
                block_hash,
            },
            Event::Reorg { height, depth } => EventView::Reorg { height, depth },
        }
    }
}

impl Event {
    /// The kind of the event.
    pub fn event_type(&self) -> (t: EventType)
        ensures
            t == self@.event_type(),
    {
        match self {
            Event::RuneEtched { .. } => EventType::RuneEtched,
            Event::RuneBurned { .. } => EventType::RuneBurned,
            Event::RuneMinted { .. } => EventType::RuneMinted,
            Event::RuneTransferred { .. } => EventType::RuneTransferred,
            Event::AddressModified { .. } => EventType::AddressModified,
            Event::TransactionsAdded { .. } => EventType::TransactionsAdded,
            Event::TransactionsReplaced { .. } => EventType::TransactionsReplaced,
            Event::NewBlock { .. } => EventType::NewBlock,
            Event::Reorg { .. } => EventType::Reorg,
        }
    }
}

impl Clone for Event {
    fn clone(&self) -> (r: Self)
        ensures
            r@ == self@,
    {
        match self {
            Event::RuneEtched { block_height, txid, rune_id, in_mempool } => Event::RuneEtched {
                block_height: *block_height,
                txid: *txid,
                rune_id: *rune_id,
                in_mempool: *in_mempool,
            },
            Event::RuneBurned { block_height, txid, rune_id, amount, in_mempool } => {
                Event::RuneBurned {
                    block_height: *block_height,
                    txid: *txid,
                    rune_id: *rune_id,
                    amount: *amount,
                    in_mempool: *in_mempool,
                }
            },
            Event::RuneMinted { block_height, txid, rune_id, amount, in_mempool } => {
                Event::RuneMinted {
                    block_height: *block_height,
                    txid: *txid,
                    rune_id: *rune_id,
                    amount: *amount,
                    in_mempool: *in_mempool,
                }
            },
            Event::RuneTransferred {
                block_height,
                txid,
                outpoint,
                rune_id,
                amount,
                in_mempool,
            } => Event::RuneTransferred {
                block_height: *block_height,
                txid: *txid,
                outpoint: *outpoint,
                rune_id: *rune_id,
                amount: *amount,
                in_mempool: *in_mempool,
            },
            Event::AddressModified { address, location } => {
                let chars = chars_of(address.as_str());
                Event::AddressModified { address: string_of(&chars), location: *location }
            },
            Event::TransactionsAdded { txids } => Event::TransactionsAdded {
                txids: copy_vec(txids),
            },
            Event::TransactionsReplaced { txids } => Event::TransactionsReplaced {
                txids: copy_vec(txids),
            },
            Event::NewBlock { block_height, block_hash } => Event::NewBlock {
                block_height: *block_height,
                block_hash: *block_hash,
            },
            Event::Reorg { height, depth } => Event::Reorg { height: *height, depth: *depth },
        }
    }
}

/// The views of a sequence of events.
pub open spec fn event_views(events: Seq<Event>) -> Seq<EventView> {
    Seq::new(events.len(), |i: int| events[i]@)
}

} // verus!
