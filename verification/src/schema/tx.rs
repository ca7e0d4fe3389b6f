//! Transaction-related trace events.

use crate::trace_event::TraceEvent;
use vstd::prelude::*;

verus! {

/// A transaction was pushed by a peer.
#[derive(Debug)]
pub struct TxPushed {
    /// The transaction hash as a hex string.
    pub hash: String,
    /// The peer that pushed the transaction.
    pub peer_addr: String,
}

impl TraceEvent for TxPushed {
    open spec fn table_name() -> Seq<char> {
        "tx_pushed"@
    }

    fn table() -> (name: &'static str) {
        "tx_pushed"
    }
}

/// A transaction was successfully verified.
#[derive(Debug)]
pub struct TxVerified {
    /// The transaction hash as a hex string.
    pub hash: String,
}

impl TraceEvent for TxVerified {
    open spec fn table_name() -> Seq<char> {
        "tx_verified"@
    }

    fn table() -> (name: &'static str) {
        "tx_verified"
    }
}

/// A transaction was added to the mempool.
#[derive(Debug)]
pub struct TxAddedToMempool {
    /// The transaction hash as a hex string.
    pub hash: String,
}

impl TraceEvent for TxAddedToMempool {
    open spec fn table_name() -> Seq<char> {
        "tx_added_to_mempool"@
    }

    fn table() -> (name: &'static str) {
        "tx_added_to_mempool"
    }
}

/// Transaction IDs were gossiped to peers.
#[derive(Debug)]
pub struct TxGossiped {
    /// Total number of transaction IDs gossiped.
    pub tx_count: usize,
    /// Transaction IDs held by this event (capped to `max_txids_per_event`).
    pub txids: Vec<String>,
    /// Whether the txids list was truncated.
    pub truncated: bool,
}

impl TraceEvent for TxGossiped {
    open spec fn table_name() -> Seq<char> {
        "tx_gossiped"@
    }

    fn table() -> (name: &'static str) {
        "tx_gossiped"
    }
}

impl TxGossiped {
    /// The event for gossiped transaction IDs, of which it holds the first
    /// `max_txids_per_event` at most.
    pub fn new(txids: Vec<String>, max_txids_per_event: usize) -> (event: Self)
        ensures
            event.tx_count == txids@.len(),
            event.truncated == (txids@.len() > max_txids_per_event),
            event.txids@ == if event.truncated {
                txids@.take(max_txids_per_event as int)
            } else {
                txids@
            },
    {
        let tx_count = txids.len();
        let truncated = tx_count > max_txids_per_event;
        let mut kept = txids;
        if truncated {
            kept.truncate(max_txids_per_event);
        }
        TxGossiped { tx_count, txids: kept, truncated }
    }
}

/// A transaction was rejected from the mempool.
#[derive(Debug)]
pub struct TxRejected {
    /// The transaction hash as a hex string.
    pub hash: String,
    /// The rejection reason.
    pub reason: String,
}

impl TraceEvent for TxRejected {
    open spec fn table_name() -> Seq<char> {
        "tx_rejected"@
    }

    fn table() -> (name: &'static str) {
        "tx_rejected"
    }
}

}
