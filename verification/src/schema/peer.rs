//! Peer message trace events.

use crate::trace_event::TraceEvent;
use vstd::prelude::*;

verus! {

/// A peer protocol message was sent or received.
#[derive(Debug)]
pub struct PeerMessage {
    /// "in" for inbound, "out" for outbound.
    pub direction: String,
    /// The Zcash protocol command name (e.g. "inv", "tx", "block").
    pub command: String,
    /// The peer address label.
    pub peer_addr: String,
    /// The exact message size on the wire, with the 24-byte Zcash message header.
    pub message_bytes: Option<usize>,
    /// The block hash carried by this message, if it is block-related and singular.
    pub block_hash: Option<String>,
    /// The block height carried by this message, if it is a full block and the height is known.
    pub block_height: Option<u32>,
}

impl TraceEvent for PeerMessage {
    open spec fn table_name() -> Seq<char> {
        "peer_message"@
    }

    fn table() -> (name: &'static str) {
        "peer_message"
    }
}

}
