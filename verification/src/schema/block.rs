//! Block-related trace events.

use crate::trace_event::TraceEvent;
use vstd::prelude::*;

verus! {

/// A block hash was advertised by a peer (via `inv`).
#[derive(Debug)]
pub struct BlockAdvertised {
    /// The block hash as a hex string.
    pub hash: String,
    /// The peer that advertised the block.
    pub peer_addr: String,
}

impl TraceEvent for BlockAdvertised {
    open spec fn table_name() -> Seq<char> {
        "block_advertised"@
    }

    fn table() -> (name: &'static str) {
        "block_advertised"
    }
}

/// A block hash was gossiped to peers.
#[derive(Debug)]
pub struct BlockGossiped {
    /// The block hash as a hex string.
    pub hash: String,
    /// The block height.
    pub height: u32,
    /// Whether this block originated from local block submission or mining.
    pub is_mined: bool,
}

impl TraceEvent for BlockGossiped {
    open spec fn table_name() -> Seq<char> {
        "block_gossiped"@
    }

    fn table() -> (name: &'static str) {
        "block_gossiped"
    }
}

/// A block was successfully verified.
#[derive(Debug)]
pub struct BlockVerified {
    /// The block hash as a hex string.
    pub hash: String,
    /// The block height.
    pub height: u32,
    /// The peer that supplied this block, if known.
    pub peer_addr: Option<String>,
    /// The serialized size of the block in bytes, if known.
    pub size_bytes: Option<usize>,
}

impl TraceEvent for BlockVerified {
    open spec fn table_name() -> Seq<char> {
        "block_verified"@
    }

    fn table() -> (name: &'static str) {
        "block_verified"
    }
}

}
