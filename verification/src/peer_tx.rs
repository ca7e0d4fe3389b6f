//! What becomes of a message that is sent to a peer.

use crate::schema::PeerMessage;
use vstd::prelude::*;

verus! {

/// What is known of a message before it is sent.
#[derive(Debug)]
pub struct MessageInfo {
    /// The Zcash protocol command name.
    pub command: String,
    /// The message size on the wire, if known.
    pub message_bytes: Option<usize>,
    /// The block hash carried by the message, if it is block-related and singular.
    pub block_hash: Option<String>,
    /// The block height carried by the message, if it is a full block and the height is known.
    pub block_height: Option<u32>,
}

/// How sending a message ended.
#[derive(Debug)]
pub enum SendOutcome<E> {
    /// The message was sent.
    Sent,
    /// The peer connection refused the message.
    Failed(E),
    /// The message was not sent within the request timeout.
    TimedOut,
}

/// Why a message could not be sent.
#[derive(Debug)]
pub enum PeerError<E> {
    /// The message was not sent within the request timeout.
    ConnectionSendTimeout,
    /// The peer connection refused the message.
    Serialization(E),
}

/// The sender of one peer's messages.
#[derive(Debug)]
pub struct PeerTx {
    /// The peer address label for trace events.
    pub peer_addr: String,
}

impl PeerTx {
    /// The sender of the messages for the peer with this address label.
    pub fn new(peer_addr: String) -> (tx: Self)
        ensures
            tx.peer_addr == peer_addr,
    {
        PeerTx { peer_addr }
    }

    /// The result of sending a message, and the trace event for it: a message that was sent is
    /// traced as outbound, and no other is.
    pub fn finish_send<E>(&self, outcome: SendOutcome<E>, info: MessageInfo) -> (finished: (
        Result<(), PeerError<E>>,
        Option<PeerMessage>,
    ))
        ensures
            match outcome {
                SendOutcome::Sent => {
                    &&& finished.0 is Ok
                    &&& finished.1 matches Some(event)
                    &&& event.direction@ == "out"@
                    &&& event == (PeerMessage {
                        direction: event.direction,
                        command: info.command,
                        peer_addr: self.peer_addr,
                        message_bytes: info.message_bytes,
                        block_hash: info.block_hash,
                        block_height: info.block_height,
                    })
                },
                SendOutcome::Failed(error) => finished == (
                    Err::<(), PeerError<E>>(PeerError::Serialization(error)),
                    None::<PeerMessage>,
                ),
                SendOutcome::TimedOut => finished == (
                    Err::<(), PeerError<E>>(PeerError::ConnectionSendTimeout),
                    None::<PeerMessage>,
                ),
            },
    {
        match outcome {
            SendOutcome::Sent => {
                let event = PeerMessage {
                    direction: "out".to_owned(),
                    command: info.command,
                    peer_addr: self.peer_addr.clone(),
                    message_bytes: info.message_bytes,
                    block_hash: info.block_hash,
                    block_height: info.block_height,
                };
                (Ok(()), Some(event))
            },
            SendOutcome::Failed(error) => (Err(PeerError::Serialization(error)), None),
            SendOutcome::TimedOut => (Err(PeerError::ConnectionSendTimeout), None),
        }
    }
}

}
