//! Event schemas for structured tracing.

pub mod block;
pub mod peer;
pub mod tx;

pub use block::{BlockAdvertised, BlockGossiped, BlockVerified};
pub use peer::PeerMessage;
pub use tx::{TxAddedToMempool, TxGossiped, TxPushed, TxRejected, TxVerified};
