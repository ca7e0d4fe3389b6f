//! What a generated chain has from the node that it is for.

use crate::local_genesis::{Amount, Block, BlockHash, CoinbasePlan, Header, Network};
use crate::network::Height;
use vstd::prelude::*;

verus! {

/// What only the node's own types can compute of a chain: its consensus rules, its transactions
/// and its trees.
///
/// Nothing is assumed of what comes back. The contracts that use it say which of these methods
/// was called with what, and what is then done with the answer.
pub trait ChainParts: Sized {
    /// A transaction.
    type Transaction;

    /// The history of the blocks of a chain.
    type HistoryTree;

    /// A tree of Orchard note commitments.
    type OrchardTree;

    /// Why the parameters of a network are refused, if they are.
    fn network_fault(&self, network: &Network) -> Option<String>;

    /// The block subsidy at a height, or why there is none.
    fn block_subsidy(&self, network: &Network, height: Height) -> Result<Amount, String>;

    /// The time between the blocks at a height and the one before it, in seconds.
    fn target_spacing_secs(&self, network: &Network, height: Height) -> i64;

    /// A difficulty target, given most significant byte first, in compact form.
    fn compact_difficulty(&self, target: &[u8; 32]) -> u32;

    /// Builds a coinbase transaction.
    fn coinbase_transaction(&self, network: &Network, plan: &CoinbasePlan) -> Self::Transaction;

    /// The Orchard note commitments of a transaction, in order.
    fn orchard_note_commitments(&self, transaction: &Self::Transaction) -> Vec<[u8; 32]>;

    /// The root of the Merkle tree of transactions.
    fn merkle_root(&self, transactions: &Vec<Self::Transaction>) -> [u8; 32];

    /// The root of the authorizing data of transactions.
    fn auth_data_root(&self, transactions: &Vec<Self::Transaction>) -> [u8; 32];

    /// The commitment to a chain history and to authorizing data.
    fn block_commitment(&self, history_root: &[u8; 32], auth_data_root: &[u8; 32]) -> [u8; 32];

    /// The hash of the block with a header.
    fn block_hash(&self, header: &Header) -> BlockHash;

    /// The root of the empty Sapling note commitment tree.
    fn sapling_root(&self) -> [u8; 32];

    /// The empty tree of Orchard note commitments.
    fn empty_orchard_tree(&self) -> Self::OrchardTree;

    /// A tree with one more note commitment, or why it cannot take one.
    fn append_note(&self, tree: &Self::OrchardTree, note: &[u8; 32]) -> Result<
        Self::OrchardTree,
        String,
    >;

    /// The root of a tree of Orchard note commitments.
    fn orchard_root(&self, tree: &Self::OrchardTree) -> [u8; 32];

    /// The history of a chain without blocks.
    fn empty_history(&self) -> Self::HistoryTree;

    /// The root of a chain history, if it has one.
    fn history_root(&self, history: &Self::HistoryTree) -> Option<[u8; 32]>;

    /// A chain history with one more block, or why it cannot take it.
    fn push_history(
        &self,
        network: &Network,
        history: &Self::HistoryTree,
        block: &Block<Self::Transaction>,
        sapling_root: &[u8; 32],
        orchard_root: &[u8; 32],
    ) -> Result<Self::HistoryTree, String>;
}

}
