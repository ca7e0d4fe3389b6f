//! The chain of a generated local Testnet, block by block.
//!
//! The generator decides what each block holds and in which order things are done. What only the
//! node's own types can compute, it asks of the [`ChainParts`] that it is given.

use crate::chain_parts::ChainParts;
use crate::keys::{
    funded_key_from_name, hex_encode, key_of, pay_to_hash, FundedKeyMaterial, Script,
};
use crate::local_genesis::{
    are_good_names, block_commitment_bytes_for_height, build_network_parameters,
    coinbase_transaction_for_height, distribute_subsidy, genesis_previous_hash, is_commitment,
    is_name_error, is_network_error, is_parameter_error, lacks_history, ordered_names,
    placeholder_hash, share, trimmed_names, views, Amount, Block, BlockHash, CoinbasePlan, Header,
    LocalGenesisError, LocalTestnetGenesisOptions, Network,
};
use crate::network::{Height, NetworkKind};
use crate::text::hex_lower;
use crate::timestamp::{moved, Timestamp};
use vstd::prelude::*;

verus! {

/// A generated local Testnet chain.
#[derive(Clone, Debug)]
#[verifier::reject_recursive_types(P)]
pub struct GeneratedLocalTestnet<P: ChainParts> {
    /// Configured Testnet network parameters that match the generated blocks.
    pub network: Network,
    /// Deterministic funded keys, in input order.
    pub funded_keys: Vec<FundedKeyMaterial>,
    /// Generated chain blocks, genesis at index 0.
    pub blocks: Vec<Block<P::Transaction>>,
    /// Generated checkpoints matching the blocks.
    pub checkpoints: Vec<(Height, BlockHash)>,
    /// The chain history at the tip.
    pub history_tree: P::HistoryTree,
    /// The Sapling note commitment tree root, which stays that of the empty tree.
    pub sapling_root: [u8; 32],
    /// The Orchard note commitments in the chain.
    pub orchard_tree: P::OrchardTree,
    /// The options that the chain was started with.
    pub options: LocalTestnetGenesisOptions,
}

/// The hash that the block after these checkpoints gives for the block before it.
pub open spec fn tip_hash(checkpoints: Seq<(Height, BlockHash)>) -> Seq<u8> {
    if checkpoints.len() == 0 {
        genesis_previous_hash()
    } else {
        checkpoints.last().1.0@
    }
}

/// The place of the first name from `i` on that gives no key.
pub open spec fn first_keyless_name(names: Seq<Seq<char>>, i: int) -> Option<int>
    decreases names.len() - i,
{
    if i >= names.len() {
        None
    } else if key_of(names[i]) is None {
        Some(i)
    } else {
        first_keyless_name(names, i + 1)
    }
}

/// Whether a chain can be generated for these trimmed names and options.
pub open spec fn can_generate(names: Seq<Seq<char>>, options: LocalTestnetGenesisOptions) -> bool {
    &&& options.disable_pow
    &&& options.latest_upgrade_height != Height(0)
    &&& are_good_names(names)
    &&& first_keyless_name(names, 0) is None
    &&& options.magic() is Some
    &&& options.heights() is Some
}

/// Whether `error` is why no chain can be generated: the first check that fails decides.
pub open spec fn is_generation_error(
    names: Seq<Seq<char>>,
    options: LocalTestnetGenesisOptions,
    error: LocalGenesisError,
) -> bool {
    if !options.disable_pow {
        error is UnsupportedPowMode
    } else if options.latest_upgrade_height == Height(0) {
        error is InvalidLatestUpgradeHeight
    } else if !are_good_names(names) {
        is_name_error(names, error)
    } else {
        match first_keyless_name(names, 0) {
            Some(i) => error matches LocalGenesisError::ExhaustedDerivation(name) && name@
                == names[i],
            None => is_parameter_error(options, error),
        }
    }
}

/// Whether each output pays its share of `subsidy` to the funded key in its place.
pub open spec fn pays_shares(
    outputs: Seq<(i64, Script)>,
    subsidy: int,
    funded_keys: Seq<FundedKeyMaterial>,
) -> bool {
    &&& outputs.len() == funded_keys.len()
    &&& forall|i: int|
        0 <= i < outputs.len() ==> (#[trigger] outputs[i]).0 == share(
            subsidy,
            funded_keys.len() as int,
            i,
        ) && outputs[i].1.0@ == pay_to_hash(funded_keys[i].address.pub_key_hash@)
}

/// The note commitments in these lists, one list after the other.
pub open spec fn flat(lists: Seq<Vec<[u8; 32]>>) -> Seq<[u8; 32]>
    decreases lists.len(),
{
    if lists.len() == 0 {
        Seq::empty()
    } else {
        flat(lists.drop_last()) + lists.last()@
    }
}

/// Whether `notes` are the Orchard note commitments of the transactions, in order.
pub open spec fn are_notes<P: ChainParts>(
    parts: P,
    transactions: Seq<P::Transaction>,
    notes: Seq<[u8; 32]>,
) -> bool {
    exists|lists: Seq<Vec<[u8; 32]>>|
        {
            &&& notes == #[trigger] flat(lists)
            &&& lists.len() == transactions.len()
            &&& forall|i: int|
                0 <= i < lists.len() ==> call_ensures(
                    P::orchard_note_commitments,
                    (&parts, &transactions[i]),
                    #[trigger] lists[i],
                )
        }
}

/// Whether `trees` are what a tree goes through while these note commitments are appended one by
/// one.
pub open spec fn are_tree_steps<P: ChainParts>(
    parts: P,
    notes: Seq<[u8; 32]>,
    trees: Seq<P::OrchardTree>,
) -> bool {
    &&& trees.len() == notes.len() + 1
    &&& forall|i: int|
        0 <= i < notes.len() ==> call_ensures(
            P::append_note,
            (&parts, &trees[i], &#[trigger] notes[i]),
            Ok::<P::OrchardTree, String>(trees[i + 1]),
        )
}

/// Whether `after` is `before` with these note commitments appended one by one.
pub open spec fn is_noted<P: ChainParts>(
    parts: P,
    before: P::OrchardTree,
    notes: Seq<[u8; 32]>,
    after: P::OrchardTree,
) -> bool {
    exists|trees: Seq<P::OrchardTree>|
        {
            &&& #[trigger] are_tree_steps(parts, notes, trees)
            &&& trees[0] == before
            &&& trees.last() == after
        }
}

/// Whether one of these note commitments cannot be appended, after those before it, for this
/// reason.
pub open spec fn is_note_refused<P: ChainParts>(
    parts: P,
    before: P::OrchardTree,
    notes: Seq<[u8; 32]>,
    reason: String,
) -> bool {
    exists|i: int, tree: P::OrchardTree|
        {
            &&& 0 <= i < notes.len()
            &&& #[trigger] is_noted(parts, before, notes.take(i), tree)
            &&& call_ensures(
                P::append_note,
                (&parts, &tree, &notes[i]),
                Err::<P::OrchardTree, String>(reason),
            )
        }
}

/// Whether these checkpoints stand for a chain that is not known yet.
pub open spec fn is_placeholder(checkpoints: Seq<(Height, BlockHash)>) -> bool {
    &&& checkpoints.len() == 1
    &&& checkpoints[0].0 == Height(0)
    &&& checkpoints[0].1.0@ == placeholder_hash()
}

impl<P: ChainParts> GeneratedLocalTestnet<P> {
    /// Whether the chain is well formed: there is a funded key, the checkpoints match the
    /// blocks, and the network is the one that the options ask for.
    pub open spec fn wf(self) -> bool {
        &&& 0 < self.funded_keys@.len() <= i64::MAX
        &&& self.checkpoints@.len() == self.blocks@.len()
        &&& self.checkpoints@.len() <= u32::MAX + 1
        &&& forall|i: int|
            0 <= i < self.checkpoints@.len() ==> (#[trigger] self.checkpoints@[i]).0 == Height(
                i as u32,
            )
        &&& self.network.is_for(
            self.options,
            self.network.genesis_hash.0@,
            self.network.checkpoints@,
        )
    }

    /// Whether each checkpoint holds the hash of its block, and each block names the hash of the
    /// one before it.
    pub open spec fn is_hashed(self, parts: P) -> bool {
        forall|i: int|
            0 <= i < self.blocks@.len() ==> {
                &&& call_ensures(
                    P::block_hash,
                    (&parts, &(#[trigger] self.blocks@[i]).header),
                    self.checkpoints@[i].1,
                )
                &&& self.blocks@[i].header.previous_block_hash.0@ == tip_hash(
                    self.checkpoints@.take(i),
                )
            }
    }

    /// Whether the height of the next block can be counted.
    pub open spec fn has_room(self) -> bool {
        self.blocks@.len() <= u32::MAX
    }

    /// The height of the next block.
    pub open spec fn new_height(self) -> Height {
        Height(self.blocks@.len() as u32)
    }

    /// The time of the last block.
    pub open spec fn tip_time(self) -> Timestamp {
        self.blocks@.last().header.time
    }

    /// Whether a block `spacing_secs` after the last one has a time on the calendar.
    pub open spec fn can_time(self, spacing_secs: int) -> bool {
        self.tip_time().can_move(spacing_secs)
    }

    /// Whether `time` lies `spacing_secs` after the last block.
    pub open spec fn is_spaced(self, time: Timestamp, spacing_secs: int) -> bool {
        (time.secs_view(), time.nanos_view()) == moved(
            self.tip_time().secs_view(),
            self.tip_time().nanos_view(),
            spacing_secs,
        )
    }

    /// Whether `time` is that of the next block: the target spacing after the last one, or the
    /// start time for genesis.
    pub open spec fn is_next_time(self, parts: P, time: Timestamp) -> bool {
        if self.blocks@.len() == 0 {
            time == self.options.start_time
        } else {
            exists|spacing_secs: i64| #[trigger]
                call_ensures(
                    P::target_spacing_secs,
                    (&parts, &self.network, self.new_height()),
                    spacing_secs,
                ) && self.is_spaced(time, spacing_secs as int)
        }
    }

    /// Whether the next block would lie past the end of the calendar.
    pub open spec fn is_out_of_time(self, parts: P) -> bool {
        self.blocks@.len() > 0 && exists|spacing_secs: i64| #[trigger]
            call_ensures(
                P::target_spacing_secs,
                (&parts, &self.network, self.new_height()),
                spacing_secs,
            ) && !self.can_time(spacing_secs as int)
    }

    /// Whether `coinbase` is the coinbase transaction of the next block: it shares the block
    /// subsidy among the funded keys.
    pub open spec fn is_next_coinbase(self, parts: P, coinbase: CoinbasePlan) -> bool {
        exists|subsidy: Amount, outputs: Seq<(i64, Script)>|
            {
                &&& #[trigger] call_ensures(
                    P::block_subsidy,
                    (&parts, &self.network, self.new_height()),
                    Ok::<Amount, String>(subsidy),
                )
                &&& #[trigger] pays_shares(outputs, subsidy.value(), self.funded_keys@)
                &&& coinbase.is_for(self.network.activation_heights, self.new_height(), outputs)
            }
    }

    /// Whether these are the transactions of the next block: the coinbase transaction, and then
    /// `extra_txs`.
    pub open spec fn are_next_transactions(
        self,
        parts: P,
        extra_txs: Seq<P::Transaction>,
        transactions: Seq<P::Transaction>,
    ) -> bool {
        exists|coinbase: CoinbasePlan, transaction: P::Transaction|
            {
                &&& self.is_next_coinbase(parts, coinbase)
                &&& #[trigger] call_ensures(
                    P::coinbase_transaction,
                    (&parts, &self.network, &coinbase),
                    transaction,
                )
                &&& transactions == seq![transaction] + extra_txs
            }
    }

    /// Whether `tree` holds the Orchard note commitments of the chain and of these transactions.
    pub open spec fn is_next_orchard_tree(
        self,
        parts: P,
        transactions: Seq<P::Transaction>,
        tree: P::OrchardTree,
    ) -> bool {
        exists|notes: Seq<[u8; 32]>| #[trigger]
            are_notes(parts, transactions, notes) && is_noted(parts, self.orchard_tree, notes, tree)
    }

    /// Whether `header` is that of the next block, which holds these transactions.
    pub open spec fn is_next_header(
        self,
        parts: P,
        transactions: Vec<P::Transaction>,
        header: Header,
    ) -> bool {
        &&& header.previous_block_hash.0@ == tip_hash(self.checkpoints@)
        &&& call_ensures(P::merkle_root, (&parts, &transactions), header.merkle_root)
        &&& is_commitment(
            parts,
            self.network.activation_heights,
            self.new_height(),
            self.history_tree,
            transactions,
            self.sapling_root@,
            header.commitment_bytes,
        )
        &&& self.is_next_time(parts, header.time)
        &&& call_ensures(
            P::compact_difficulty,
            (&parts, &self.network.target_difficulty_limit),
            header.difficulty_threshold,
        )
        &&& header.nonce@ == Seq::new(32, |i: int| 0u8)
    }

    /// Whether `block` is the next block of this chain, with these transactions after the
    /// coinbase transaction.
    pub open spec fn is_next_block(
        self,
        parts: P,
        extra_txs: Seq<P::Transaction>,
        block: Block<P::Transaction>,
    ) -> bool {
        &&& self.are_next_transactions(parts, extra_txs, block.transactions@)
        &&& self.is_next_header(parts, block.transactions, block.header)
    }

    /// Whether this is the outcome of extending the chain history by `block`.
    pub open spec fn is_history_answer(
        self,
        parts: P,
        block: Block<P::Transaction>,
        orchard_tree: P::OrchardTree,
        answer: Result<P::HistoryTree, String>,
    ) -> bool {
        exists|orchard_root: [u8; 32]|
            {
                &&& #[trigger] call_ensures(P::orchard_root, (&parts, &orchard_tree), orchard_root)
                &&& call_ensures(
                    P::push_history,
                    (
                        &parts,
                        &self.network,
                        &self.history_tree,
                        &block,
                        &self.sapling_root,
                        &orchard_root,
                    ),
                    answer,
                )
            }
    }

    /// Whether the chain history cannot be extended by `block`, for this reason.
    pub open spec fn is_history_refusal(
        self,
        parts: P,
        block: Block<P::Transaction>,
        orchard_tree: P::OrchardTree,
        reason: String,
    ) -> bool {
        self.is_history_answer(parts, block, orchard_tree, Err(reason))
    }

    /// Whether this chain is `before` with one more block, which holds `extra_txs` after its
    /// coinbase transaction. The checkpoint holds the hash of the block.
    pub open spec fn extends(
        self,
        before: GeneratedLocalTestnet<P>,
        parts: P,
        extra_txs: Seq<P::Transaction>,
    ) -> bool {
        let block = self.blocks@.last();
        let hash = self.checkpoints@.last().1;
        &&& self.blocks@ == before.blocks@.push(block)
        &&& self.checkpoints@ == before.checkpoints@.push((before.new_height(), hash))
        &&& before.is_next_block(parts, extra_txs, block)
        &&& call_ensures(P::block_hash, (&parts, &block.header), hash)
        &&& before.is_next_orchard_tree(parts, block.transactions@, self.orchard_tree)
        &&& before.is_history_answer(parts, block, self.orchard_tree, Ok(self.history_tree))
        &&& self.sapling_root == before.sapling_root
        &&& self.network == before.network
        &&& self.funded_keys == before.funded_keys
        &&& self.options == before.options
    }

    /// Whether `error` is why the chain cannot be extended by a block with these transactions:
    /// the first thing that fails decides.
    pub open spec fn is_append_error(
        self,
        parts: P,
        extra_txs: Seq<P::Transaction>,
        error: LocalGenesisError,
    ) -> bool {
        match error {
            LocalGenesisError::Subsidy(reason) => call_ensures(
                P::block_subsidy,
                (&parts, &self.network, self.new_height()),
                Err::<Amount, String>(reason),
            ),
            LocalGenesisError::Parameters(reason) => exists|
                transactions: Seq<P::Transaction>,
                notes: Seq<[u8; 32]>,
            |
                {
                    &&& self.are_next_transactions(parts, extra_txs, transactions)
                    &&& #[trigger] are_notes(parts, transactions, notes)
                    &&& is_note_refused(parts, self.orchard_tree, notes, reason)
                },
            LocalGenesisError::TimeOutOfRange(height) => {
                &&& self.takes_notes(parts, extra_txs)
                &&& self.is_out_of_time(parts)
                &&& height == self.new_height()
            },
            LocalGenesisError::MissingHistoryTree(height) => {
                &&& self.takes_notes(parts, extra_txs)
                &&& exists|time: Timestamp| #[trigger] self.is_next_time(parts, time)
                &&& lacks_history(
                    parts,
                    self.network.activation_heights,
                    self.new_height(),
                    self.history_tree,
                    self.sapling_root@,
                )
                &&& height == self.new_height()
            },
            LocalGenesisError::HistoryTree(reason) => self.refuses_next_block(
                parts,
                extra_txs,
                reason,
            ),
            _ => false,
        }
    }

    /// Whether the next block can be built, but the chain history cannot be extended by it, for
    /// this reason.
    pub open spec fn refuses_next_block(
        self,
        parts: P,
        extra_txs: Seq<P::Transaction>,
        reason: String,
    ) -> bool {
        exists|block: Block<P::Transaction>, tree: P::OrchardTree|
            {
                &&& self.is_next_block(parts, extra_txs, block)
                &&& self.is_next_orchard_tree(parts, block.transactions@, tree)
                &&& #[trigger] self.is_history_refusal(parts, block, tree, reason)
            }
    }

    /// Whether the note commitments of the next block can be appended.
    pub open spec fn takes_notes(self, parts: P, extra_txs: Seq<P::Transaction>) -> bool {
        exists|transactions: Seq<P::Transaction>, tree: P::OrchardTree|
            {
                &&& self.are_next_transactions(parts, extra_txs, transactions)
                &&& #[trigger] self.is_next_orchard_tree(parts, transactions, tree)
            }
    }

    /// Whether this chain is `before` with the network that its options, its genesis block and
    /// its checkpoints give, and that `parts` accept.
    pub open spec fn is_rebuilt(self, before: GeneratedLocalTestnet<P>, parts: P) -> bool {
        &&& self.network.is_for(before.options, before.checkpoints@[0].1.0@, before.checkpoints@)
        &&& call_ensures(P::network_fault, (&parts, &self.network), None::<String>)
        &&& self.blocks == before.blocks
        &&& self.checkpoints == before.checkpoints
        &&& self.funded_keys == before.funded_keys
        &&& self.history_tree == before.history_tree
        &&& self.sapling_root == before.sapling_root
        &&& self.orchard_tree == before.orchard_tree
        &&& self.options == before.options
    }

    /// Whether this chain has just been started for these trimmed names and options.
    pub open spec fn is_start(
        self,
        names: Seq<Seq<char>>,
        options: LocalTestnetGenesisOptions,
        parts: P,
    ) -> bool {
        &&& self.wf()
        &&& self.options == options
        &&& self.blocks@.len() == 0
        &&& call_ensures(P::empty_history, (&parts,), self.history_tree)
        &&& call_ensures(P::sapling_root, (&parts,), self.sapling_root)
        &&& call_ensures(P::empty_orchard_tree, (&parts,), self.orchard_tree)
        &&& self.funded_keys@.len() == names.len()
        &&& forall|i: int|
            0 <= i < names.len() ==> (#[trigger] self.funded_keys@[i]).is_for(
                names[i],
                NetworkKind::Testnet,
            )
        &&& self.network.genesis_hash.0@ == placeholder_hash()
        &&& is_placeholder(self.network.checkpoints@)
        &&& call_ensures(P::network_fault, (&parts, &self.network), None::<String>)
    }

    /// Whether this chain was generated for these trimmed names and options: from its start,
    /// genesis and the premined blocks were appended one by one, and then its network was
    /// rebuilt.
    pub open spec fn is_generated(
        self,
        names: Seq<Seq<char>>,
        options: LocalTestnetGenesisOptions,
        parts: P,
    ) -> bool {
        exists|chains: Seq<GeneratedLocalTestnet<P>>|
            {
                &&& #[trigger] is_growth(chains, names, options, parts)
                &&& chains.len() == options.premined_block_count + 2
                &&& self.is_rebuilt(chains.last(), parts)
            }
    }

    /// The generated genesis block.
    pub fn genesis_block(&self) -> (block: &Block<P::Transaction>)
        requires
            self.blocks@.len() > 0,
        ensures
            *block == self.blocks@[0],
    {
        &self.blocks[0]
    }

    /// The generated genesis block in hex-encoded serialized form, or why it could not be
    /// serialized.
    pub fn genesis_hex<E, F: FnOnce(&Block<P::Transaction>) -> Result<Vec<u8>, E>>(
        &self,
        serialize: F,
    ) -> (hex: Result<String, E>)
        requires
            self.blocks@.len() > 0,
            call_requires(serialize, (&self.blocks@[0],)),
        ensures
            match hex {
                Ok(text) => exists|bytes: Vec<u8>|
                    call_ensures(serialize, (&self.blocks@[0],), Ok::<Vec<u8>, E>(bytes)) && text@
                        == #[trigger] hex_lower(bytes@),
                Err(error) => call_ensures(
                    serialize,
                    (&self.blocks@[0],),
                    Err::<Vec<u8>, E>(error),
                ),
            },
    {
        let serialized = serialize(self.genesis_block());
        match serialized {
            Ok(bytes) => {
                let text = hex_encode(bytes.as_slice());
                Ok(text)
            },
            Err(error) => Err(error),
        }
    }

    /// The root of the Orchard note commitments in the chain.
    pub fn orchard_tree_root(&self, parts: &P) -> (root: [u8; 32])
        ensures
            call_ensures(P::orchard_root, (parts, &self.orchard_tree), root),
    {
        parts.orchard_root(&self.orchard_tree)
    }

    /// The scripts that pay to the funded keys.
    pub fn funded_scripts(&self) -> (scripts: Vec<Script>)
        ensures
            scripts@.len() == self.funded_keys@.len(),
            forall|i: int|
                0 <= i < scripts@.len() ==> (#[trigger] scripts@[i]).0@ == pay_to_hash(
                    self.funded_keys@[i].address.pub_key_hash@,
                ),
    {
        let mut scripts: Vec<Script> = Vec::new();
        let mut i: usize = 0;
        while i < self.funded_keys.len()
            invariant
                i <= self.funded_keys@.len(),
                scripts@.len() == i,
                forall|k: int|
                    0 <= k < i ==> (#[trigger] scripts@[k]).0@ == pay_to_hash(
                        self.funded_keys@[k].address.pub_key_hash@,
                    ),
            decreases self.funded_keys.len() - i,
        {
            scripts.push(self.funded_keys[i].address.script());
            i += 1;
        }
        scripts
    }

    /// The time of the next block, or `None` where it lies past the end of the calendar.
    fn next_time(&self, parts: &P) -> (time: Option<Timestamp>)
        requires
            self.wf(),
            self.has_room(),
        ensures
            match time {
                Some(time) => self.is_next_time(*parts, time),
                None => self.is_out_of_time(*parts),
            },
    {
        let count = self.blocks.len();
        if count == 0 {
            return Some(self.options.start_time);
        }
        let spacing_secs = parts.target_spacing_secs(&self.network, Height(count as u32));
        self.blocks[count - 1].header.time.moved_by(spacing_secs)
    }

    /// The hash that the next block gives for the block before it.
    fn next_previous_hash(&self) -> (hash: BlockHash)
        ensures
            hash.0@ == tip_hash(self.checkpoints@),
    {
        let count = self.checkpoints.len();
        if count == 0 {
            let zeros: [u8; 32] = [0;32];
            assert(zeros@ =~= genesis_previous_hash());
            BlockHash(zeros)
        } else {
            self.checkpoints[count - 1].1
        }
    }

    /// The transactions of the next block: a coinbase transaction that shares the block subsidy
    /// among the funded keys, and then `extra_txs`.
    fn next_transactions(&self, parts: &P, extra_txs: Vec<P::Transaction>) -> (transactions: Result<
        Vec<P::Transaction>,
        LocalGenesisError,
    >)
        requires
            self.wf(),
            self.has_room(),
        ensures
            match transactions {
                Ok(transactions) => self.are_next_transactions(
                    *parts,
                    extra_txs@,
                    transactions@,
                ),
                Err(error) => error is Subsidy && self.is_append_error(*parts, extra_txs@, error),
            },
    {
        let height = Height(self.blocks.len() as u32);
        let subsidy = match parts.block_subsidy(&self.network, height) {
            Ok(subsidy) => subsidy,
            Err(reason) => {
                return Err(LocalGenesisError::Subsidy(reason));
            },
        };
        let scripts = self.funded_scripts();
        let outputs = distribute_subsidy(subsidy.zatoshis(), &scripts);
        assert(pays_shares(outputs@, subsidy.value(), self.funded_keys@));
        let coinbase = coinbase_transaction_for_height(
            &self.network.activation_heights,
            height,
            outputs,
        );
        assert(self.is_next_coinbase(*parts, coinbase));
        let mut transactions: Vec<P::Transaction> = Vec::new();
        transactions.push(parts.coinbase_transaction(&self.network, &coinbase));
        let ghost first = transactions@[0];
        let mut rest = extra_txs;
        transactions.append(&mut rest);
        assert(transactions@ =~= seq![first] + extra_txs@);
        Ok(transactions)
    }

    /// Appends a new block with a coinbase transaction and `extra_txs`.
    ///
    /// The coinbase transaction distributes the block subsidy among the funded keys. The Orchard
    /// note commitments of all transactions are added to the chain's. Where a block cannot be
    /// appended, the chain stays as it is.
    fn append_next(&mut self, parts: &P, extra_txs: Vec<P::Transaction>) -> (appended: Result<
        Height,
        LocalGenesisError,
    >)
        requires
            old(self).wf(),
            old(self).has_room(),
        ensures
            final(self).wf(),
            match appended {
                Ok(height) => height == old(self).new_height() && final(self).extends(
                    *old(self),
                    *parts,
                    extra_txs@,
                ),
                Err(error) => *final(self) == *old(self) && old(self).is_append_error(
                    *parts,
                    extra_txs@,
                    error,
                ),
            },
    {
        let ghost extra = extra_txs@;
        let height = Height(self.blocks.len() as u32);
        let transactions = match self.next_transactions(parts, extra_txs) {
            Ok(transactions) => transactions,
            Err(error) => {
                return Err(error);
            },
        };
        let notes = notes_of(parts, &transactions);
        let new_tree = match append_notes(parts, &self.orchard_tree, &notes) {
            Ok(tree) => tree,
            Err(reason) => {
                return Err(LocalGenesisError::Parameters(reason));
            },
        };
        let ghost orchard_tree = tree_after(self.orchard_tree, new_tree);
        assert(self.is_next_orchard_tree(*parts, transactions@, orchard_tree));
        let orchard_root = match &new_tree {
            Some(tree) => parts.orchard_root(tree),
            None => parts.orchard_root(&self.orchard_tree),
        };
        let time = match self.next_time(parts) {
            Some(time) => time,
            None => {
                return Err(LocalGenesisError::TimeOutOfRange(height));
            },
        };
        let commitment_bytes = match block_commitment_bytes_for_height(
            &self.network.activation_heights,
            height,
            &self.history_tree,
            &transactions,
            self.sapling_root,
            parts,
        ) {
            Ok(bytes) => bytes,
            Err(error) => {
                return Err(error);
            },
        };
        let nonce: [u8; 32] = [0;32];
        assert(nonce@ =~= Seq::new(32, |i: int| 0u8));
        let header = Header {
            previous_block_hash: self.next_previous_hash(),
            merkle_root: parts.merkle_root(&transactions),
            commitment_bytes,
            time,
            difficulty_threshold: parts.compact_difficulty(&self.network.target_difficulty_limit),
            nonce,
        };
        let block = Block { header, transactions };
        assert(self.is_next_block(*parts, extra, block));
        let hash = parts.block_hash(&block.header);
        let answer = parts.push_history(
            &self.network,
            &self.history_tree,
            &block,
            &self.sapling_root,
            &orchard_root,
        );
        assert(self.is_history_answer(*parts, block, orchard_tree, answer));
        let history_tree = match answer {
            Ok(history_tree) => history_tree,
            Err(reason) => {
                assert(self.is_history_refusal(*parts, block, orchard_tree, reason));
                assert(self.refuses_next_block(*parts, extra, reason));
                return Err(LocalGenesisError::HistoryTree(reason));
            },
        };
        self.history_tree = history_tree;
        if let Some(tree) = new_tree {
            self.orchard_tree = tree;
        }
        self.checkpoints.push((height, hash));
        self.blocks.push(block);
        Ok(height)
    }

    /// Appends a new block with a coinbase transaction and `extra_txs` to a generated chain.
    ///
    /// The coinbase transaction distributes the block subsidy among the funded keys. The Orchard
    /// note commitments of all transactions are added to the chain's, so that
    /// [`Self::orchard_tree_root`] reflects them. Where a block cannot be appended, the chain
    /// stays as it is.
    ///
    /// Returns the height of the new block.
    pub fn append_block(&mut self, parts: &P, extra_txs: Vec<P::Transaction>) -> (appended: Result<
        Height,
        LocalGenesisError,
    >)
        requires
            old(self).wf(),
            old(self).has_room(),
            old(self).blocks@.len() > 0,
        ensures
            final(self).wf(),
            match appended {
                Ok(height) => height == old(self).new_height() && final(self).extends(
                    *old(self),
                    *parts,
                    extra_txs@,
                ),
                Err(error) => *final(self) == *old(self) && old(self).is_append_error(
                    *parts,
                    extra_txs@,
                    error,
                ),
            },
    {
        self.append_next(parts, extra_txs)
    }

    /// Rebuilds the network parameters with the genesis block and the checkpoints of the
    /// chain.
    ///
    /// Nodes need them to validate a chain that blocks were appended to. Where `parts` refuse
    /// them, the chain stays as it is.
    pub fn rebuild_network(&mut self, parts: &P) -> (rebuilt: Result<(), LocalGenesisError>)
        requires
            old(self).wf(),
            old(self).blocks@.len() > 0,
        ensures
            final(self).wf(),
            match rebuilt {
                Ok(()) => final(self).is_rebuilt(*old(self), *parts),
                Err(error) => {
                    &&& *final(self) == *old(self)
                    &&& is_network_error(
                        *parts,
                        old(self).options,
                        old(self).checkpoints@[0].1.0@,
                        old(self).checkpoints@,
                        error,
                    )
                },
            },
    {
        let checkpoints = copy_checkpoints(&self.checkpoints);
        match build_network_parameters(&self.options, self.checkpoints[0].1, checkpoints, parts) {
            Ok(network) => {
                self.network = network;
                Ok(())
            },
            Err(error) => Err(error),
        }
    }
}

/// Whether `chains` are what a chain goes through while blocks without further transactions are
/// appended one by one, from the start for these trimmed names and options.
pub open spec fn is_growth<P: ChainParts>(
    chains: Seq<GeneratedLocalTestnet<P>>,
    names: Seq<Seq<char>>,
    options: LocalTestnetGenesisOptions,
    parts: P,
) -> bool {
    &&& 0 < chains.len() <= u32::MAX + 2
    &&& chains[0].is_start(names, options, parts)
    &&& forall|i: int|
        0 < i < chains.len() ==> (#[trigger] chains[i]).extends(
            chains[i - 1],
            parts,
            Seq::empty(),
        )
}

/// Whether `error` is why generation for these trimmed names and options failed: a chain cannot
/// be generated for them, its network is refused before genesis is known, a block cannot be
/// appended, or its network is refused at the end.
pub open spec fn is_generation_failure<P: ChainParts>(
    names: Seq<Seq<char>>,
    options: LocalTestnetGenesisOptions,
    parts: P,
    error: LocalGenesisError,
) -> bool {
    if !can_generate(names, options) {
        is_generation_error(names, options, error)
    } else {
        ||| exists|checkpoints: Seq<(Height, BlockHash)>| #[trigger]
            is_placeholder(checkpoints) && is_network_error(
                parts,
                options,
                placeholder_hash(),
                checkpoints,
                error,
            )
        ||| exists|chains: Seq<GeneratedLocalTestnet<P>>|
            {
                &&& #[trigger] is_growth(chains, names, options, parts)
                &&& chains.len() <= options.premined_block_count + 1
                &&& chains.last().is_append_error(parts, Seq::empty(), error)
            }
        ||| exists|chains: Seq<GeneratedLocalTestnet<P>>|
            {
                &&& #[trigger] is_growth(chains, names, options, parts)
                &&& chains.len() == options.premined_block_count + 2
                &&& is_network_error(
                    parts,
                    options,
                    chains.last().checkpoints@[0].1.0@,
                    chains.last().checkpoints@,
                    error,
                )
            }
    }
}

/// The tree that is left where another one may take the place of `before`.
spec fn tree_after<T>(before: T, after: Option<T>) -> T {
    match after {
        Some(tree) => tree,
        None => before,
    }
}

/// The Orchard note commitments of the transactions, in order.
fn notes_of<P: ChainParts>(parts: &P, transactions: &Vec<P::Transaction>) -> (notes: Vec<[u8; 32]>)
    ensures
        are_notes(*parts, transactions@, notes@),
{
    let mut notes: Vec<[u8; 32]> = Vec::new();
    let ghost mut lists: Seq<Vec<[u8; 32]>> = Seq::empty();
    let mut i: usize = 0;
    while i < transactions.len()
        invariant
            i <= transactions@.len(),
            notes@ == flat(lists),
            lists.len() == i,
            forall|k: int|
                0 <= k < i ==> call_ensures(
                    P::orchard_note_commitments,
                    (parts, &transactions@[k]),
                    #[trigger] lists[k],
                ),
        decreases transactions.len() - i,
    {
        let list = parts.orchard_note_commitments(&transactions[i]);
        proof {
            let longer = lists.push(list);
            assert(longer.drop_last() =~= lists);
            lists = longer;
        }
        let mut rest = list;
        notes.append(&mut rest);
        i += 1;
    }
    notes
}

/// Appends note commitments to a tree, one by one. `None` stands for the tree itself, where
/// there is nothing to append.
fn append_notes<P: ChainParts>(
    parts: &P,
    before: &P::OrchardTree,
    notes: &Vec<[u8; 32]>,
) -> (appended: Result<Option<P::OrchardTree>, String>)
    ensures
        match appended {
            Ok(after) => is_noted(*parts, *before, notes@, tree_after(*before, after)),
            Err(reason) => is_note_refused(*parts, *before, notes@, reason),
        },
{
    let mut after: Option<P::OrchardTree> = None;
    let ghost mut trees: Seq<P::OrchardTree> = seq![*before];
    let mut i: usize = 0;
    while i < notes.len()
        invariant
            i <= notes@.len(),
            are_tree_steps(*parts, notes@.take(i as int), trees),
            trees[0] == *before,
            trees.last() == tree_after(*before, after),
        decreases notes.len() - i,
    {
        let answer = match &after {
            Some(tree) => parts.append_note(tree, &notes[i]),
            None => parts.append_note(before, &notes[i]),
        };
        assert(call_ensures(P::append_note, (parts, &trees.last(), &notes@[i as int]), answer));
        match answer {
            Ok(next) => {
                proof {
                    let shorter = notes@.take(i as int);
                    let longer = notes@.take(i + 1);
                    assert forall|k: int| 0 <= k < longer.len() implies call_ensures(
                        P::append_note,
                        (parts, &trees.push(next)[k], &#[trigger] longer[k]),
                        Ok::<P::OrchardTree, String>(trees.push(next)[k + 1]),
                    ) by {
                        if k < i {
                            assert(longer[k] == shorter[k]);
                        }
                    }
                    trees = trees.push(next);
                }
                after = Some(next);
            },
            Err(reason) => {
                assert(is_noted(*parts, *before, notes@.take(i as int), trees.last()));
                return Err(reason);
            },
        }
        i += 1;
    }
    assert(notes@.take(i as int) =~= notes@);
    Ok(after)
}

/// A copy of the checkpoints.
fn copy_checkpoints(checkpoints: &Vec<(Height, BlockHash)>) -> (copy: Vec<(Height, BlockHash)>)
    ensures
        copy@ == checkpoints@,
{
    let mut copy: Vec<(Height, BlockHash)> = Vec::new();
    let mut i: usize = 0;
    while i < checkpoints.len()
        invariant
            i <= checkpoints@.len(),
            copy@ == checkpoints@.take(i as int),
        decreases checkpoints.len() - i,
    {
        copy.push(checkpoints[i]);
        i += 1;
    }
    copy
}

/// Derives the funded keys of the names, on Testnet, or gives the first name that has none.
fn funded_keys_from_names(names: &Vec<String>) -> (keys: Result<Vec<FundedKeyMaterial>, String>)
    ensures
        match keys {
            Ok(keys) => {
                &&& first_keyless_name(views(names@), 0) is None
                &&& keys@.len() == names@.len()
                &&& forall|i: int|
                    0 <= i < names@.len() ==> (#[trigger] keys@[i]).is_for(
                        names@[i]@,
                        NetworkKind::Testnet,
                    )
            },
            Err(name) => first_keyless_name(views(names@), 0) matches Some(i) && name@ == views(
                names@,
            )[i],
        },
{
    let mut keys: Vec<FundedKeyMaterial> = Vec::new();
    let ghost all = views(names@);
    let mut i: usize = 0;
    while i < names.len()
        invariant
            i <= names@.len(),
            all == views(names@),
            first_keyless_name(all, 0) == first_keyless_name(all, i as int),
            keys@.len() == i,
            forall|k: int|
                0 <= k < i ==> (#[trigger] keys@[k]).is_for(names@[k]@, NetworkKind::Testnet),
        decreases names.len() - i,
    {
        match funded_key_from_name(names[i].as_str(), NetworkKind::Testnet) {
            Some(key) => keys.push(key),
            None => {
                return Err(names[i].clone());
            },
        }
        i += 1;
    }
    Ok(keys)
}

/// Starts a chain: derives the funded keys and builds a network with a placeholder for genesis.
fn start_chain<P: ChainParts>(
    names: &Vec<String>,
    options: LocalTestnetGenesisOptions,
    parts: &P,
) -> (started: Result<GeneratedLocalTestnet<P>, LocalGenesisError>)
    requires
        names@.len() <= i64::MAX,
    ensures
        match started {
            Ok(chain) => can_generate(trimmed_names(names@), options) && chain.is_start(
                trimmed_names(names@),
                options,
                *parts,
            ),
            Err(error) => is_generation_failure(trimmed_names(names@), options, *parts, error),
        },
{
    if !options.disable_pow {
        return Err(LocalGenesisError::UnsupportedPowMode);
    }
    if options.latest_upgrade_height.0 == 0 {
        return Err(LocalGenesisError::InvalidLatestUpgradeHeight);
    }
    let ordered = match ordered_names(names) {
        Ok(ordered) => ordered,
        Err(error) => {
            return Err(error);
        },
    };
    let funded_keys = match funded_keys_from_names(&ordered) {
        Ok(keys) => keys,
        Err(name) => {
            return Err(LocalGenesisError::ExhaustedDerivation(name));
        },
    };
    let placeholder = BlockHash([1;32]);
    assert(placeholder.0@ =~= placeholder_hash());
    let mut checkpoints: Vec<(Height, BlockHash)> = Vec::new();
    checkpoints.push((Height(0), placeholder));
    assert(is_placeholder(checkpoints@));
    let network = match build_network_parameters(&options, placeholder, checkpoints, parts) {
        Ok(network) => network,
        Err(error) => {
            return Err(error);
        },
    };
    Ok(
        GeneratedLocalTestnet {
            network,
            funded_keys,
            blocks: Vec::new(),
            checkpoints: Vec::new(),
            history_tree: parts.empty_history(),
            sapling_root: parts.sapling_root(),
            orchard_tree: parts.empty_orchard_tree(),
            options,
        },
    )
}

/// Generates a configured local Testnet chain and deterministic funded keys from `names`.
///
/// The chain holds genesis and as many blocks more as the options ask for.
pub fn generate_local_testnet_with_funded_keys<P: ChainParts>(
    names: &Vec<String>,
    options: LocalTestnetGenesisOptions,
    parts: &P,
) -> (generated: Result<GeneratedLocalTestnet<P>, LocalGenesisError>)
    requires
        names@.len() <= i64::MAX,
    ensures
        match generated {
            Ok(chain) => {
                &&& can_generate(trimmed_names(names@), options)
                &&& chain.is_generated(trimmed_names(names@), options, *parts)
                &&& chain.wf()
                &&& chain.blocks@.len() == options.premined_block_count + 1
                &&& chain.is_hashed(*parts)
                &&& chain.network.is_for(
                    options,
                    chain.checkpoints@[0].1.0@,
                    chain.checkpoints@,
                )
            },
            Err(error) => is_generation_failure(trimmed_names(names@), options, *parts, error),
        },
{
    let count = options.premined_block_count;
    let mut chain = match start_chain(names, options, parts) {
        Ok(chain) => chain,
        Err(error) => {
            return Err(error);
        },
    };
    let ghost all = trimmed_names(names@);
    let ghost mut chains: Seq<GeneratedLocalTestnet<P>> = seq![chain];
    while chain.blocks.len() as u64 <= count as u64
        invariant
            count == options.premined_block_count,
            all == trimmed_names(names@),
            can_generate(all, options),
            is_growth(chains, all, options, *parts),
            chains.last() == chain,
            chain.wf(),
            chain.options == options,
            chain.is_hashed(*parts),
            chain.blocks@.len() + 1 == chains.len(),
            chain.blocks@.len() <= count + 1,
        decreases count + 1 - chain.blocks.len(),
    {
        let ghost before = chain;
        match chain.append_next(parts, Vec::new()) {
            Ok(_) => {
                proof {
                    law_appended_blocks_are_linked(before, chain, *parts, Seq::empty());
                    chains = chains.push(chain);
                }
            },
            Err(error) => {
                return Err(error);
            },
        }
    }
    match chain.rebuild_network(parts) {
        Ok(()) => Ok(chain),
        Err(error) => Err(error),
    }
}

/// Generates a local Testnet chain with the default options.
pub fn generate_local_testnet<P: ChainParts>(names: &Vec<String>, parts: &P) -> (generated: Result<
    GeneratedLocalTestnet<P>,
    LocalGenesisError,
>)
    requires
        names@.len() <= i64::MAX,
    ensures
        exists|options: LocalTestnetGenesisOptions| #[trigger]
            options.is_default() && match generated {
                Ok(chain) => {
                    &&& can_generate(trimmed_names(names@), options)
                    &&& chain.is_generated(trimmed_names(names@), options, *parts)
                    &&& chain.wf()
                    &&& chain.blocks@.len() == options.premined_block_count + 1
                    &&& chain.is_hashed(*parts)
                    &&& chain.network.is_for(
                        options,
                        chain.checkpoints@[0].1.0@,
                        chain.checkpoints@,
                    )
                },
                Err(error) => is_generation_failure(
                    trimmed_names(names@),
                    options,
                    *parts,
                    error,
                ),
            },
{
    let options = LocalTestnetGenesisOptions::default();
    generate_local_testnet_with_funded_keys(names, options, parts)
}

/// Appending a block keeps the checkpoints the hashes of the blocks, and the blocks linked.
pub proof fn law_appended_blocks_are_linked<P: ChainParts>(
    before: GeneratedLocalTestnet<P>,
    after: GeneratedLocalTestnet<P>,
    parts: P,
    extra_txs: Seq<P::Transaction>,
)
    requires
        before.wf(),
        before.is_hashed(parts),
        after.extends(before, parts, extra_txs),
    ensures
        after.is_hashed(parts),
{
    assert forall|i: int| 0 <= i < after.blocks@.len() implies {
        &&& call_ensures(
            P::block_hash,
            (&parts, &(#[trigger] after.blocks@[i]).header),
            after.checkpoints@[i].1,
        )
        &&& after.blocks@[i].header.previous_block_hash.0@ == tip_hash(after.checkpoints@.take(i))
    } by {
        if i < before.blocks@.len() {
            assert(after.blocks@[i] == before.blocks@[i]);
            assert(after.checkpoints@.take(i) =~= before.checkpoints@.take(i));
        } else {
            assert(after.checkpoints@.take(i) =~= before.checkpoints@);
        }
    }
}

}
