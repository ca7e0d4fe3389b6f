//! What a block holds that is appended to a generated chain, and what the chain holds afterwards.

use crate::chain_parts::ChainParts;
use crate::generated_chain::{
    are_notes, are_tree_steps, flat, is_noted, pays_shares, GeneratedLocalTestnet,
};
use crate::generation_laws::refuse_note;
use crate::keys::Script;
use crate::local_genesis::{
    block_commitment_bytes_for_height, commitment_at, is_commitment, is_history_commitment, Amount,
    Block, CoinbasePlan, CoinbaseVersion, LocalGenesisError, Network,
};
use crate::local_genesis_laws::{
    law_subsidy_is_paid_in_full, law_subsidy_is_split_evenly, total_paid,
};
use crate::network::{ConfiguredActivationHeights, Height, NetworkUpgrade};
use crate::timestamp::Timestamp;
use vstd::prelude::*;

verus! {

/// The sum of the amounts that the outputs pay.
pub open spec fn amounts_sum(outputs: Seq<(i64, Script)>) -> int {
    outputs.fold_left(0int, |sum: int, output: (i64, Script)| sum + output.0)
}

/// The sum of the amounts is the same whether it is taken in order or from the end.
pub proof fn lemma_amounts_sum(outputs: Seq<(i64, Script)>)
    ensures
        amounts_sum(outputs) == total_paid(outputs),
    decreases outputs.len(),
{
    if outputs.len() > 0 {
        lemma_amounts_sum(outputs.drop_last());
    }
}

/// An appended block comes right above the chain, which stays as it is below. The block names
/// the last one, and it holds its coinbase transaction and then the given transactions, in order.
/// Where it is refused, nothing changes.
pub proof fn law_appended_block_comes_on_top<P: ChainParts>(
    chain: &mut GeneratedLocalTestnet<P>,
    parts: &P,
    extra_txs: Vec<P::Transaction>,
    appended: Result<Height, LocalGenesisError>,
)
    requires
        old(chain).blocks@.len() > 0,
        old(chain).blocks@.len() <= u32::MAX,
        old(chain).checkpoints@.len() == old(chain).blocks@.len(),
        call_ensures(
            GeneratedLocalTestnet::<P>::append_block,
            (chain, parts, extra_txs),
            appended,
        ),
    ensures
        final(chain).network == old(chain).network,
        final(chain).funded_keys == old(chain).funded_keys,
        final(chain).options == old(chain).options,
        final(chain).sapling_root == old(chain).sapling_root,
        appended is Err ==> *final(chain) == *old(chain),
        appended matches Ok(height) ==> {
            let count = old(chain).blocks@.len() as int;
            let block = final(chain).blocks@[count];
            let previous = old(chain).checkpoints@[count - 1].1;
            &&& height.0 == count
            &&& final(chain).blocks@.len() == count + 1
            &&& final(chain).blocks@.take(count) == old(chain).blocks@
            &&& final(chain).checkpoints@.len() == count + 1
            &&& final(chain).checkpoints@.take(count) == old(chain).checkpoints@
            &&& final(chain).checkpoints@[count].0 == height
            &&& call_ensures(
                P::block_hash,
                (parts, &block.header),
                final(chain).checkpoints@[count].1,
            )
            &&& block.header.previous_block_hash.0@ == previous.0@
            &&& block.transactions@.len() == extra_txs@.len() + 1
            &&& block.transactions@.skip(1) == extra_txs@
            &&& call_ensures(
                P::merkle_root,
                (parts, &block.transactions),
                block.header.merkle_root,
            )
            &&& call_ensures(
                P::compact_difficulty,
                (parts, &old(chain).network.target_difficulty_limit),
                block.header.difficulty_threshold,
            )
            &&& forall|i: int| 0 <= i < 32 ==> (#[trigger] block.header.nonce@[i]) == 0
        },
{
    if let Ok(height) = appended {
        let count = old(chain).blocks@.len() as int;
        let block = final(chain).blocks@[count];
        assert(final(chain).blocks@.take(count) =~= old(chain).blocks@);
        assert(final(chain).checkpoints@.take(count) =~= old(chain).checkpoints@);
        assert(block.transactions@.skip(1) =~= extra_txs@);
    }
}

/// The coinbase transaction of an appended block pays all of the block subsidy, and no more, to
/// the funded keys in their order, as evenly as it can be, with what is left over going to the
/// first ones. It is made for the height and the upgrade of the block.
pub proof fn law_appended_block_pays_the_funded_keys<P: ChainParts>(
    chain: &mut GeneratedLocalTestnet<P>,
    parts: &P,
    extra_txs: Vec<P::Transaction>,
    appended: Result<Height, LocalGenesisError>,
    height: Height,
    upgrade: NetworkUpgrade,
)
    requires
        old(chain).blocks@.len() > 0,
        old(chain).blocks@.len() <= u32::MAX,
        0 < old(chain).funded_keys@.len() <= i64::MAX,
        forall|network: Network, h: Height, subsidy: Amount|
            #[trigger] call_ensures(
                P::block_subsidy,
                (parts, &network, h),
                Ok::<Amount, String>(subsidy),
            ) ==> subsidy.value() >= 0,
        call_ensures(
            GeneratedLocalTestnet::<P>::append_block,
            (chain, parts, extra_txs),
            appended,
        ),
        appended == Ok::<Height, LocalGenesisError>(height),
        call_ensures(
            NetworkUpgrade::current,
            (&old(chain).network.activation_heights, height),
            upgrade,
        ),
    ensures
        exists|
            subsidy: Amount,
            version: CoinbaseVersion,
            outputs: Vec<(i64, Script)>,
            miner_data: Vec<u8>,
        |
            {
                &&& #[trigger] call_ensures(
                    P::block_subsidy,
                    (parts, &old(chain).network, height),
                    Ok::<Amount, String>(subsidy),
                )
                &&& #[trigger] call_ensures(
                    P::coinbase_transaction,
                    (
                        parts,
                        &old(chain).network,
                        &CoinbasePlan::Mined { version, height, outputs, miner_data },
                    ),
                    final(chain).blocks@.last().transactions@[0],
                )
                &&& amounts_sum(outputs@) == subsidy.value()
                &&& outputs@.len() == old(chain).funded_keys@.len()
                &&& forall|i: int, j: int|
                    0 <= i <= j < outputs@.len() ==> 0 <= (#[trigger] outputs@[j]).0 <= (
                    #[trigger] outputs@[i]).0 <= outputs@[j].0 + 1
                &&& forall|i: int|
                    #![trigger outputs@[i]]
                    0 <= i < outputs@.len() ==> {
                        let hash = old(chain).funded_keys@[i].address.pub_key_hash@;
                        outputs@[i].1.0@ == seq![0x76u8, 0xa9, 0x14] + hash + seq![0x88u8, 0xac]
                    }
                &&& miner_data@ == vstd::utf8::encode_utf8("zebra-local-genesis"@)
                &&& match upgrade {
                    NetworkUpgrade::Genesis | NetworkUpgrade::BeforeOverwinter
                    | NetworkUpgrade::Overwinter => version == CoinbaseVersion::V1,
                    NetworkUpgrade::Sapling | NetworkUpgrade::Blossom | NetworkUpgrade::Heartwood
                    | NetworkUpgrade::Canopy => version == CoinbaseVersion::V4,
                    _ => version == CoinbaseVersion::V5,
                }
            },
{
    let before = *old(chain);
    let after = *final(chain);
    let transactions = after.blocks@.last().transactions@;
    assert(before.are_next_transactions(*parts, extra_txs@, transactions));
    let (coinbase, transaction) = choose|coinbase: CoinbasePlan, transaction: P::Transaction|
        {
            &&& before.is_next_coinbase(*parts, coinbase)
            &&& #[trigger] call_ensures(
                P::coinbase_transaction,
                (parts, &before.network, &coinbase),
                transaction,
            )
            &&& transactions == seq![transaction] + extra_txs@
        };
    assert(transactions[0] == transaction);
    let (subsidy, outputs) = choose|subsidy: Amount, outputs: Seq<(i64, Script)>|
        {
            &&& #[trigger] call_ensures(
                P::block_subsidy,
                (parts, &before.network, before.new_height()),
                Ok::<Amount, String>(subsidy),
            )
            &&& #[trigger] pays_shares(outputs, subsidy.value(), before.funded_keys@)
            &&& coinbase.is_for(before.network.activation_heights, before.new_height(), outputs)
        };
    lemma_amounts_sum(outputs);
    law_subsidy_is_paid_in_full(outputs, subsidy.value());
    assert forall|i: int, j: int| 0 <= i <= j < outputs.len() implies 0 <= (
    #[trigger] outputs[j]).0 <= (#[trigger] outputs[i]).0 <= outputs[j].0 + 1 by {
        law_subsidy_is_split_evenly(subsidy.value(), outputs.len() as int, i, j);
    }
    match coinbase {
        CoinbasePlan::Mined { version, height: h, outputs: o, miner_data } => {
            assert(h == height);
            assert(coinbase == CoinbasePlan::Mined { version, height, outputs: o, miner_data });
        },
        CoinbasePlan::RegtestGenesis => {},
    }
}

/// An appended block comes as many seconds after the last one as the parts ask for at its height.
/// From a leap second on, they are counted from the second that it extends where they go forward,
/// and from the second after that where they go back.
pub proof fn law_appended_block_is_spaced<P: ChainParts>(
    chain: &mut GeneratedLocalTestnet<P>,
    parts: &P,
    extra_txs: Vec<P::Transaction>,
    appended: Result<Height, LocalGenesisError>,
    height: Height,
)
    requires
        old(chain).blocks@.len() > 0,
        old(chain).blocks@.len() <= u32::MAX,
        call_ensures(
            GeneratedLocalTestnet::<P>::append_block,
            (chain, parts, extra_txs),
            appended,
        ),
        appended == Ok::<Height, LocalGenesisError>(height),
    ensures
        exists|spacing: i64|
            {
                let earlier = old(chain).blocks@.last().header.time;
                let time = final(chain).blocks@.last().header.time;
                &&& #[trigger] call_ensures(
                    P::target_spacing_secs,
                    (parts, &old(chain).network, height),
                    spacing,
                )
                &&& earlier.nanos_view() < 1_000_000_000 ==> time.secs_view()
                    == earlier.secs_view() + spacing && time.nanos_view() == earlier.nanos_view()
                &&& earlier.nanos_view() >= 1_000_000_000 && spacing > 0 ==> time.secs_view()
                    == earlier.secs_view() + spacing && time.nanos_view() == earlier.nanos_view()
                    - 1_000_000_000
                &&& earlier.nanos_view() >= 1_000_000_000 && spacing < 0 ==> time.secs_view()
                    == earlier.secs_view() + 1 + spacing && time.nanos_view()
                    == earlier.nanos_view() - 1_000_000_000
                &&& spacing == 0 ==> time.secs_view() == earlier.secs_view() && time.nanos_view()
                    == earlier.nanos_view()
            },
{
    let before = *old(chain);
    let after = *final(chain);
    assert(before.is_next_time(*parts, after.blocks@.last().header.time));
}

/// Whether `bytes` are what a header commits to under `upgrade`: zeros before Sapling, the
/// Sapling root before Heartwood, and the root of the chain history from then on, with zeros in
/// its place in the block where Heartwood activates. From NU5 on, it is hashed together with the
/// authorizing data of the block, and the zeros stand only for a root that is missing.
pub open spec fn is_commitment_under<P: ChainParts>(
    parts: P,
    upgrade: NetworkUpgrade,
    history_starts: bool,
    history: P::HistoryTree,
    transactions: Vec<P::Transaction>,
    sapling_root: [u8; 32],
    bytes: [u8; 32],
) -> bool {
    match upgrade {
        NetworkUpgrade::Genesis | NetworkUpgrade::BeforeOverwinter
        | NetworkUpgrade::Overwinter => is_filled(bytes, 0),
        NetworkUpgrade::Sapling | NetworkUpgrade::Blossom => bytes@ == sapling_root@,
        NetworkUpgrade::Heartwood | NetworkUpgrade::Canopy => if history_starts {
            is_filled(bytes, 0)
        } else {
            exists|root: [u8; 32]| #[trigger]
                call_ensures(P::history_root, (&parts, &history), Some::<[u8; 32]>(root)) && bytes@
                    == root@
        },
        _ => exists|root: [u8; 32], auth: [u8; 32]|
            {
                &&& #[trigger] call_ensures(P::auth_data_root, (&parts, &transactions), auth)
                &&& #[trigger] call_ensures(P::block_commitment, (&parts, &root, &auth), bytes)
                &&& {
                    ||| has_root(parts, history, root)
                    ||| {
                        &&& history_starts
                        &&& is_filled(root, 0)
                        &&& call_ensures(P::history_root, (&parts, &history), None::<[u8; 32]>)
                    }
                }
            },
    }
}

/// Whether all of the bytes are `byte`.
pub open spec fn is_filled(bytes: [u8; 32], byte: u8) -> bool {
    forall|i: int| 0 <= i < 32 ==> (#[trigger] bytes@[i]) == byte
}

/// Whether the parts give `root` as the root of a chain history.
pub open spec fn has_root<P: ChainParts>(
    parts: P,
    history: P::HistoryTree,
    root: [u8; 32],
) -> bool {
    exists|given: [u8; 32]| #[trigger]
        call_ensures(P::history_root, (&parts, &history), Some::<[u8; 32]>(given)) && given@
            == root@
}

proof fn lemma_commitment<P: ChainParts>(
    parts: P,
    heights: ConfiguredActivationHeights,
    height: Height,
    upgrade: NetworkUpgrade,
    heartwood: Option<Height>,
    history: P::HistoryTree,
    transactions: Vec<P::Transaction>,
    sapling_root: [u8; 32],
    bytes: [u8; 32],
)
    requires
        upgrade == heights.upgrade_at(height),
        heartwood == heights.height_of(NetworkUpgrade::Heartwood),
        is_commitment(parts, heights, height, history, transactions, sapling_root@, bytes),
    ensures
        is_commitment_under(
            parts,
            upgrade,
            heartwood == Some(height),
            history,
            transactions,
            sapling_root,
            bytes,
        ),
{
    let answer = choose|root: Option<[u8; 32]>|
        {
            &&& #[trigger] call_ensures(P::history_root, (&parts, &history), root)
            &&& match commitment_at(heights, height, root, sapling_root@) {
                Some((false, contents)) => bytes@ == contents,
                Some((true, contents)) => is_history_commitment(
                    parts,
                    contents,
                    transactions,
                    bytes,
                ),
                None => false,
            }
        };
    if let Some((true, contents)) = commitment_at(heights, height, answer, sapling_root@) {
        let (root, auth) = choose|root: [u8; 32], auth: [u8; 32]|
            {
                &&& root@ == contents
                &&& #[trigger] call_ensures(P::auth_data_root, (&parts, &transactions), auth)
                &&& #[trigger] call_ensures(P::block_commitment, (&parts, &root, &auth), bytes)
            };
        assert(call_ensures(P::block_commitment, (&parts, &root, &auth), bytes));
    }
}

/// The commitment for a height follows the upgrade of the height. There is none exactly where it
/// would be to a chain history that has no root, in a block after the one where Heartwood
/// activates.
pub proof fn law_commitment_follows_the_upgrade<P: ChainParts>(
    heights: &ConfiguredActivationHeights,
    height: Height,
    history: &P::HistoryTree,
    transactions: &Vec<P::Transaction>,
    sapling_root: [u8; 32],
    parts: &P,
    commitment: Result<[u8; 32], LocalGenesisError>,
    upgrade: NetworkUpgrade,
    heartwood: Option<Height>,
)
    requires
        call_ensures(
            block_commitment_bytes_for_height::<P>,
            (heights, height, history, transactions, sapling_root, parts),
            commitment,
        ),
        call_ensures(NetworkUpgrade::current, (heights, height), upgrade),
        call_ensures(
            NetworkUpgrade::activation_height,
            (NetworkUpgrade::Heartwood, heights),
            heartwood,
        ),
    ensures
        match commitment {
            Ok(bytes) => is_commitment_under(
                *parts,
                upgrade,
                heartwood == Some(height),
                *history,
                *transactions,
                sapling_root,
                bytes,
            ),
            Err(error) => {
                &&& error == LocalGenesisError::MissingHistoryTree(height)
                &&& heartwood != Some(height)
                &&& upgrade != NetworkUpgrade::Genesis
                &&& upgrade != NetworkUpgrade::BeforeOverwinter
                &&& upgrade != NetworkUpgrade::Overwinter
                &&& upgrade != NetworkUpgrade::Sapling
                &&& upgrade != NetworkUpgrade::Blossom
                &&& call_ensures(P::history_root, (parts, history), None::<[u8; 32]>)
            },
        },
{
    if let Ok(bytes) = commitment {
        lemma_commitment(
            *parts,
            *heights,
            height,
            upgrade,
            heartwood,
            *history,
            *transactions,
            sapling_root,
            bytes,
        );
    }
}

/// The header of an appended block commits to the chain history below the block, and to the
/// block's own authorizing data, as the upgrade of its height asks for.
pub proof fn law_appended_block_commits_to_the_chain<P: ChainParts>(
    chain: &mut GeneratedLocalTestnet<P>,
    parts: &P,
    extra_txs: Vec<P::Transaction>,
    appended: Result<Height, LocalGenesisError>,
    height: Height,
    upgrade: NetworkUpgrade,
    heartwood: Option<Height>,
)
    requires
        old(chain).blocks@.len() > 0,
        old(chain).blocks@.len() <= u32::MAX,
        call_ensures(
            GeneratedLocalTestnet::<P>::append_block,
            (chain, parts, extra_txs),
            appended,
        ),
        appended == Ok::<Height, LocalGenesisError>(height),
        call_ensures(
            NetworkUpgrade::current,
            (&old(chain).network.activation_heights, height),
            upgrade,
        ),
        call_ensures(
            NetworkUpgrade::activation_height,
            (NetworkUpgrade::Heartwood, &old(chain).network.activation_heights),
            heartwood,
        ),
    ensures
        is_commitment_under(
            *parts,
            upgrade,
            heartwood == Some(height),
            old(chain).history_tree,
            final(chain).blocks@.last().transactions,
            old(chain).sapling_root,
            final(chain).blocks@.last().header.commitment_bytes,
        ),
{
    let before = *old(chain);
    let block = final(chain).blocks@.last();
    lemma_commitment(
        *parts,
        before.network.activation_heights,
        height,
        upgrade,
        heartwood,
        before.history_tree,
        block.transactions,
        before.sapling_root,
        block.header.commitment_bytes,
    );
}

/// The Orchard note commitments in these lists, one list after the other.
pub open spec fn joined(lists: Seq<Vec<[u8; 32]>>) -> Seq<[u8; 32]> {
    lists.map_values(|list: Vec<[u8; 32]>| list@).flatten()
}

proof fn lemma_joined(lists: Seq<Vec<[u8; 32]>>)
    ensures
        flat(lists) == joined(lists),
    decreases lists.len(),
{
    let views = lists.map_values(|list: Vec<[u8; 32]>| list@);
    if lists.len() > 0 {
        lemma_joined(lists.drop_last());
        assert(lists.drop_last().map_values(|list: Vec<[u8; 32]>| list@) =~= views.drop_last());
        views.lemma_flatten_and_flatten_alt_are_equivalent();
        views.drop_last().lemma_flatten_and_flatten_alt_are_equivalent();
    }
}

/// The tree of a chain takes the note commitments of all transactions of an appended block, in
/// order and one by one, and the chain history is extended by that block and the new tree's
/// root.
pub proof fn law_appended_notes_are_taken_in_order<P: ChainParts>(
    chain: &mut GeneratedLocalTestnet<P>,
    parts: &P,
    extra_txs: Vec<P::Transaction>,
    appended: Result<Height, LocalGenesisError>,
)
    requires
        call_ensures(
            GeneratedLocalTestnet::<P>::append_block,
            (chain, parts, extra_txs),
            appended,
        ),
        appended is Ok,
    ensures
        exists|lists: Seq<Vec<[u8; 32]>>, trees: Seq<P::OrchardTree>|
            {
                let transactions = final(chain).blocks@.last().transactions@;
                let notes = #[trigger] joined(lists);
                &&& lists.len() == transactions.len()
                &&& forall|i: int|
                    0 <= i < lists.len() ==> call_ensures(
                        P::orchard_note_commitments,
                        (parts, &transactions[i]),
                        #[trigger] lists[i],
                    )
                &&& #[trigger] trees.len() == notes.len() + 1
                &&& trees[0] == old(chain).orchard_tree
                &&& trees.last() == final(chain).orchard_tree
                &&& forall|i: int|
                    0 <= i < notes.len() ==> call_ensures(
                        P::append_note,
                        (parts, &trees[i], &#[trigger] notes[i]),
                        Ok::<P::OrchardTree, String>(trees[i + 1]),
                    )
            },
        exists|orchard_root: [u8; 32]|
            {
                &&& #[trigger] call_ensures(
                    P::orchard_root,
                    (parts, &final(chain).orchard_tree),
                    orchard_root,
                )
                &&& call_ensures(
                    P::push_history,
                    (
                        parts,
                        &old(chain).network,
                        &old(chain).history_tree,
                        &final(chain).blocks@.last(),
                        &old(chain).sapling_root,
                        &orchard_root,
                    ),
                    Ok::<P::HistoryTree, String>(final(chain).history_tree),
                )
            },
{
    let before = *old(chain);
    let after = *final(chain);
    let transactions = after.blocks@.last().transactions@;
    assert(before.is_next_orchard_tree(*parts, transactions, after.orchard_tree));
    let notes = choose|notes: Seq<[u8; 32]>| #[trigger]
        are_notes(*parts, transactions, notes) && is_noted(
            *parts,
            before.orchard_tree,
            notes,
            after.orchard_tree,
        );
    let lists = choose|lists: Seq<Vec<[u8; 32]>>|
        {
            &&& notes == #[trigger] flat(lists)
            &&& lists.len() == transactions.len()
            &&& forall|i: int|
                0 <= i < lists.len() ==> call_ensures(
                    P::orchard_note_commitments,
                    (parts, &transactions[i]),
                    #[trigger] lists[i],
                )
        };
    let trees = choose|trees: Seq<P::OrchardTree>|
        {
            &&& #[trigger] are_tree_steps(*parts, notes, trees)
            &&& trees[0] == before.orchard_tree
            &&& trees.last() == after.orchard_tree
        };
    lemma_joined(lists);
    assert(trees.len() == joined(lists).len() + 1);
    assert(before.is_history_answer(
        *parts,
        after.blocks@.last(),
        after.orchard_tree,
        Ok(after.history_tree),
    ));
}

/// A block is refused only where the parts refuse something that is needed for it, where its
/// time would lie past the calendar, or where it would commit to a chain history without a root,
/// and the error says which.
pub proof fn law_only_parts_refuse_a_block<P: ChainParts>(
    chain: &mut GeneratedLocalTestnet<P>,
    parts: &P,
    extra_txs: Vec<P::Transaction>,
    error: LocalGenesisError,
    upgrade: NetworkUpgrade,
    heartwood: Option<Height>,
)
    requires
        old(chain).blocks@.len() > 0,
        old(chain).blocks@.len() <= u32::MAX,
        call_ensures(
            GeneratedLocalTestnet::<P>::append_block,
            (chain, parts, extra_txs),
            Err::<Height, LocalGenesisError>(error),
        ),
        call_ensures(
            NetworkUpgrade::current,
            (&old(chain).network.activation_heights, Height(old(chain).blocks@.len() as u32)),
            upgrade,
        ),
        call_ensures(
            NetworkUpgrade::activation_height,
            (NetworkUpgrade::Heartwood, &old(chain).network.activation_heights),
            heartwood,
        ),
    ensures
        ({
            let height = Height(old(chain).blocks@.len() as u32);
            match error {
                LocalGenesisError::Subsidy(reason) => call_ensures(
                    P::block_subsidy,
                    (parts, &old(chain).network, height),
                    Err::<Amount, String>(reason),
                ),
                LocalGenesisError::Parameters(reason) => refuse_note(*parts, reason),
                LocalGenesisError::HistoryTree(reason) => refuse_block(
                    *parts,
                    old(chain).network,
                    old(chain).history_tree,
                    reason,
                ),
                LocalGenesisError::TimeOutOfRange(at) => at == height && is_past_the_calendar(
                    *parts,
                    old(chain).network,
                    height,
                    old(chain).blocks@.last().header.time,
                ),
                LocalGenesisError::MissingHistoryTree(at) => {
                    &&& at == height
                    &&& heartwood != Some(height)
                    &&& upgrade != NetworkUpgrade::Genesis
                    &&& upgrade != NetworkUpgrade::BeforeOverwinter
                    &&& upgrade != NetworkUpgrade::Overwinter
                    &&& upgrade != NetworkUpgrade::Sapling
                    &&& upgrade != NetworkUpgrade::Blossom
                    &&& call_ensures(
                        P::history_root,
                        (parts, &old(chain).history_tree),
                        None::<[u8; 32]>,
                    )
                },
                _ => false,
            }
        }),
{
    let before = *old(chain);
    assert(before.is_append_error(*parts, extra_txs@, error));
    if let LocalGenesisError::HistoryTree(reason) = error {
        let (block, tree) = choose|block: Block<P::Transaction>, tree: P::OrchardTree|
            {
                &&& before.is_next_block(*parts, extra_txs@, block)
                &&& before.is_next_orchard_tree(*parts, block.transactions@, tree)
                &&& #[trigger] before.is_history_refusal(*parts, block, tree, reason)
            };
        assert(before.is_history_answer(*parts, block, tree, Err(reason)));
    }
}

/// Whether the parts refused to extend a chain history by a block, for this reason.
pub open spec fn refuse_block<P: ChainParts>(
    parts: P,
    network: Network,
    history: P::HistoryTree,
    reason: String,
) -> bool {
    exists|block: Block<P::Transaction>, sapling_root: [u8; 32], orchard_root: [u8; 32]| #[trigger]
        call_ensures(
            P::push_history,
            (&parts, &network, &history, &block, &sapling_root, &orchard_root),
            Err::<P::HistoryTree, String>(reason),
        )
}

/// Whether the spacing that the parts ask for at a height leads past the calendar.
pub open spec fn is_past_the_calendar<P: ChainParts>(
    parts: P,
    network: Network,
    height: Height,
    earlier: Timestamp,
) -> bool {
    exists|spacing: i64|
        {
            &&& #[trigger] call_ensures(
                P::target_spacing_secs,
                (&parts, &network, height),
                spacing,
            )
            &&& earlier.nanos_view() < 1_000_000_000 ==> !(-8_334_601_228_800
                <= earlier.secs_view() + spacing <= 8_210_266_876_799)
        }
}

}
