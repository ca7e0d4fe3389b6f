//! What a generated chain and its network are made of.

use crate::appended_block_laws::is_filled;
use crate::chain_parts::ChainParts;
use crate::generated_chain::{
    can_generate, generate_local_testnet, generate_local_testnet_with_funded_keys,
    is_generation_failure, is_growth, GeneratedLocalTestnet,
};
use crate::generation_laws::{
    are_told_apart, kept_names, law_chains_can_be_generated,
    law_failures_have_their_reasons, law_first_fault_decides,
};
use crate::growth_laws::{
    law_generated_blocks_follow_the_rules, law_generated_chain_is_linked_from_genesis,
    law_generated_keys_are_those_of_the_names, lemma_growth,
};
use crate::keys::{derive_network_magic, FundedKeyMaterial, Magic};
use crate::local_genesis::{
    activation_heights_for_latest_upgrade, build_network_parameters, ordered_names, trimmed_names,
    views, BlockHash, LocalGenesisError, LocalTestnetGenesisOptions, Network,
};
use crate::local_genesis_laws::{law_accepted_names_are_distinct, lemma_first_bad_name};
use crate::network::{ConfiguredActivationHeights, Height, NetworkKind, NetworkUpgrade};
use crate::text::trimmed;
use vstd::prelude::*;

verus! {

/// Names are kept in order, each without the white space around it, if there is one, none is
/// empty and no two are the same, and not otherwise.
pub proof fn law_names_are_kept_in_order(
    names: &Vec<String>,
    checked: Result<Vec<String>, LocalGenesisError>,
)
    requires
        call_ensures(ordered_names, (names,), checked),
    ensures
        checked is Ok <==> names@.len() > 0 && are_told_apart(
            kept_names(names@),
            names@.len() as int,
        ),
        checked matches Ok(ordered) ==> {
            &&& ordered@.len() == names@.len()
            &&& forall|i: int|
                0 <= i < names@.len() ==> (#[trigger] ordered@[i])@ == trimmed(names@[i]@)
        },
{
    let kept = kept_names(names@);
    assert(kept =~= trimmed_names(names@));
    law_accepted_names_are_distinct(kept);
    if let Ok(ordered) = checked {
        assert forall|i: int| 0 <= i < names@.len() implies (#[trigger] ordered@[i])@ == trimmed(
            names@[i]@,
        ) by {
            assert(views(ordered@)[i] == kept[i]);
        }
    }
}

/// All upgrades through the latest one activate at the given height, and no later one does. The
/// latest one is NU5, NU6 or NU6.1.
pub proof fn law_upgrades_through_the_latest_activate(
    latest: NetworkUpgrade,
    height: Height,
    configured: Result<ConfiguredActivationHeights, LocalGenesisError>,
)
    requires
        call_ensures(activation_heights_for_latest_upgrade, (latest, height), configured),
    ensures
        configured is Ok <==> latest == NetworkUpgrade::Nu5 || latest == NetworkUpgrade::Nu6
            || latest == NetworkUpgrade::Nu6_1,
        configured matches Err(error) ==> error == LocalGenesisError::UnsupportedLatestUpgrade(
            latest,
        ),
        configured matches Ok(heights) ==> {
            &&& heights.before_overwinter is None
            &&& heights.overwinter == Some(height.0)
            &&& heights.sapling == Some(height.0)
            &&& heights.blossom == Some(height.0)
            &&& heights.heartwood == Some(height.0)
            &&& heights.canopy == Some(height.0)
            &&& heights.nu5 == Some(height.0)
            &&& heights.nu6 == if latest == NetworkUpgrade::Nu5 {
                None
            } else {
                Some(height.0)
            }
            &&& heights.nu6_1 == if latest == NetworkUpgrade::Nu6_1 {
                Some(height.0)
            } else {
                None
            }
            &&& heights.nu7 is None
        },
{
}

/// Whether these are the parameters of a local Testnet with a genesis block and checkpoints: it
/// has the name and magic that were asked for, no slow start, no funding streams, no lockbox
/// disbursements, an easy target, a halving every 144 blocks, proof of work as it was asked for,
/// and coinbase outputs that can be spent to transparent ones.
pub open spec fn is_local_network(
    network: Network,
    options: LocalTestnetGenesisOptions,
    genesis_hash: BlockHash,
    checkpoints: Seq<(Height, BlockHash)>,
) -> bool {
    &&& network.network_name@ == options.network_name@
    &&& options.network_magic matches Some(magic) ==> network.network_magic.0@ == magic.0@
    &&& network.genesis_hash.0@ == genesis_hash.0@
    &&& network.slow_start_interval.0 == 0
    &&& network.funding_stream_count == 0
    &&& network.lockbox_disbursement_count == 0
    &&& forall|i: int| 0 <= i < 32 ==> (#[trigger] network.target_difficulty_limit@[i]) == 15
    &&& network.halving_interval == 144
    &&& network.disable_pow == options.disable_pow
    &&& network.unshielded_coinbase_spends
    &&& network.checkpoints@ == checkpoints
    &&& network.activation_heights.before_overwinter is None
    &&& network.activation_heights.overwinter == Some(options.latest_upgrade_height.0)
    &&& network.activation_heights.sapling == Some(options.latest_upgrade_height.0)
    &&& network.activation_heights.blossom == Some(options.latest_upgrade_height.0)
    &&& network.activation_heights.heartwood == Some(options.latest_upgrade_height.0)
    &&& network.activation_heights.nu5 == Some(options.latest_upgrade_height.0)
    &&& network.activation_heights.canopy == Some(options.latest_upgrade_height.0)
    &&& network.activation_heights.nu6 == if options.latest_network_upgrade == NetworkUpgrade::Nu5 {
        None
    } else {
        Some(options.latest_upgrade_height.0)
    }
    &&& network.activation_heights.nu6_1 == if options.latest_network_upgrade
        == NetworkUpgrade::Nu6_1 {
        Some(options.latest_upgrade_height.0)
    } else {
        None
    }
    &&& network.activation_heights.nu7 is None
}

proof fn lemma_local_network(
    network: Network,
    options: LocalTestnetGenesisOptions,
    genesis_hash: BlockHash,
    checkpoints: Seq<(Height, BlockHash)>,
)
    requires
        network.is_for(options, genesis_hash.0@, checkpoints),
    ensures
        is_local_network(network, options, genesis_hash, checkpoints),
{
}

/// Whether the parts refused such parameters, for this reason.
pub open spec fn refuse_local_network<P: ChainParts>(
    parts: P,
    options: LocalTestnetGenesisOptions,
    genesis_hash: BlockHash,
    checkpoints: Seq<(Height, BlockHash)>,
    reason: String,
) -> bool {
    exists|network: Network| #[trigger]
        call_ensures(P::network_fault, (&parts, &network), Some::<String>(reason))
            && is_local_network(network, options, genesis_hash, checkpoints)
}

/// The parameters of a network are those that the options ask for, and they are refused only
/// where there is no magic, the latest upgrade is not supported, or the parts refuse them.
pub proof fn law_networks_have_the_local_parameters<P: ChainParts>(
    options: &LocalTestnetGenesisOptions,
    genesis_hash: BlockHash,
    checkpoints: Vec<(Height, BlockHash)>,
    parts: &P,
    built: Result<Network, LocalGenesisError>,
    name: &str,
    derived: Option<Magic>,
)
    requires
        call_ensures(
            build_network_parameters::<P>,
            (options, genesis_hash, checkpoints, parts),
            built,
        ),
        name@ == options.network_name@,
        call_ensures(derive_network_magic, (name,), derived),
    ensures
        match built {
            Ok(network) => {
                &&& is_local_network(network, *options, genesis_hash, checkpoints@)
                &&& options.network_magic is None ==> (derived matches Some(magic)
                    && network.network_magic.0@ == magic.0@)
                &&& options.latest_network_upgrade == NetworkUpgrade::Nu5
                    || options.latest_network_upgrade == NetworkUpgrade::Nu6
                    || options.latest_network_upgrade == NetworkUpgrade::Nu6_1
                &&& call_ensures(P::network_fault, (parts, &network), None::<String>)
            },
            Err(LocalGenesisError::ExhaustedDerivation(given)) => {
                &&& options.network_magic is None
                &&& derived is None
                &&& given@ == options.network_name@
            },
            Err(LocalGenesisError::UnsupportedLatestUpgrade(upgrade)) => {
                &&& upgrade == options.latest_network_upgrade
                &&& upgrade != NetworkUpgrade::Nu5
                &&& upgrade != NetworkUpgrade::Nu6
                &&& upgrade != NetworkUpgrade::Nu6_1
            },
            Err(LocalGenesisError::Parameters(reason)) => refuse_local_network(
                *parts,
                *options,
                genesis_hash,
                checkpoints@,
                reason,
            ),
            Err(_) => false,
        },
{
    if let Err(LocalGenesisError::Parameters(reason)) = built {
        let network = choose|network: Network|
            {
                &&& network.is_for(*options, genesis_hash.0@, checkpoints@)
                &&& #[trigger] call_ensures(
                    P::network_fault,
                    (parts, &network),
                    Some::<String>(reason),
                )
            };
        assert(is_local_network(network, *options, genesis_hash, checkpoints@));
    }
}

/// Rebuilding the network of a chain gives it the genesis block and the checkpoints of the
/// chain, and changes nothing else. Where the parts refuse it, nothing changes at all.
pub proof fn law_rebuilt_network_knows_the_chain<P: ChainParts>(
    chain: &mut GeneratedLocalTestnet<P>,
    parts: &P,
    rebuilt: Result<(), LocalGenesisError>,
)
    requires
        old(chain).blocks@.len() > 0,
        old(chain).checkpoints@.len() == old(chain).blocks@.len(),
        call_ensures(GeneratedLocalTestnet::<P>::rebuild_network, (chain, parts), rebuilt),
    ensures
        rebuilt is Err ==> *final(chain) == *old(chain),
        rebuilt is Ok ==> {
            &&& is_local_network(
                final(chain).network,
                old(chain).options,
                old(chain).checkpoints@[0].1,
                old(chain).checkpoints@,
            )
            &&& call_ensures(P::network_fault, (parts, &final(chain).network), None::<String>)
        },
        final(chain).blocks == old(chain).blocks,
        final(chain).checkpoints == old(chain).checkpoints,
        final(chain).funded_keys == old(chain).funded_keys,
        final(chain).history_tree == old(chain).history_tree,
        final(chain).sapling_root == old(chain).sapling_root,
        final(chain).orchard_tree == old(chain).orchard_tree,
        final(chain).options == old(chain).options,
{
}

proof fn lemma_named_keys(keys: Seq<FundedKeyMaterial>, names: Seq<String>)
    requires
        keys.len() == names.len(),
        forall|i: int|
            0 <= i < names.len() ==> (#[trigger] keys[i]).is_for(
                trimmed_names(names)[i],
                NetworkKind::Testnet,
            ),
    ensures
        forall|k: int|
            #![trigger keys[k]]
            0 <= k < names.len() ==> keys[k].name@ == trimmed(names[k]@)
                && keys[k].address.network_kind == NetworkKind::Testnet,
{
}

proof fn lemma_generated_options<P: ChainParts>(
    chain: GeneratedLocalTestnet<P>,
    names: Seq<Seq<char>>,
    options: LocalTestnetGenesisOptions,
    parts: P,
)
    requires
        chain.is_generated(names, options, parts),
    ensures
        chain.options == options,
{
    let chains = choose|chains: Seq<GeneratedLocalTestnet<P>>|
        {
            &&& #[trigger] is_growth(chains, names, options, parts)
            &&& chains.len() == options.premined_block_count + 2
            &&& chain.is_rebuilt(chains.last(), parts)
        };
    lemma_growth(chains, names, options, parts, chains.len() - 1);
}

/// A generated chain holds genesis and as many blocks more as were asked for, each of one
/// transaction. Each checkpoint holds the height and the hash of its block, each block names the
/// one before it, genesis names zeros, and it has the start time.
pub proof fn law_generated_blocks_are_those_asked_for<P: ChainParts>(
    names: &Vec<String>,
    options: LocalTestnetGenesisOptions,
    parts: &P,
    chain: GeneratedLocalTestnet<P>,
    i: int,
)
    requires
        call_ensures(
            generate_local_testnet_with_funded_keys::<P>,
            (names, options, parts),
            Ok::<GeneratedLocalTestnet<P>, LocalGenesisError>(chain),
        ),
        0 <= i <= options.premined_block_count,
    ensures
        chain.blocks@.len() == options.premined_block_count + 1,
        chain.checkpoints@.len() == options.premined_block_count + 1,
        chain.checkpoints@[i].0.0 == i,
        call_ensures(P::block_hash, (parts, &chain.blocks@[i].header), chain.checkpoints@[i].1),
        i > 0 ==> chain.blocks@[i].header.previous_block_hash.0@ == chain.checkpoints@[i - 1].1.0@,
        i == 0 ==> forall|k: int|
            0 <= k < 32 ==> (#[trigger] chain.blocks@[i].header.previous_block_hash.0@[k]) == 0,
        i == 0 ==> chain.blocks@[i].header.time == options.start_time,
        chain.blocks@[i].transactions@.len() == 1,
{
    let kept = trimmed_names(names@);
    law_generated_blocks_follow_the_rules(chain, kept, options, *parts, i);
    law_generated_chain_is_linked_from_genesis(chain, kept, options, *parts, i);
}

/// A generated chain has one key for each name, in order, and its network is the one that was
/// asked for, with the genesis block and all checkpoints of the chain.
pub proof fn law_generated_keys_and_network_are_those_asked_for<P: ChainParts>(
    names: &Vec<String>,
    options: LocalTestnetGenesisOptions,
    parts: &P,
    chain: GeneratedLocalTestnet<P>,
)
    requires
        call_ensures(
            generate_local_testnet_with_funded_keys::<P>,
            (names, options, parts),
            Ok::<GeneratedLocalTestnet<P>, LocalGenesisError>(chain),
        ),
    ensures
        chain.options == options,
        chain.funded_keys@.len() == names@.len(),
        forall|k: int|
            #![trigger chain.funded_keys@[k]]
            0 <= k < names@.len() ==> chain.funded_keys@[k].name@ == trimmed(names@[k]@)
                && chain.funded_keys@[k].address.network_kind == NetworkKind::Testnet,
        is_local_network(chain.network, options, chain.checkpoints@[0].1, chain.checkpoints@),
{
    let kept = trimmed_names(names@);
    law_generated_keys_are_those_of_the_names(chain, kept, options, *parts);
    lemma_generated_options(chain, kept, options, *parts);
    lemma_local_network(chain.network, options, chain.checkpoints@[0].1, chain.checkpoints@);
    lemma_named_keys(chain.funded_keys@, names@);
}

/// Before the genesis block of a generated chain is known, the parameters of its network are
/// checked with a hash of ones in its place, as the only checkpoint.
pub proof fn law_networks_are_checked_before_genesis<P: ChainParts>(
    names: &Vec<String>,
    options: LocalTestnetGenesisOptions,
    parts: &P,
    chain: GeneratedLocalTestnet<P>,
)
    requires
        call_ensures(
            generate_local_testnet_with_funded_keys::<P>,
            (names, options, parts),
            Ok::<GeneratedLocalTestnet<P>, LocalGenesisError>(chain),
        ),
    ensures
        exists|network: Network|
            {
                &&& #[trigger] call_ensures(P::network_fault, (parts, &network), None::<String>)
                &&& is_filled(network.genesis_hash.0, 1)
                &&& network.checkpoints@.len() == 1
                &&& network.checkpoints@[0].0.0 == 0
                &&& is_filled(network.checkpoints@[0].1.0, 1)
                &&& is_local_network(network, options, network.genesis_hash, network.checkpoints@)
            },
{
    let kept = trimmed_names(names@);
    let chains = choose|chains: Seq<GeneratedLocalTestnet<P>>|
        {
            &&& #[trigger] is_growth(chains, kept, options, *parts)
            &&& chains.len() == options.premined_block_count + 2
            &&& chain.is_rebuilt(chains.last(), *parts)
        };
    let network = chains[0].network;
    lemma_local_network(network, options, network.genesis_hash, network.checkpoints@);
    assert(call_ensures(P::network_fault, (parts, &network), None::<String>));
}

/// A default chain is named "LocalGenesisNet", activates NU6.1 at height 1, holds a hundred
/// blocks above genesis, starts in November 2023, and is made without proof of work.
pub proof fn law_default_options(options: LocalTestnetGenesisOptions)
    requires
        call_ensures(
            <LocalTestnetGenesisOptions as core::default::Default>::default,
            (),
            options,
        ),
    ensures
        options.network_name@ == "LocalGenesisNet"@,
        options.network_magic is None,
        options.latest_network_upgrade == NetworkUpgrade::Nu6_1,
        options.latest_upgrade_height.0 == 1,
        options.premined_block_count == 100,
        options.start_time.secs_view() == 1_700_000_000,
        options.start_time.nanos_view() == 0,
        options.disable_pow,
{
}

/// Without options, a chain of a hundred blocks above genesis is generated, in which NU6.1
/// activates at height 1, with one key for each name. It is never refused for its options.
pub proof fn law_default_chain<P: ChainParts>(
    names: &Vec<String>,
    parts: &P,
    generated: Result<GeneratedLocalTestnet<P>, LocalGenesisError>,
)
    requires
        call_ensures(generate_local_testnet::<P>, (names, parts), generated),
    ensures
        match generated {
            Ok(chain) => {
                &&& chain.blocks@.len() == 101
                &&& chain.checkpoints@.len() == 101
                &&& chain.network.network_name@ == "LocalGenesisNet"@
                &&& chain.network.disable_pow
                &&& chain.network.activation_heights.nu6_1 == Some(1u32)
                &&& chain.network.activation_heights.nu7 is None
                &&& chain.network.checkpoints@ == chain.checkpoints@
                &&& chain.blocks@[0].header.time.secs_view() == 1_700_000_000
                &&& chain.funded_keys@.len() == names@.len()
                &&& forall|k: int|
                    #![trigger chain.funded_keys@[k]]
                    0 <= k < names@.len() ==> chain.funded_keys@[k].name@ == trimmed(names@[k]@)
            },
            Err(error) => {
                &&& !(error is UnsupportedPowMode)
                &&& !(error is InvalidLatestUpgradeHeight)
                &&& !(error is UnsupportedLatestUpgrade)
                &&& error is EmptyNames <==> names@.len() == 0
            },
        },
{
    let kept = trimmed_names(names@);
    assert(kept =~= kept_names(names@));
    let options = choose|options: LocalTestnetGenesisOptions| #[trigger]
        options.is_default() && match generated {
            Ok(chain) => {
                &&& can_generate(kept, options)
                &&& chain.is_generated(kept, options, *parts)
                &&& chain.wf()
                &&& chain.blocks@.len() == options.premined_block_count + 1
                &&& chain.is_hashed(*parts)
                &&& chain.network.is_for(
                    options,
                    chain.checkpoints@[0].1.0@,
                    chain.checkpoints@,
                )
            },
            Err(error) => is_generation_failure(kept, options, *parts, error),
        };
    law_chains_can_be_generated(kept, options);
    match generated {
        Ok(chain) => {
            law_generated_chain_is_linked_from_genesis(chain, kept, options, *parts, 0);
            law_generated_keys_are_those_of_the_names(chain, kept, options, *parts);
            lemma_named_keys(chain.funded_keys@, names@);
        },
        Err(error) => {
            law_failures_have_their_reasons(kept, options, *parts, error);
            lemma_first_bad_name(kept, 0);
        },
    }
}

proof fn lemma_times<P: ChainParts>(
    chains: Seq<GeneratedLocalTestnet<P>>,
    names: Seq<Seq<char>>,
    options: LocalTestnetGenesisOptions,
    parts: P,
    most: int,
    upto: int,
)
    requires
        is_growth(chains, names, options, parts),
        0 < upto < chains.len(),
        forall|network: Network, height: Height, spacing: i64| #[trigger]
            call_ensures(P::target_spacing_secs, (&parts, &network, height), spacing) ==> 0
                <= spacing <= most,
    ensures
        options.start_time.secs_view() <= chains[upto].tip_time().secs_view()
            <= options.start_time.secs_view() + (upto - 1) * most,
    decreases upto,
{
    let before = chains[upto - 1];
    lemma_growth(chains, names, options, parts, upto - 1);
    assert(chains[upto].extends(before, parts, Seq::empty()));
    assert(before.is_next_time(parts, chains[upto].tip_time()));
    if upto > 1 {
        lemma_times(chains, names, options, parts, most, upto - 1);
        assert((upto - 2) * most + most == (upto - 1) * most) by (nonlinear_arith);
    } else {
        assert((upto - 1) * most == 0) by (nonlinear_arith)
            requires
                upto == 1,
        ;
    }
}

/// No block of a generated chain lies past the end of the calendar where the blocks are at most
/// `most` seconds apart and as many of them fit between the start time and the end.
pub proof fn law_generated_blocks_fit_the_calendar<P: ChainParts>(
    names: &Vec<String>,
    options: LocalTestnetGenesisOptions,
    parts: &P,
    generated: Result<GeneratedLocalTestnet<P>, LocalGenesisError>,
    most: int,
)
    requires
        call_ensures(
            generate_local_testnet_with_funded_keys::<P>,
            (names, options, parts),
            generated,
        ),
        forall|network: Network, height: Height, spacing: i64| #[trigger]
            call_ensures(P::target_spacing_secs, (parts, &network, height), spacing) ==> 0
                <= spacing <= most,
        -8_334_601_228_800 <= options.start_time.secs_view(),
        options.start_time.secs_view() + options.premined_block_count * most <= 8_210_266_876_799,
    ensures
        !(generated matches Err(error) && error is TimeOutOfRange),
{
    let kept = trimmed_names(names@);
    if let Err(error) = generated {
        if error is TimeOutOfRange {
            law_first_fault_decides(names, options, parts, generated);
            assert(kept =~= kept_names(names@));
            law_chains_can_be_generated(kept, options);
            let chains = choose|chains: Seq<GeneratedLocalTestnet<P>>|
                {
                    &&& #[trigger] is_growth(chains, kept, options, *parts)
                    &&& chains.len() <= options.premined_block_count + 1
                    &&& chains.last().is_append_error(*parts, Seq::empty(), error)
                };
            let last = chains.len() - 1;
            let chain = chains[last];
            lemma_growth(chains, kept, options, *parts, last);
            assert(chain.is_out_of_time(*parts));
            let spacing = choose|spacing_secs: i64| #[trigger]
                call_ensures(
                    P::target_spacing_secs,
                    (parts, &chain.network, chain.new_height()),
                    spacing_secs,
                ) && !chain.can_time(spacing_secs as int);
            lemma_times(chains, kept, options, *parts, most, last);
            assert((last - 1) * most + most <= options.premined_block_count * most)
                by (nonlinear_arith)
                requires
                    last <= options.premined_block_count,
                    0 <= most,
            ;
        }
    }
}

}
