//! For which names and options a local Testnet is generated, and why it is refused for others.

use crate::chain_parts::ChainParts;
use crate::generated_chain::{
    can_generate, first_keyless_name, generate_local_testnet_with_funded_keys, is_generation_error,
    is_generation_failure, is_growth, is_placeholder, GeneratedLocalTestnet,
};
use crate::growth_laws::lemma_growth;
use crate::keys::key_of;
use crate::local_genesis::{
    first_bad_name, is_bad_name, is_network_error, placeholder_hash, trimmed_names, Amount, Block,
    BlockHash, LocalGenesisError, LocalTestnetGenesisOptions, Network,
};
use crate::local_genesis_laws::{law_accepted_names_are_distinct, lemma_first_bad_name};
use crate::network::{Height, NetworkUpgrade};
use crate::text::trimmed;
use vstd::prelude::*;

verus! {

/// Whether no name among the first `count` is empty, and no two of them are the same.
pub open spec fn are_told_apart(names: Seq<Seq<char>>, count: int) -> bool {
    &&& forall|i: int| 0 <= i < count ==> (#[trigger] names[i]).len() > 0
    &&& forall|i: int, j: int| 0 <= i < j < count ==> #[trigger] names[i] != #[trigger] names[j]
}

/// Whether each name among the first `count` gives a key.
pub open spec fn have_keys(names: Seq<Seq<char>>, count: int) -> bool {
    forall|i: int| 0 <= i < count ==> key_of(#[trigger] names[i]) is Some
}

/// The names without the white space around them.
pub open spec fn kept_names(names: Seq<String>) -> Seq<Seq<char>> {
    names.map_values(|name: String| trimmed(name@))
}

/// Whether the parts refused the parameters of a network, for this reason.
pub open spec fn refuse_network<P: ChainParts>(parts: P, reason: String) -> bool {
    exists|network: Network| #[trigger]
        call_ensures(P::network_fault, (&parts, &network), Some::<String>(reason))
}

/// Whether the parts refused a note commitment, for this reason.
pub open spec fn refuse_note<P: ChainParts>(parts: P, reason: String) -> bool {
    exists|tree: P::OrchardTree, note: [u8; 32]| #[trigger]
        call_ensures(
            P::append_note,
            (&parts, &tree, &note),
            Err::<P::OrchardTree, String>(reason),
        )
}

/// Whether the parts made `history` by extending another one by a block.
pub open spec fn is_pushed<P: ChainParts>(parts: P, history: P::HistoryTree) -> bool {
    exists|
        network: Network,
        before: P::HistoryTree,
        block: Block<P::Transaction>,
        sapling_root: [u8; 32],
        orchard_root: [u8; 32],
    |
        #[trigger] call_ensures(
            P::push_history,
            (&parts, &network, &before, &block, &sapling_root, &orchard_root),
            Ok::<P::HistoryTree, String>(history),
        )
}

/// Whether the parts refused something that is needed to generate a chain, and `error` says so.
pub open spec fn is_refusal<P: ChainParts>(
    parts: P,
    options: LocalTestnetGenesisOptions,
    error: LocalGenesisError,
) -> bool {
    match error {
        LocalGenesisError::Parameters(reason) => refuse_network(parts, reason) || refuse_note(
            parts,
            reason,
        ),
        LocalGenesisError::Subsidy(reason) => exists|network: Network, height: Height| #[trigger]
            call_ensures(
                P::block_subsidy,
                (&parts, &network, height),
                Err::<Amount, String>(reason),
            ),
        LocalGenesisError::HistoryTree(reason) => exists|
            network: Network,
            history: P::HistoryTree,
            block: Block<P::Transaction>,
            sapling_root: [u8; 32],
            orchard_root: [u8; 32],
        |
            #[trigger] call_ensures(
                P::push_history,
                (&parts, &network, &history, &block, &sapling_root, &orchard_root),
                Err::<P::HistoryTree, String>(reason),
            ),
        LocalGenesisError::TimeOutOfRange(height) => {
            &&& 0 < height.0 <= options.premined_block_count
            &&& exists|network: Network, spacing_secs: i64| #[trigger]
                call_ensures(
                    P::target_spacing_secs,
                    (&parts, &network, height),
                    spacing_secs,
                )
        },
        LocalGenesisError::MissingHistoryTree(height) => {
            &&& options.latest_upgrade_height.0 < height.0 <= options.premined_block_count
            &&& exists|history: P::HistoryTree| #[trigger]
                call_ensures(P::history_root, (&parts, &history), None::<[u8; 32]>)
                    && is_pushed(parts, history)
        },
        _ => false,
    }
}

proof fn lemma_first_keyless_name(names: Seq<Seq<char>>, i: int)
    requires
        0 <= i <= names.len(),
    ensures
        match first_keyless_name(names, i) {
            Some(keyless) => i <= keyless < names.len() && key_of(names[keyless]) is None
                && forall|k: int| i <= k < keyless ==> key_of(#[trigger] names[k]) is Some,
            None => forall|k: int| i <= k < names.len() ==> key_of(#[trigger] names[k]) is Some,
        },
    decreases names.len() - i,
{
    if i < names.len() && key_of(names[i]) is Some {
        lemma_first_keyless_name(names, i + 1);
    }
}

proof fn lemma_told_apart(names: Seq<Seq<char>>, count: int)
    requires
        0 <= count <= names.len(),
    ensures
        are_told_apart(names, count) <==> forall|k: int|
            0 <= k < count ==> !#[trigger] is_bad_name(names, k),
{
    if are_told_apart(names, count) {
        assert forall|k: int| 0 <= k < count implies !#[trigger] is_bad_name(names, k) by {
            assert(names[k].len() > 0);
        }
    }
    if forall|k: int| 0 <= k < count ==> !#[trigger] is_bad_name(names, k) {
        assert forall|i: int| 0 <= i < count implies (#[trigger] names[i]).len() > 0 by {
            assert(!is_bad_name(names, i));
        }
        assert forall|i: int, j: int| 0 <= i < j < count implies #[trigger] names[i]
            != #[trigger] names[j] by {
            assert(!is_bad_name(names, j));
        }
    }
}

/// A chain can be generated exactly where proof of work is disabled, the upgrades activate at
/// any height above zero, there is a name, none is empty, no two are the same, each gives a key,
/// there is a magic for the network, and the latest upgrade is NU5, NU6 or NU6.1.
pub proof fn law_chains_can_be_generated(
    names: Seq<Seq<char>>,
    options: LocalTestnetGenesisOptions,
)
    ensures
        can_generate(names, options) <==> {
            &&& options.disable_pow
            &&& options.latest_upgrade_height.0 > 0
            &&& names.len() > 0
            &&& are_told_apart(names, names.len() as int)
            &&& have_keys(names, names.len() as int)
            &&& options.magic() is Some
            &&& (options.latest_network_upgrade == NetworkUpgrade::Nu5
                || options.latest_network_upgrade == NetworkUpgrade::Nu6
                || options.latest_network_upgrade == NetworkUpgrade::Nu6_1)
        },
{
    law_accepted_names_are_distinct(names);
    lemma_first_keyless_name(names, 0);
}

/// The height of the upgrades is a reason not to generate a chain only where it is zero, and
/// where a chain can be generated at one height above zero, it can be at every other.
pub proof fn law_heights_above_zero_are_all_alike(
    names: Seq<Seq<char>>,
    options: LocalTestnetGenesisOptions,
    height: Height,
)
    requires
        height.0 > 0,
    ensures
        is_generation_error(names, options, LocalGenesisError::InvalidLatestUpgradeHeight) <==>
            options.disable_pow && options.latest_upgrade_height.0 == 0,
        can_generate(names, options) ==> can_generate(
            names,
            (LocalTestnetGenesisOptions { latest_upgrade_height: height, ..options }),
        ),
{
    let moved = LocalTestnetGenesisOptions { latest_upgrade_height: height, ..options };
    law_chains_can_be_generated(names, options);
    law_chains_can_be_generated(names, moved);
    lemma_first_bad_name(names, 0);
    lemma_first_keyless_name(names, 0);
    assert(moved.magic() == options.magic());
}

proof fn lemma_refusal<P: ChainParts>(
    names: Seq<Seq<char>>,
    options: LocalTestnetGenesisOptions,
    parts: P,
    chains: Seq<GeneratedLocalTestnet<P>>,
    error: LocalGenesisError,
)
    requires
        is_growth(chains, names, options, parts),
        chains.len() <= options.premined_block_count + 1,
        chains.last().is_append_error(parts, Seq::empty(), error),
        options.latest_upgrade_height.0 > 0,
    ensures
        is_refusal(parts, options, error),
{
    let last = chains.len() - 1;
    lemma_growth(chains, names, options, parts, last);
    if last > 0 {
        assert(chains[last].extends(chains[last - 1], parts, Seq::empty()));
        assert(is_pushed(parts, chains[last].history_tree));
    }
}

proof fn lemma_network_refusal<P: ChainParts>(
    options: LocalTestnetGenesisOptions,
    parts: P,
    genesis_hash: Seq<u8>,
    checkpoints: Seq<(Height, BlockHash)>,
    error: LocalGenesisError,
)
    requires
        is_network_error(parts, options, genesis_hash, checkpoints, error),
        options.magic() is Some,
        options.heights() is Some,
    ensures
        is_refusal(parts, options, error),
{
}

/// Where a chain can be generated, it fails only if the parts refuse something.
pub proof fn law_failures_have_their_reasons<P: ChainParts>(
    kept: Seq<Seq<char>>,
    options: LocalTestnetGenesisOptions,
    parts: P,
    error: LocalGenesisError,
)
    requires
        is_generation_failure(kept, options, parts, error),
    ensures
        can_generate(kept, options) ==> is_refusal(parts, options, error),
{
    if !can_generate(kept, options) {
    } else if exists|checkpoints: Seq<(Height, BlockHash)>| #[trigger]
        is_placeholder(checkpoints) && is_network_error(
            parts,
            options,
            placeholder_hash(),
            checkpoints,
            error,
        ) {
        let checkpoints = choose|checkpoints: Seq<(Height, BlockHash)>| #[trigger]
            is_placeholder(checkpoints) && is_network_error(
                parts,
                options,
                placeholder_hash(),
                checkpoints,
                error,
            );
        lemma_network_refusal(options, parts, placeholder_hash(), checkpoints, error);
    } else if exists|chains: Seq<GeneratedLocalTestnet<P>>|
        {
            &&& #[trigger] is_growth(chains, kept, options, parts)
            &&& chains.len() <= options.premined_block_count + 1
            &&& chains.last().is_append_error(parts, Seq::empty(), error)
        } {
        let chains = choose|chains: Seq<GeneratedLocalTestnet<P>>|
            {
                &&& #[trigger] is_growth(chains, kept, options, parts)
                &&& chains.len() <= options.premined_block_count + 1
                &&& chains.last().is_append_error(parts, Seq::empty(), error)
            };
        lemma_refusal(kept, options, parts, chains, error);
    } else {
        let chains = choose|chains: Seq<GeneratedLocalTestnet<P>>|
            {
                &&& #[trigger] is_growth(chains, kept, options, parts)
                &&& chains.len() == options.premined_block_count + 2
                &&& is_network_error(
                    parts,
                    options,
                    chains.last().checkpoints@[0].1.0@,
                    chains.last().checkpoints@,
                    error,
                )
            };
        lemma_network_refusal(
            options,
            parts,
            chains.last().checkpoints@[0].1.0@,
            chains.last().checkpoints@,
            error,
        );
    }
}

/// Where a chain can be generated, it is, unless the parts refuse something that is needed for
/// it: the parameters of the network, a subsidy, a note commitment, a block of the history, the
/// root of the history above the height of the upgrades, or a spacing within the calendar.
pub proof fn law_only_parts_refuse_good_names_and_options<P: ChainParts>(
    names: &Vec<String>,
    options: LocalTestnetGenesisOptions,
    parts: &P,
    generated: Result<GeneratedLocalTestnet<P>, LocalGenesisError>,
)
    requires
        call_ensures(
            generate_local_testnet_with_funded_keys::<P>,
            (names, options, parts),
            generated,
        ),
        options.disable_pow,
        options.latest_upgrade_height.0 > 0,
        names@.len() > 0,
        are_told_apart(kept_names(names@), names@.len() as int),
        have_keys(kept_names(names@), names@.len() as int),
        options.magic() is Some,
        options.latest_network_upgrade == NetworkUpgrade::Nu5 || options.latest_network_upgrade
            == NetworkUpgrade::Nu6 || options.latest_network_upgrade == NetworkUpgrade::Nu6_1,
    ensures
        generated matches Err(error) ==> is_refusal(*parts, options, error),
{
    let kept = kept_names(names@);
    assert(kept =~= trimmed_names(names@));
    law_chains_can_be_generated(kept, options);
    if let Err(error) = generated {
        law_failures_have_their_reasons(kept, options, *parts, error);
    }
}

/// A chain is refused for its options or names by the first thing that is wrong with them:
/// enabled proof of work, upgrades at height zero, a name that is empty or occurs twice, no name
/// at all, a name without a key, a network name without a magic, an upgrade that is not
/// supported.
pub proof fn law_first_fault_decides<P: ChainParts>(
    names: &Vec<String>,
    options: LocalTestnetGenesisOptions,
    parts: &P,
    generated: Result<GeneratedLocalTestnet<P>, LocalGenesisError>,
)
    requires
        call_ensures(
            generate_local_testnet_with_funded_keys::<P>,
            (names, options, parts),
            generated,
        ),
    ensures
        ({
            let kept = kept_names(names@);
            let all = names@.len() as int;
            let base = options.disable_pow && options.latest_upgrade_height.0 > 0;
            let named = base && all > 0 && are_told_apart(kept, all);
            &&& !options.disable_pow <==> generated
                == Err::<GeneratedLocalTestnet<P>, _>(LocalGenesisError::UnsupportedPowMode)
            &&& options.disable_pow && options.latest_upgrade_height.0 == 0 <==> generated
                == Err::<GeneratedLocalTestnet<P>, _>(
                LocalGenesisError::InvalidLatestUpgradeHeight,
            )
            &&& base && all == 0 <==> generated
                == Err::<GeneratedLocalTestnet<P>, _>(LocalGenesisError::EmptyNames)
            &&& generated == Err::<GeneratedLocalTestnet<P>, _>(LocalGenesisError::EmptyName) <==>
                base && exists|i: int|
                    0 <= i < all && (#[trigger] kept[i]).len() == 0 && are_told_apart(kept, i)
            &&& generated matches Err(LocalGenesisError::DuplicateName(name)) ==> base && exists|
                i: int,
            |
                #![trigger kept[i]]
                {
                    &&& 0 <= i < all
                    &&& kept[i] == name@
                    &&& kept[i].len() > 0
                    &&& are_told_apart(kept, i)
                    &&& kept.take(i).contains(kept[i])
                }
            &&& generated matches Err(LocalGenesisError::ExhaustedDerivation(name)) ==> named && {
                ||| !have_keys(kept, all) && exists|i: int|
                    0 <= i < all && #[trigger] kept[i] == name@ && key_of(kept[i]) is None
                        && have_keys(kept, i)
                ||| have_keys(kept, all) && options.magic() is None && name@
                    == options.network_name@
            }
            &&& generated matches Err(LocalGenesisError::UnsupportedLatestUpgrade(upgrade)) ==> {
                &&& named && have_keys(kept, all) && options.magic() is Some
                &&& upgrade == options.latest_network_upgrade
                &&& upgrade != NetworkUpgrade::Nu5
                &&& upgrade != NetworkUpgrade::Nu6
                &&& upgrade != NetworkUpgrade::Nu6_1
            }
            &&& !named || !have_keys(kept, all) || options.magic() is None ==> generated is Err
            &&& options.latest_network_upgrade != NetworkUpgrade::Nu5
                && options.latest_network_upgrade != NetworkUpgrade::Nu6
                && options.latest_network_upgrade != NetworkUpgrade::Nu6_1 ==> generated is Err
        }),
{
    let kept = kept_names(names@);
    assert(kept =~= trimmed_names(names@));
    let all = names@.len() as int;
    law_chains_can_be_generated(kept, options);
    law_accepted_names_are_distinct(kept);
    lemma_first_bad_name(kept, 0);
    lemma_first_keyless_name(kept, 0);
    if can_generate(kept, options) {
        law_only_parts_refuse_good_names_and_options(names, options, parts, generated);
    }
    if let Some(bad) = first_bad_name(kept, 0) {
        lemma_told_apart(kept, bad);
        assert(is_bad_name(kept, bad));
        if kept[bad].len() > 0 {
            let j = choose|j: int| 0 <= j < bad && #[trigger] kept[j] == kept[bad];
            assert(kept.take(bad)[j] == kept[bad]);
        }
        assert forall|i: int|
            0 <= i < all && (#[trigger] kept[i]).len() == 0 && are_told_apart(kept, i) implies i
            == bad by {
            lemma_told_apart(kept, i);
            assert(is_bad_name(kept, i));
            if bad < i {
                assert(!is_bad_name(kept, bad));
            }
        }
    }
}

}
