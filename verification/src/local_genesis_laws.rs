//! What holds of every generated local Testnet.

use crate::generated_chain::{can_generate, is_generation_error};
use crate::keys::{is_public_magic, law_derived_magics_are_private, Script};
use crate::local_genesis::{
    activation_reserved, are_good_names, coinbase_version, commitment_at, first_bad_name,
    heights_through, is_bad_name, share, CoinbaseVersion,
    LocalGenesisError, LocalTestnetGenesisOptions,
};
use crate::network::{Height, NetworkUpgrade};
use vstd::prelude::*;

verus! {

/// The sum of the first `upto` shares of `total` among `count` recipients.
spec fn paid(total: int, count: int, upto: nat) -> int
    decreases upto,
{
    if upto == 0 {
        0
    } else {
        paid(total, count, (upto - 1) as nat) + share(total, count, upto - 1)
    }
}

proof fn lemma_paid(total: int, count: int, upto: nat)
    requires
        0 <= total,
        0 < count,
        upto <= count,
    ensures
        paid(total, count, upto) == upto * (total / count) + if upto <= total % count {
            upto as int
        } else {
            total % count
        },
    decreases upto,
{
    assert(0 <= total % count < count) by (nonlinear_arith)
        requires
            0 < count,
    ;
    if upto > 0 {
        lemma_paid(total, count, (upto - 1) as nat);
        assert((upto - 1) * (total / count) + total / count == upto * (total / count))
            by (nonlinear_arith);
    } else {
        assert(0 * (total / count) == 0) by (nonlinear_arith);
    }
}

/// The sum of the amounts that the outputs pay.
pub open spec fn total_paid(outputs: Seq<(i64, Script)>) -> int
    decreases outputs.len(),
{
    if outputs.len() == 0 {
        0
    } else {
        total_paid(outputs.drop_last()) + outputs.last().0
    }
}

proof fn lemma_total_paid(outputs: Seq<(i64, Script)>, total: int, count: int)
    requires
        forall|i: int|
            0 <= i < outputs.len() ==> (#[trigger] outputs[i]).0 == share(total, count, i),
    ensures
        total_paid(outputs) == paid(total, count, outputs.len()),
    decreases outputs.len(),
{
    if outputs.len() > 0 {
        lemma_total_paid(outputs.drop_last(), total, count);
    }
}

/// The outputs of a coinbase transaction together pay all of the block subsidy, and no more.
pub proof fn law_subsidy_is_paid_in_full(outputs: Seq<(i64, Script)>, subsidy: int)
    requires
        0 <= subsidy,
        outputs.len() > 0,
        forall|i: int|
            0 <= i < outputs.len() ==> (#[trigger] outputs[i]).0 == share(
                subsidy,
                outputs.len() as int,
                i,
            ),
    ensures
        total_paid(outputs) == subsidy,
{
    let count = outputs.len() as int;
    lemma_total_paid(outputs, subsidy, count);
    lemma_paid(subsidy, count, count as nat);
    assert(count * (subsidy / count) + subsidy % count == subsidy && 0 <= subsidy % count < count)
        by (nonlinear_arith)
        requires
            0 < count,
    ;
}

/// No recipient of a block subsidy gets more than one unit above another, and none gets more
/// than one before it.
pub proof fn law_subsidy_is_split_evenly(subsidy: int, count: int, i: int, j: int)
    requires
        0 <= subsidy,
        0 < count,
        0 <= i <= j < count,
    ensures
        0 <= share(subsidy, count, j) <= share(subsidy, count, i) <= share(subsidy, count, j) + 1,
        share(subsidy, count, i) <= subsidy,
{
    assert(0 <= subsidy / count && subsidy / count + subsidy % count <= subsidy && 0 <= subsidy
        % count < count) by (nonlinear_arith)
        requires
            0 <= subsidy,
            0 < count,
    ;
}

/// The first name that cannot be accepted is found, if there is one.
pub proof fn lemma_first_bad_name(names: Seq<Seq<char>>, i: int)
    requires
        0 <= i <= names.len(),
    ensures
        match first_bad_name(names, i) {
            Some(bad) => i <= bad < names.len() && is_bad_name(names, bad) && forall|k: int|
                i <= k < bad ==> !is_bad_name(names, k),
            None => forall|k: int| i <= k < names.len() ==> !is_bad_name(names, k),
        },
    decreases names.len() - i,
{
    if i < names.len() && !is_bad_name(names, i) {
        lemma_first_bad_name(names, i + 1);
    }
}

/// Names are accepted exactly where there is one, none is empty and no two are the same.
pub proof fn law_accepted_names_are_distinct(names: Seq<Seq<char>>)
    ensures
        are_good_names(names) <==> {
            &&& names.len() > 0
            &&& forall|i: int| 0 <= i < names.len() ==> (#[trigger] names[i]).len() > 0
            &&& forall|i: int, j: int|
                0 <= i < j < names.len() ==> #[trigger] names[i] != #[trigger] names[j]
        },
{
    lemma_first_bad_name(names, 0);
    if are_good_names(names) {
        assert forall|i: int| 0 <= i < names.len() implies (#[trigger] names[i]).len() > 0 by {
            assert(!is_bad_name(names, i));
        }
        assert forall|i: int, j: int| 0 <= i < j < names.len() implies #[trigger] names[i]
            != #[trigger] names[j] by {
            assert(!is_bad_name(names, j));
        }
    }
}

/// Where a chain can be generated, no error is a reason not to.
pub proof fn law_generation_fails_only_for_a_reason(
    names: Seq<Seq<char>>,
    options: LocalTestnetGenesisOptions,
    error: LocalGenesisError,
)
    ensures
        is_generation_error(names, options, error) ==> !can_generate(names, options),
{
}

/// The activation heights of a generated network are in order.
pub proof fn law_generated_heights_are_in_order(latest: NetworkUpgrade, height: Height)
    ensures
        heights_through(latest, height) matches Some(heights) ==> heights.in_order(),
{
}

/// All upgrades of a generated network activate together: before that height it is at
/// genesis, and from then on at the latest upgrade.
pub proof fn law_upgrades_activate_together(
    latest: NetworkUpgrade,
    activation: Height,
    height: Height,
)
    requires
        activation != Height(0),
    ensures
        heights_through(latest, activation) matches Some(heights) ==> {
            &&& heights.upgrade_at(height) == if height.0 < activation.0 {
                NetworkUpgrade::Genesis
            } else {
                latest
            }
            &&& heights.height_of(NetworkUpgrade::Heartwood) == Some(activation)
        },
{
}

/// From the activation height on, the blocks of a generated chain have version 5 coinbase
/// transactions and commit to the chain history and to their authorizing data. The first of
/// them needs no chain history, and a later one is missing its commitment only where there is
/// no chain history.
pub proof fn law_upgraded_blocks_commit_to_history(
    latest: NetworkUpgrade,
    activation: Height,
    height: Height,
    history_root: Option<[u8; 32]>,
    sapling_root: Seq<u8>,
)
    requires
        activation.0 <= height.0,
        activation != Height(0),
    ensures
        heights_through(latest, activation) matches Some(heights) ==> {
            &&& coinbase_version(heights.upgrade_at(height)) == CoinbaseVersion::V5
            &&& commitment_at(heights, height, history_root, sapling_root) == match history_root {
                Some(root) => Some((true, root@)),
                None if height == activation => Some((true, activation_reserved())),
                None => None,
            }
        },
{
}

/// Before the activation height, the blocks of a generated chain have version 1 coinbase
/// transactions and commit to zeros, whatever the chain holds.
pub proof fn law_early_blocks_commit_to_zeros(
    latest: NetworkUpgrade,
    activation: Height,
    height: Height,
    history_root: Option<[u8; 32]>,
    sapling_root: Seq<u8>,
)
    requires
        height.0 < activation.0,
    ensures
        heights_through(latest, activation) matches Some(heights) ==> {
            &&& coinbase_version(heights.upgrade_at(height)) == CoinbaseVersion::V1
            &&& commitment_at(heights, height, history_root, sapling_root) == Some(
                (false, Seq::new(32, |i: int| 0u8)),
            )
        },
{
}

/// A network whose magic was not given never has the magic of a public network.
pub proof fn law_generated_networks_are_private(options: LocalTestnetGenesisOptions)
    requires
        options.network_magic is None,
    ensures
        options.magic() matches Some(magic) ==> !is_public_magic(magic),
{
    law_derived_magics_are_private(options.network_name@);
}

}
