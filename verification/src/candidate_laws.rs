//! What candidates, their actions and the parts of a mix come down to.

use crate::text::decimal;
use crate::workload::{
    compact_size_len, given_out, modeled_block_bytes, pool_action_fields, pool_mix_fields,
    ActionCounts, CandidateCheck, CandidateLoadStats, CandidateTx, ShieldedActionCounts,
    ShieldedActionMix, ShieldedPool, VerifierCheckCounts,
};
use vstd::prelude::*;

verus! {

/// The actions of a transaction in a pool: the spends and outputs of Sapling, the actions of
/// Orchard, or the JoinSplits of Sprout.
pub open spec fn pool_actions(counts: ActionCounts, pool: ShieldedPool) -> int {
    match pool {
        ShieldedPool::Sapling => counts.sapling_spends + counts.sapling_outputs,
        ShieldedPool::Orchard => counts.orchard_actions as int,
        ShieldedPool::Sprout => counts.sprout_joinsplits as int,
    }
}

/// The percentage of a pool in a mix, which lists Sapling, Orchard and Sprout in this order.
pub open spec fn pool_percent(mix: ShieldedActionMix, pool: ShieldedPool) -> int {
    match pool {
        ShieldedPool::Sapling => mix.percents@[0] as int,
        ShieldedPool::Orchard => mix.percents@[1] as int,
        ShieldedPool::Sprout => mix.percents@[2] as int,
    }
}

/// A transaction is kept exactly if it is no coinbase transaction, its version is at least 4 and
/// it has no transparent inputs. One that is skipped is counted once, under the first reason
/// that holds, and one that is kept is not counted.
pub proof fn law_transactions_are_kept_or_counted(
    stats: &mut CandidateLoadStats,
    coinbase: bool,
    version: u32,
    counts: ActionCounts,
    check: CandidateCheck,
)
    requires
        call_ensures(CandidateLoadStats::check, (stats, coinbase, version, &counts), check),
    ensures
        check is Keep <==> !coinbase && version >= 4 && counts.transparent_inputs == 0,
        check is Coinbase <==> coinbase,
        check is UnsupportedVersion <==> !coinbase && version < 4,
        check is TransparentPrevouts <==> !coinbase && version >= 4 && counts.transparent_inputs
            > 0,
        coinbase ==> final(stats).skipped_coinbase == old(stats).skipped_coinbase + 1,
        !coinbase ==> final(stats).skipped_coinbase == old(stats).skipped_coinbase,
        !coinbase && version < 4 ==> final(stats).skipped_unsupported_version
            == old(stats).skipped_unsupported_version + 1,
        coinbase || version >= 4 ==> final(stats).skipped_unsupported_version
            == old(stats).skipped_unsupported_version,
        !coinbase && version >= 4 && counts.transparent_inputs > 0
            ==> final(stats).skipped_transparent_prevouts
            == old(stats).skipped_transparent_prevouts + 1,
        coinbase || version < 4 || counts.transparent_inputs == 0
            ==> final(stats).skipped_transparent_prevouts
            == old(stats).skipped_transparent_prevouts,
{
}

/// The actions of a pool are counted, and those of the other pools are not.
pub proof fn law_actions_are_counted_by_pool(
    counts: ActionCounts,
    sapling: usize,
    orchard: usize,
    sprout: usize,
    all: ShieldedActionCounts,
)
    requires
        call_ensures(ActionCounts::action_count, (&counts, ShieldedPool::Sapling), sapling),
        call_ensures(ActionCounts::action_count, (&counts, ShieldedPool::Orchard), orchard),
        call_ensures(ActionCounts::action_count, (&counts, ShieldedPool::Sprout), sprout),
        call_ensures(ActionCounts::shielded_pool_actions, (&counts,), all),
    ensures
        sapling == counts.sapling_spends + counts.sapling_outputs,
        orchard == counts.orchard_actions,
        sprout == counts.sprout_joinsplits,
        all.counts@[0] == sapling,
        all.counts@[1] == orchard,
        all.counts@[2] == sprout,
{
}

/// The counts of a pool are found under its name, and their total is the sum over the pools.
pub proof fn law_pool_counts_are_found_again(
    counts: ShieldedActionCounts,
    sapling: usize,
    orchard: usize,
    sprout: usize,
    total: usize,
)
    requires
        call_ensures(ShieldedActionCounts::action_count, (&counts, ShieldedPool::Sapling), sapling),
        call_ensures(ShieldedActionCounts::action_count, (&counts, ShieldedPool::Orchard), orchard),
        call_ensures(ShieldedActionCounts::action_count, (&counts, ShieldedPool::Sprout), sprout),
        call_ensures(ShieldedActionCounts::total, (&counts,), total),
    ensures
        sapling == counts.counts@[0],
        orchard == counts.counts@[1],
        sprout == counts.counts@[2],
        total == sapling + orchard + sprout,
{
}

/// A transaction has actions in one pool only exactly if it has some there, and none in the two
/// others.
pub proof fn law_single_pool_transactions(
    candidate: CandidateTx,
    pool: ShieldedPool,
    only: bool,
)
    requires
        call_ensures(CandidateTx::has_only_pool_actions, (&candidate, pool), only),
    ensures
        only <==> pool_actions(candidate.counts, pool) > 0 && pool_actions(
            candidate.counts,
            ShieldedPool::Sapling,
        ) + pool_actions(candidate.counts, ShieldedPool::Orchard) + pool_actions(
            candidate.counts,
            ShieldedPool::Sprout,
        ) == pool_actions(candidate.counts, pool),
{
    assert(candidate.counts.actions(ShieldedPool::Sapling) == pool_actions(
        candidate.counts,
        ShieldedPool::Sapling,
    ));
    assert(candidate.counts.actions(ShieldedPool::Orchard) == pool_actions(
        candidate.counts,
        ShieldedPool::Orchard,
    ));
    assert(candidate.counts.actions(ShieldedPool::Sprout) == pool_actions(
        candidate.counts,
        ShieldedPool::Sprout,
    ));
}

/// The score of a candidate lists its actions in the pool, its bytes, its Sapling spends and its
/// Sapling outputs.
pub proof fn law_score_lists_what_decides(
    candidate: CandidateTx,
    pool: ShieldedPool,
    points: (usize, usize, usize, usize),
)
    requires
        call_ensures(CandidateTx::pool_score, (&candidate, pool), points),
    ensures
        points.0 == pool_actions(candidate.counts, pool),
        points.1 == candidate.serialized_len,
        points.2 == candidate.counts.sapling_spends,
        points.3 == candidate.counts.sapling_outputs,
{
}

/// Each bundle of a transaction is checked once, however many actions it has, each JoinSplit
/// proof is checked, and one signature over all JoinSplits.
pub proof fn law_bundles_are_checked_once(counts: ActionCounts, checks: VerifierCheckCounts)
    requires
        call_ensures(ActionCounts::verifier_check_counts, (&counts,), checks),
    ensures
        checks.sapling_bundles <= 1,
        checks.sapling_bundles == 0 <==> counts.sapling_spends == 0 && counts.sapling_outputs == 0,
        checks.orchard_bundles <= 1,
        checks.orchard_bundles == 0 <==> counts.orchard_actions == 0,
        checks.sprout_joinsplit_proofs == counts.sprout_joinsplits,
        checks.sprout_signatures <= 1,
        checks.sprout_signatures == 0 <==> counts.sprout_joinsplits == 0,
{
}

/// Adding counts adds up each of them.
pub proof fn law_counts_add_up(sums: &mut ActionCounts, other: ActionCounts)
    requires
        call_ensures(ActionCounts::add_counts, (sums, &other), ()),
    ensures
        final(sums).transparent_inputs - old(sums).transparent_inputs == other.transparent_inputs,
        final(sums).sapling_spends - old(sums).sapling_spends == other.sapling_spends,
        final(sums).sapling_outputs - old(sums).sapling_outputs == other.sapling_outputs,
        final(sums).orchard_actions - old(sums).orchard_actions == other.orchard_actions,
        final(sums).sprout_joinsplits - old(sums).sprout_joinsplits == other.sprout_joinsplits,
{
}

/// Adding checks adds up each of them.
pub proof fn law_checks_add_up(sums: &mut VerifierCheckCounts, other: VerifierCheckCounts)
    requires
        call_ensures(VerifierCheckCounts::add_counts, (sums, &other), ()),
    ensures
        final(sums).sapling_bundles - old(sums).sapling_bundles == other.sapling_bundles,
        final(sums).orchard_bundles - old(sums).orchard_bundles == other.orchard_bundles,
        final(sums).sprout_joinsplit_proofs - old(sums).sprout_joinsplit_proofs
            == other.sprout_joinsplit_proofs,
        final(sums).sprout_signatures - old(sums).sprout_signatures == other.sprout_signatures,
{
}

/// The number of transactions takes one byte up to 252, and otherwise one byte and as many as
/// the smallest of two, four and eight that can hold it.
pub proof fn law_transaction_counts_are_compact(count: usize, len: usize)
    requires
        call_ensures(compact_size_len, (count,), len),
    ensures
        len == 1 <==> count < 253,
        len == 3 <==> 253 <= count < 0x1_0000,
        len == 5 <==> 0x1_0000 <= count < 0x1_0000_0000,
        len == 9 <==> 0x1_0000_0000 <= count,
{
}

/// A block takes its header of 1487 bytes, the number of its transactions and the transactions.
pub proof fn law_block_holds_header_count_and_transactions(
    tx_bytes: usize,
    tx_count: usize,
    count_len: usize,
    bytes: usize,
)
    requires
        call_ensures(compact_size_len, (tx_count,), count_len),
        call_ensures(modeled_block_bytes, (tx_bytes, tx_count), bytes),
    ensures
        bytes == 1_487 + count_len + tx_bytes,
{
}

/// A mix gives back the percentages that it was made with, and their sum.
pub proof fn law_mix_keeps_its_percentages(
    sapling: u8,
    orchard: u8,
    sprout: u8,
    mix: ShieldedActionMix,
    pool: ShieldedPool,
    percent: u8,
    total: u16,
)
    requires
        call_ensures(ShieldedActionMix::new, (sapling, orchard, sprout), mix),
        call_ensures(ShieldedActionMix::percent, (&mix, pool), percent),
        call_ensures(ShieldedActionMix::total_percent, (&mix,), total),
    ensures
        pool is Sapling ==> percent == sapling,
        pool is Orchard ==> percent == orchard,
        pool is Sprout ==> percent == sprout,
        total == sapling + orchard + sprout,
{
    assert(mix.percents@[0] == sapling && mix.percents@[1] == orchard && mix.percents@[2]
        == sprout);
}

/// Where a mix makes up the whole, its pools get all of the actions, and each gets its
/// percentage rounded down or up. What is rounded up has the larger remainder, or the same and
/// the larger percentage, or the same again and comes later.
pub proof fn law_mix_is_rounded_by_remainders(
    mix: ShieldedActionMix,
    total: usize,
    targets: ShieldedActionCounts,
    i: int,
    j: int,
)
    requires
        call_ensures(ShieldedActionMix::target_counts, (&mix, total), targets),
        mix.percents@[0] + mix.percents@[1] + mix.percents@[2] == 100,
        0 <= i < 3,
        0 <= j < 3,
    ensures
        targets.counts@[0] + targets.counts@[1] + targets.counts@[2] == total,
        total * mix.percents@[i] / 100 <= targets.counts@[i] <= total * mix.percents@[i] / 100 + 1,
        total * mix.percents@[i] % 100 == 0 ==> targets.counts@[i] == total * mix.percents@[i]
            / 100,
        targets.counts@[i] > total * mix.percents@[i] / 100 && targets.counts@[j] <= total
            * mix.percents@[j] / 100 ==> {
            let a = total * mix.percents@[i] % 100;
            let b = total * mix.percents@[j] % 100;
            ||| a > b
            ||| a == b && mix.percents@[i] > mix.percents@[j]
            ||| a == b && mix.percents@[i] == mix.percents@[j] && i > j
        },
{
    let p0 = mix.percents@[0] as int;
    let p1 = mix.percents@[1] as int;
    let p2 = mix.percents@[2] as int;
    let n = total as int;
    assert(n * p0 + n * p1 + n * p2 == 100 * n) by (nonlinear_arith)
        requires
            p0 + p1 + p2 == 100,
    ;
    assert(targets.counts@[0] == mix.targets(n)[0]);
    assert(targets.counts@[1] == mix.targets(n)[1]);
    assert(targets.counts@[2] == mix.targets(n)[2]);
    reveal_with_fuel(given_out, 3);
}

/// The actions and the percentages of the pools are rendered alike, with the names of the pools.
pub proof fn law_pool_fields_are_named(
    counts: ShieldedActionCounts,
    mix: ShieldedActionMix,
    actions: String,
    percents: String,
)
    requires
        call_ensures(pool_action_fields, (&counts,), actions),
        call_ensures(pool_mix_fields, (&mix,), percents),
    ensures
        actions@ == "sapling="@ + decimal(counts.counts@[0] as nat) + " orchard="@ + decimal(
            counts.counts@[1] as nat,
        ) + " sprout="@ + decimal(counts.counts@[2] as nat),
        percents@ == "sapling="@ + decimal(mix.percents@[0] as nat) + " orchard="@ + decimal(
            mix.percents@[1] as nat,
        ) + " sprout="@ + decimal(mix.percents@[2] as nat),
{
    reveal_strlit("sapling=");
    reveal_strlit(" orchard=");
    reveal_strlit(" sprout=");
    reveal_strlit("sapling");
    reveal_strlit("orchard");
    reveal_strlit("sprout");
    reveal_strlit("=");
    reveal_strlit(" ");
    assert(actions@ =~= "sapling="@ + decimal(counts.counts@[0] as nat) + " orchard="@ + decimal(
        counts.counts@[1] as nat,
    ) + " sprout="@ + decimal(counts.counts@[2] as nat));
    assert(percents@ =~= "sapling="@ + decimal(mix.percents@[0] as nat) + " orchard="@ + decimal(
        mix.percents@[1] as nat,
    ) + " sprout="@ + decimal(mix.percents@[2] as nat));
}

}
