//! What the best workload of a mix comes down to.

use crate::block_workload::{
    action_limit, bounds_fit, build_workload, candidate_bound, candidate_fits, do_workloads_fit,
    fault_at, first_fault, is_best_total, is_workable, limit_of_first, max_total_actions,
    picked_sum, pool_bound, select_best_block_workload, validate_benchmark_cases, BenchmarkCase,
    CaseFault, Workload,
};
use crate::candidate_laws::{pool_actions, pool_percent};
use crate::mix_laws::{law_targets_add_up, law_targets_keep_the_mix};
use crate::pool_selection::{
    are_countable, lemma_longest_of, longest_of, matches_mix, select_candidates_for_counts,
    selection,
};
use crate::selection_laws::{
    actions_sum, are_pure, bytes_sum, has_only, lemma_bytes_sum, lemma_has_only, lemma_make_up,
    make_up,
};
use crate::workload::{
    as_ints, one_if_any, pool_at, CandidateTx, ShieldedActionCounts, ShieldedActionMix,
    ShieldedPool,
};
use vstd::prelude::*;

verus! {

/// Whether `total` actions, less three for rounding, are within reach of a pool's part in the
/// mix: as many copies of one of its candidates as two million bytes hold have at least the
/// pool's percentage of them.
pub open spec fn is_within_reach(
    total: int,
    mix: ShieldedActionMix,
    pool: ShieldedPool,
    candidates: Seq<CandidateTx>,
) -> bool {
    exists|c: int, copies: int|
        {
            &&& 0 <= c < candidates.len()
            &&& has_only(#[trigger] candidates[c], pool)
            &&& 0 <= copies
            &&& #[trigger] (copies * candidates[c].serialized_len) <= 2_000_000
            &&& (total - 3) * pool_percent(mix, pool) <= 100 * (copies * pool_actions(
                candidates[c].counts,
                pool,
            ))
        }
}

proof fn lemma_candidate_bound(
    candidate: CandidateTx,
    pool: ShieldedPool,
    percent: int,
    total: int,
    copies: int,
)
    requires
        has_only(candidate, pool),
        candidate.serialized_len > 0,
        percent > 0,
    ensures
        total <= candidate_bound(candidate, pool, percent) ==> {
            let most = 2_000_000int / candidate.serialized_len as int;
            &&& 0 <= most
            &&& most * candidate.serialized_len <= 2_000_000
            &&& (total - 3) * percent <= 100 * (most * pool_actions(candidate.counts, pool))
        },
        0 <= copies && copies * candidate.serialized_len <= 2_000_000 && (total - 3) * percent
            <= 100 * (copies * pool_actions(candidate.counts, pool)) ==> total <= candidate_bound(
            candidate,
            pool,
            percent,
        ),
{
    let len = candidate.serialized_len as int;
    let actions = pool_actions(candidate.counts, pool);
    let most = 2_000_000int / len;
    let product = most * actions * 100;
    assert(candidate.counts.actions(pool) == actions);
    assert(candidate_bound(candidate, pool, percent) == product / percent + 3);
    assert(0 <= most && most * len <= 2_000_000) by (nonlinear_arith)
        requires
            most == 2_000_000int / len,
            len > 0,
    ;
    assert(product == 100 * (most * actions)) by (nonlinear_arith)
        requires
            product == most * actions * 100,
    ;
    if total <= candidate_bound(candidate, pool, percent) {
        assert((total - 3) * percent <= product) by (nonlinear_arith)
            requires
                total - 3 <= product / percent,
                percent > 0,
        ;
    }
    if 0 <= copies && copies * len <= 2_000_000 && (total - 3) * percent <= 100 * (copies
        * actions) {
        assert(copies <= most) by (nonlinear_arith)
            requires
                copies * len <= 2_000_000,
                most == 2_000_000int / len,
                len > 0,
        ;
        assert(copies * actions <= most * actions) by (nonlinear_arith)
            requires
                copies <= most,
                actions >= 0,
        ;
        assert(total - 3 <= product / percent) by (nonlinear_arith)
            requires
                (total - 3) * percent <= product,
                percent > 0,
        ;
    }
}

/// Whether one of the first `upto` candidates puts `total` within reach.
spec fn is_reached_by_first(
    total: int,
    percent: int,
    pool: ShieldedPool,
    candidates: Seq<CandidateTx>,
    upto: int,
) -> bool {
    exists|c: int|
        0 <= c < upto && has_only(#[trigger] candidates[c], pool) && total <= candidate_bound(
            candidates[c],
            pool,
            percent,
        )
}

proof fn lemma_pool_bound(
    total: int,
    percent: int,
    pool: ShieldedPool,
    candidates: Seq<CandidateTx>,
    upto: int,
)
    requires
        0 <= upto <= candidates.len(),
    ensures
        match pool_bound(pool, percent, candidates, upto) {
            Some(bound) => total <= bound <==> is_reached_by_first(
                total,
                percent,
                pool,
                candidates,
                upto,
            ),
            None => forall|c: int| 0 <= c < upto ==> !has_only(#[trigger] candidates[c], pool),
        },
        pool_bound(pool, percent, candidates, upto) is Some ==> exists|c: int|
            0 <= c < upto && has_only(#[trigger] candidates[c], pool),
    decreases upto,
{
    if upto > 0 {
        lemma_pool_bound(total, percent, pool, candidates, upto - 1);
        let last = candidates[upto - 1];
        lemma_has_only(last, pool);
        if has_only(last, pool) && total <= candidate_bound(last, pool, percent) {
            assert(is_reached_by_first(total, percent, pool, candidates, upto));
        }
        if is_reached_by_first(total, percent, pool, candidates, upto - 1) {
            let c = choose|c: int|
                0 <= c < upto - 1 && has_only(#[trigger] candidates[c], pool) && total
                    <= candidate_bound(candidates[c], pool, percent);
            assert(has_only(candidates[c], pool));
            assert(is_reached_by_first(total, percent, pool, candidates, upto));
        }
        if is_reached_by_first(total, percent, pool, candidates, upto) {
            let c = choose|c: int|
                0 <= c < upto && has_only(#[trigger] candidates[c], pool) && total
                    <= candidate_bound(candidates[c], pool, percent);
            if c < upto - 1 {
                assert(has_only(candidates[c], pool));
                assert(is_reached_by_first(total, percent, pool, candidates, upto - 1));
            }
        }
    }
}

proof fn lemma_within_reach(
    total: int,
    mix: ShieldedActionMix,
    pool: ShieldedPool,
    candidates: Seq<CandidateTx>,
)
    requires
        pool_percent(mix, pool) > 0,
        forall|c: int| 0 <= c < candidates.len() ==> (#[trigger] candidates[c]).serialized_len > 0,
    ensures
        is_within_reach(total, mix, pool, candidates) == is_reached_by_first(
            total,
            pool_percent(mix, pool),
            pool,
            candidates,
            candidates.len() as int,
        ),
{
    let percent = pool_percent(mix, pool);
    let all = candidates.len() as int;
    if is_within_reach(total, mix, pool, candidates) {
        let (c, copies) = choose|c: int, copies: int|
            {
                &&& 0 <= c < candidates.len()
                &&& has_only(#[trigger] candidates[c], pool)
                &&& 0 <= copies
                &&& #[trigger] (copies * candidates[c].serialized_len) <= 2_000_000
                &&& (total - 3) * pool_percent(mix, pool) <= 100 * (copies * pool_actions(
                    candidates[c].counts,
                    pool,
                ))
            };
        lemma_candidate_bound(candidates[c], pool, percent, total, copies);
        assert(has_only(candidates[c], pool));
    }
    if is_reached_by_first(total, percent, pool, candidates, all) {
        let c = choose|c: int|
            0 <= c < all && has_only(#[trigger] candidates[c], pool) && total <= candidate_bound(
                candidates[c],
                pool,
                percent,
            );
        lemma_candidate_bound(candidates[c], pool, percent, total, 0);
        let most = 2_000_000int / candidates[c].serialized_len as int;
        assert(has_only(candidates[c], pool));
        assert(most * candidates[c].serialized_len <= 2_000_000);
    }
}

/// The limit on the actions of a workload is the largest number that is within reach of every
/// pool that has a part in the mix. There is none exactly where no pool has a part, or one that
/// has a part has no candidate.
pub proof fn law_limit_is_what_every_pool_can_reach(
    mix: ShieldedActionMix,
    candidates: Vec<CandidateTx>,
    limit: Option<usize>,
    total: int,
)
    requires
        call_ensures(max_total_actions, (&mix, &candidates), limit),
        forall|c: int|
            0 <= c < candidates@.len() ==> (#[trigger] candidates@[c]).serialized_len > 0,
    ensures
        limit matches Some(most) ==> (total <= most <==> forall|pool: ShieldedPool| #[trigger]
            pool_percent(mix, pool) > 0 ==> is_within_reach(total, mix, pool, candidates@)),
        limit is None <==> (forall|pool: ShieldedPool| #[trigger] pool_percent(mix, pool) == 0)
            || exists|pool: ShieldedPool| #[trigger]
            pool_percent(mix, pool) > 0 && forall|c: int|
                0 <= c < candidates@.len() ==> !has_only(#[trigger] candidates@[c], pool),
{
    let all = candidates@;
    let n = all.len() as int;
    reveal_with_fuel(limit_of_first, 4);
    let sapling = ShieldedPool::Sapling;
    let orchard = ShieldedPool::Orchard;
    let sprout = ShieldedPool::Sprout;
    assert(pool_at(0) == sapling && pool_at(1) == orchard && pool_at(2) == sprout);
    lemma_pool_bound(total, pool_percent(mix, sapling), sapling, all, n);
    lemma_pool_bound(total, pool_percent(mix, orchard), orchard, all, n);
    lemma_pool_bound(total, pool_percent(mix, sprout), sprout, all, n);
    if pool_percent(mix, sapling) > 0 {
        lemma_within_reach(total, mix, sapling, all);
    }
    if pool_percent(mix, orchard) > 0 {
        lemma_within_reach(total, mix, orchard, all);
    }
    if pool_percent(mix, sprout) > 0 {
        lemma_within_reach(total, mix, sprout, all);
    }
    assert(limit is Some == action_limit(mix, all) is Some);
}

/// The number of bytes that encode a number of transactions.
pub open spec fn encoded_len(count: int) -> int {
    if count < 253 {
        1
    } else if count < 0x1_0000 {
        3
    } else if count < 0x1_0000_0000 {
        5
    } else {
        9
    }
}

/// The bytes of a block with the picked transactions.
pub open spec fn picked_block_bytes(picks: Seq<usize>, candidates: Seq<CandidateTx>) -> int {
    1_487 + encoded_len(picks.len() as int) + bytes_sum(picks, candidates)
}

/// Each pick that has actions in one pool only has at least one action.
proof fn lemma_picks_have_actions(picks: Seq<usize>, candidates: Seq<CandidateTx>)
    requires
        are_pure(picks, candidates),
    ensures
        picks.len() <= actions_sum(picks, ShieldedPool::Sapling, candidates) + actions_sum(
            picks,
            ShieldedPool::Orchard,
            candidates,
        ) + actions_sum(picks, ShieldedPool::Sprout, candidates),
    decreases picks.len(),
{
    if picks.len() > 0 {
        let rest = picks.drop_last();
        assert forall|i: int| 0 <= i < rest.len() implies (#[trigger] rest[i]) < candidates.len()
            && (has_only(candidates[rest[i] as int], ShieldedPool::Sapling) || has_only(
            candidates[rest[i] as int],
            ShieldedPool::Orchard,
        ) || has_only(candidates[rest[i] as int], ShieldedPool::Sprout)) by {
            assert(rest[i] == picks[i]);
        }
        lemma_picks_have_actions(rest, candidates);
        let last = picks[picks.len() - 1];
        assert(picks.last() == last);
    }
}

/// There is a best total wherever some total within the limit can be worked.
proof fn lemma_best_exists(
    mix: ShieldedActionMix,
    candidates: Seq<CandidateTx>,
    total: int,
    upto: int,
)
    requires
        action_limit(mix, candidates) matches Some(limit) && upto <= limit && forall|more: int|
            upto < more <= limit ==> !#[trigger] is_workable(mix, candidates, more),
        1 <= total <= upto,
        is_workable(mix, candidates, total),
    ensures
        exists|best: int| #[trigger] is_best_total(mix, candidates, best),
    decreases upto,
{
    if is_workable(mix, candidates, upto) {
        assert(is_best_total(mix, candidates, upto));
    } else {
        lemma_best_exists(mix, candidates, total, upto - 1);
    }
}

/// What is selected for a total can be worked, where picks with the same actions leave room for
/// a transaction for each action.
proof fn lemma_workable(
    mix: ShieldedActionMix,
    candidates: Vec<CandidateTx>,
    total: usize,
    targets: ShieldedActionCounts,
    selected: Option<Vec<usize>>,
    picks: Seq<usize>,
)
    requires
        mix.percents@[0] + mix.percents@[1] + mix.percents@[2] == 100,
        call_ensures(ShieldedActionMix::target_counts, (&mix, total), targets),
        call_ensures(select_candidates_for_counts, (&targets, &candidates), selected),
        make_up(
            picks,
            targets.counts@[0] as int,
            targets.counts@[1] as int,
            targets.counts@[2] as int,
            candidates@,
        ),
        1_487 + encoded_len(total as int) + bytes_sum(picks, candidates@) <= 2_000_000,
    ensures
        is_workable(mix, candidates@, total as int),
{
    let sapling = targets.counts@[0] as int;
    let orchard = targets.counts@[1] as int;
    let sprout = targets.counts@[2] as int;
    law_targets_add_up(mix, total as int);
    assert(targets.counts@[0] == mix.targets(total as int)[0]);
    assert(targets.counts@[1] == mix.targets(total as int)[1]);
    assert(targets.counts@[2] == mix.targets(total as int)[2]);
    assert(as_ints(targets.counts@) =~= mix.targets(total as int));
    assert(as_ints(targets.counts@) =~= seq![sapling, orchard, sprout]);
    lemma_make_up(picks, sapling, orchard, sprout, candidates@);
    lemma_bytes_sum(picks, candidates@);
    assert(selected is Some);
    let chosen = selected->0@;
    lemma_make_up(chosen, sapling, orchard, sprout, candidates@);
    lemma_picks_have_actions(chosen, candidates@);
}

/// The best workload has exactly the actions of its mix, from candidates with actions in one
/// pool only, and fits into a block of two million bytes. No total within reach of all pools
/// that has more actions can be worked: picks with these actions do not leave room for a
/// transaction for each action.
pub proof fn law_best_workload_is_exact_and_largest(
    mix: ShieldedActionMix,
    candidates: Vec<CandidateTx>,
    limit: Option<usize>,
    best: Option<(ShieldedActionCounts, Vec<usize>)>,
    total: usize,
    targets: ShieldedActionCounts,
    selected: Option<Vec<usize>>,
    picks: Seq<usize>,
)
    requires
        mix.percents@[0] + mix.percents@[1] + mix.percents@[2] == 100,
        forall|c: int|
            0 <= c < candidates@.len() ==> (#[trigger] candidates@[c]).serialized_len > 0,
        call_ensures(max_total_actions, (&mix, &candidates), limit),
        call_ensures(select_best_block_workload, (&mix, &candidates), best),
        call_ensures(ShieldedActionMix::target_counts, (&mix, total), targets),
        call_ensures(select_candidates_for_counts, (&targets, &candidates), selected),
    ensures
        best matches Some((counts, chosen)) ==> {
            let sum = counts.counts@[0] + counts.counts@[1] + counts.counts@[2];
            &&& make_up(
                chosen@,
                counts.counts@[0] as int,
                counts.counts@[1] as int,
                counts.counts@[2] as int,
                candidates@,
            )
            &&& picked_block_bytes(chosen@, candidates@) <= 2_000_000
            &&& 1 <= sum
            &&& forall|i: int|
                0 <= i < 3 ==> sum * mix.percents@[i] / 100 <= #[trigger] counts.counts@[i] <= sum
                    * mix.percents@[i] / 100 + 1
        },
        total >= 1 && make_up(
            picks,
            targets.counts@[0] as int,
            targets.counts@[1] as int,
            targets.counts@[2] as int,
            candidates@,
        ) && 1_487 + encoded_len(total as int) + bytes_sum(picks, candidates@) <= 2_000_000 && (
        forall|pool: ShieldedPool| #[trigger]
            pool_percent(mix, pool) > 0 ==> is_within_reach(total as int, mix, pool, candidates@))
            ==> (best matches Some((counts, chosen)) && counts.counts@[0] + counts.counts@[1]
            + counts.counts@[2] >= total),
{
    law_limit_is_what_every_pool_can_reach(mix, candidates, limit, total as int);
    if let Some((counts, chosen)) = best {
        let t = choose|t: int|
            {
                &&& #[trigger] is_best_total(mix, candidates@, t)
                &&& as_ints(counts.counts@) == mix.targets(t)
                &&& chosen@ == selection(mix.targets(t), candidates@)
                &&& matches_mix(chosen@, mix.targets(t), candidates@)
            };
        lemma_best(mix, candidates@, t, counts, chosen@);
    }
    if total >= 1 && make_up(
        picks,
        targets.counts@[0] as int,
        targets.counts@[1] as int,
        targets.counts@[2] as int,
        candidates@,
    ) && 1_487 + encoded_len(total as int) + bytes_sum(picks, candidates@) <= 2_000_000 && (
    forall|pool: ShieldedPool| #[trigger]
        pool_percent(mix, pool) > 0 ==> is_within_reach(total as int, mix, pool, candidates@)) {
        lemma_workable(mix, candidates, total, targets, selected, picks);
        lemma_limit_is_there(mix, candidates, limit, total as int);
        lemma_best_exists(
            mix,
            candidates@,
            total as int,
            action_limit(mix, candidates@)->0,
        );
        let other = choose|t: int| #[trigger] is_best_total(mix, candidates@, t);
        assert(best is Some);
    }
}

/// There is a limit where a total is within reach of all pools.
proof fn lemma_limit_is_there(
    mix: ShieldedActionMix,
    candidates: Vec<CandidateTx>,
    limit: Option<usize>,
    total: int,
)
    requires
        mix.percents@[0] + mix.percents@[1] + mix.percents@[2] == 100,
        forall|c: int|
            0 <= c < candidates@.len() ==> (#[trigger] candidates@[c]).serialized_len > 0,
        call_ensures(max_total_actions, (&mix, &candidates), limit),
        forall|pool: ShieldedPool| #[trigger]
            pool_percent(mix, pool) > 0 ==> is_within_reach(total, mix, pool, candidates@),
    ensures
        limit is Some,
        total <= limit->0,
        action_limit(mix, candidates@) == Some(limit->0 as int),
{
    law_limit_is_what_every_pool_can_reach(mix, candidates, limit, total);
    if limit is None {
        assert(pool_percent(mix, ShieldedPool::Sapling) + pool_percent(mix, ShieldedPool::Orchard)
            + pool_percent(mix, ShieldedPool::Sprout) == 100);
        let pool = choose|pool: ShieldedPool| #[trigger]
            pool_percent(mix, pool) > 0 && forall|c: int|
                0 <= c < candidates@.len() ==> !has_only(#[trigger] candidates@[c], pool);
        assert(is_within_reach(total, mix, pool, candidates@));
    }
}

/// What a best total comes down to.
proof fn lemma_best(
    mix: ShieldedActionMix,
    candidates: Seq<CandidateTx>,
    total: int,
    counts: ShieldedActionCounts,
    picks: Seq<usize>,
)
    requires
        mix.percents@[0] + mix.percents@[1] + mix.percents@[2] == 100,
        is_best_total(mix, candidates, total),
        as_ints(counts.counts@) == mix.targets(total),
        picks == selection(mix.targets(total), candidates),
        matches_mix(picks, mix.targets(total), candidates),
    ensures
        counts.counts@[0] + counts.counts@[1] + counts.counts@[2] == total,
        1 <= total,
        make_up(
            picks,
            counts.counts@[0] as int,
            counts.counts@[1] as int,
            counts.counts@[2] as int,
            candidates,
        ),
        picked_block_bytes(picks, candidates) <= 2_000_000,
        forall|i: int|
            0 <= i < 3 ==> total * mix.percents@[i] / 100 <= #[trigger] counts.counts@[i] <= total
                * mix.percents@[i] / 100 + 1,
{
    let sapling = counts.counts@[0] as int;
    let orchard = counts.counts@[1] as int;
    let sprout = counts.counts@[2] as int;
    law_targets_add_up(mix, total);
    assert(as_ints(counts.counts@)[0] == sapling && as_ints(counts.counts@)[1] == orchard
        && as_ints(counts.counts@)[2] == sprout);
    assert(mix.targets(total) =~= seq![sapling, orchard, sprout]);
    lemma_make_up(picks, sapling, orchard, sprout, candidates);
    lemma_bytes_sum(picks, candidates);
    assert forall|i: int| 0 <= i < 3 implies total * mix.percents@[i] / 100
        <= #[trigger] counts.counts@[i] <= total * mix.percents@[i] / 100 + 1 by {
        law_targets_keep_the_mix(mix, total, i);
        assert(as_ints(counts.counts@)[i] == counts.counts@[i]);
    }
}

/// The sum of a number over the picked candidates.
pub open spec fn sum_over(
    picks: Seq<usize>,
    candidates: Seq<CandidateTx>,
    number: spec_fn(CandidateTx) -> int,
) -> int {
    picks.fold_left(0int, |sum: int, pick: usize| sum + number(candidates[pick as int]))
}

proof fn lemma_sum_over(
    picks: Seq<usize>,
    candidates: Seq<CandidateTx>,
    number: spec_fn(CandidateTx) -> int,
    same: spec_fn(CandidateTx) -> int,
)
    requires
        forall|c: CandidateTx| #[trigger] number(c) == same(c),
    ensures
        picked_sum(picks, candidates, number) == sum_over(picks, candidates, same),
    decreases picks.len(),
{
    if picks.len() > 0 {
        lemma_sum_over(picks.drop_last(), candidates, number, same);
        assert(number(candidates[picks.last() as int]) == same(candidates[picks.last() as int]));
    }
}

/// The figures of a workload are the sums over its transactions: their bytes, their number,
/// each kind of their actions and checks. Its block takes its header, the number of its
/// transactions and their bytes, and no more than two million bytes in all.
pub proof fn law_workload_figures_add_up(
    mix: ShieldedActionMix,
    candidates: Vec<CandidateTx>,
    built: Option<Workload>,
)
    requires
        call_ensures(build_workload, (&mix, &candidates), built),
    ensures
        built matches Some(workload) ==> {
            let picks = workload.selected@;
            let stats = workload.stats;
            let all = candidates@;
            &&& stats.serialized_bytes == bytes_sum(picks, all)
            &&& stats.repeated_transactions == picks.len()
            &&& stats.unique_transactions == picks.to_set().len()
            &&& stats.modeled_block_bytes == picked_block_bytes(picks, all)
            &&& stats.modeled_block_bytes <= 2_000_000
            &&& stats.action_counts.transparent_inputs == sum_over(
                picks,
                all,
                |c: CandidateTx| c.counts.transparent_inputs as int,
            )
            &&& stats.action_counts.sapling_spends == sum_over(
                picks,
                all,
                |c: CandidateTx| c.counts.sapling_spends as int,
            )
            &&& stats.action_counts.sapling_outputs == sum_over(
                picks,
                all,
                |c: CandidateTx| c.counts.sapling_outputs as int,
            )
            &&& stats.action_counts.orchard_actions == sum_over(
                picks,
                all,
                |c: CandidateTx| c.counts.orchard_actions as int,
            )
            &&& stats.action_counts.sprout_joinsplits == sum_over(
                picks,
                all,
                |c: CandidateTx| c.counts.sprout_joinsplits as int,
            )
            &&& stats.verifier_checks.sapling_bundles == sum_over(
                picks,
                all,
                |c: CandidateTx|
                    if c.counts.sapling_spends + c.counts.sapling_outputs == 0 {
                        0int
                    } else {
                        1
                    },
            )
            &&& stats.verifier_checks.orchard_bundles == sum_over(
                picks,
                all,
                |c: CandidateTx|
                    if c.counts.orchard_actions == 0 {
                        0int
                    } else {
                        1
                    },
            )
            &&& stats.verifier_checks.sprout_joinsplit_proofs == sum_over(
                picks,
                all,
                |c: CandidateTx| c.counts.sprout_joinsplits as int,
            )
            &&& stats.verifier_checks.sprout_signatures == sum_over(
                picks,
                all,
                |c: CandidateTx|
                    if c.counts.sprout_joinsplits == 0 {
                        0int
                    } else {
                        1
                    },
            )
        },
{
    if let Some(workload) = built {
        let picks = workload.selected@;
        let all = candidates@;
        lemma_bytes_sum(picks, all);
        lemma_sum_over(
            picks,
            all,
            |c: CandidateTx| c.counts.transparent_inputs as int,
            |c: CandidateTx| c.counts.transparent_inputs as int,
        );
        lemma_sum_over(
            picks,
            all,
            |c: CandidateTx| c.counts.sapling_spends as int,
            |c: CandidateTx| c.counts.sapling_spends as int,
        );
        lemma_sum_over(
            picks,
            all,
            |c: CandidateTx| c.counts.sapling_outputs as int,
            |c: CandidateTx| c.counts.sapling_outputs as int,
        );
        lemma_sum_over(
            picks,
            all,
            |c: CandidateTx| c.counts.orchard_actions as int,
            |c: CandidateTx| c.counts.orchard_actions as int,
        );
        lemma_sum_over(
            picks,
            all,
            |c: CandidateTx| c.counts.sprout_joinsplits as int,
            |c: CandidateTx| c.counts.sprout_joinsplits as int,
        );
        lemma_sum_over(
            picks,
            all,
            |c: CandidateTx| one_if_any(c.counts.actions(ShieldedPool::Sapling)),
            |c: CandidateTx|
                if c.counts.sapling_spends + c.counts.sapling_outputs == 0 {
                    0int
                } else {
                    1
                },
        );
        lemma_sum_over(
            picks,
            all,
            |c: CandidateTx| one_if_any(c.counts.actions(ShieldedPool::Orchard)),
            |c: CandidateTx|
                if c.counts.orchard_actions == 0 {
                    0int
                } else {
                    1
                },
        );
        lemma_sum_over(
            picks,
            all,
            |c: CandidateTx| c.counts.actions(ShieldedPool::Sprout),
            |c: CandidateTx| c.counts.sprout_joinsplits as int,
        );
        lemma_sum_over(
            picks,
            all,
            |c: CandidateTx| one_if_any(c.counts.actions(ShieldedPool::Sprout)),
            |c: CandidateTx|
                if c.counts.sprout_joinsplits == 0 {
                    0int
                } else {
                    1
                },
        );
    }
}

/// Whether all picks with actions in a pool are the candidate `c`, which has its actions there
/// and nowhere else.
pub open spec fn are_copies(
    picks: Seq<usize>,
    pool: ShieldedPool,
    c: int,
    candidates: Seq<CandidateTx>,
) -> bool {
    &&& 0 <= c < candidates.len()
    &&& has_only(candidates[c], pool)
    &&& forall|i: int|
        0 <= i < picks.len() ==> (has_only(candidates[#[trigger] picks[i] as int], pool)
            ==> picks[i] == c)
}

proof fn lemma_copies(
    picks: Seq<usize>,
    pool: ShieldedPool,
    c: int,
    candidates: Seq<CandidateTx>,
) -> (copies: int)
    requires
        are_pure(picks, candidates),
        are_copies(picks, pool, c, candidates),
    ensures
        0 <= copies,
        actions_sum(picks, pool, candidates) == copies * pool_actions(candidates[c].counts, pool),
        copies * candidates[c].serialized_len <= bytes_sum(picks, candidates),
    decreases picks.len(),
{
    let actions = pool_actions(candidates[c].counts, pool);
    let len = candidates[c].serialized_len as int;
    if picks.len() == 0 {
        assert(0 * actions == 0 && 0 * len == 0);
        0
    } else {
        let rest = picks.drop_last();
        assert forall|i: int| 0 <= i < rest.len() implies (#[trigger] rest[i]) < candidates.len()
            && (has_only(candidates[rest[i] as int], ShieldedPool::Sapling) || has_only(
            candidates[rest[i] as int],
            ShieldedPool::Orchard,
        ) || has_only(candidates[rest[i] as int], ShieldedPool::Sprout)) by {
            assert(rest[i] == picks[i]);
        }
        assert forall|i: int| 0 <= i < rest.len() implies (has_only(
            candidates[#[trigger] rest[i] as int],
            pool,
        ) ==> rest[i] == c) by {
            assert(rest[i] == picks[i]);
        }
        let earlier = lemma_copies(rest, pool, c, candidates);
        let last = picks[picks.len() - 1];
        assert(picks.last() == last);
        if has_only(candidates[last as int], pool) {
            assert((earlier + 1) * actions == earlier * actions + actions && (earlier + 1) * len
                == earlier * len + len) by (nonlinear_arith);
            earlier + 1
        } else {
            earlier
        }
    }
}

/// A workload that is built fills the block: no workload of the mix has more actions that takes
/// copies of one candidate in each pool and leaves room for a transaction for each action, where
/// rounding takes no more than three actions' part from a pool.
pub proof fn law_built_workload_fills_the_block(
    mix: ShieldedActionMix,
    candidates: Vec<CandidateTx>,
    limit: Option<usize>,
    built: Option<Workload>,
    total: usize,
    targets: ShieldedActionCounts,
    selected: Option<Vec<usize>>,
    picks: Seq<usize>,
    sapling: int,
    orchard: int,
    sprout: int,
)
    requires
        mix.percents@[0] + mix.percents@[1] + mix.percents@[2] == 100,
        forall|c: int|
            0 <= c < candidates@.len() ==> (#[trigger] candidates@[c]).serialized_len > 0,
        call_ensures(max_total_actions, (&mix, &candidates), limit),
        call_ensures(build_workload, (&mix, &candidates), built),
        call_ensures(ShieldedActionMix::target_counts, (&mix, total), targets),
        call_ensures(select_candidates_for_counts, (&targets, &candidates), selected),
        total >= 1,
        make_up(
            picks,
            targets.counts@[0] as int,
            targets.counts@[1] as int,
            targets.counts@[2] as int,
            candidates@,
        ),
        1_487 + encoded_len(total as int) + bytes_sum(picks, candidates@) <= 2_000_000,
        mix.percents@[0] > 0 ==> are_copies(
            picks,
            ShieldedPool::Sapling,
            sapling,
            candidates@,
        ) && (total - 3) * mix.percents@[0] <= 100 * targets.counts@[0],
        mix.percents@[1] > 0 ==> are_copies(
            picks,
            ShieldedPool::Orchard,
            orchard,
            candidates@,
        ) && (total - 3) * mix.percents@[1] <= 100 * targets.counts@[1],
        mix.percents@[2] > 0 ==> are_copies(
            picks,
            ShieldedPool::Sprout,
            sprout,
            candidates@,
        ) && (total - 3) * mix.percents@[2] <= 100 * targets.counts@[2],
    ensures
        total <= limit->0,
        built matches Some(workload) && workload.target_action_counts.counts@[0]
            + workload.target_action_counts.counts@[1] + workload.target_action_counts.counts@[2]
            >= total,
{
    let all = candidates@;
    let whole = total as int;
    assert(0 <= encoded_len(whole));
    if mix.percents@[0] > 0 {
        lemma_copies_are_within_reach(mix, all, whole, ShieldedPool::Sapling, picks, sapling);
    }
    if mix.percents@[1] > 0 {
        lemma_copies_are_within_reach(mix, all, whole, ShieldedPool::Orchard, picks, orchard);
    }
    if mix.percents@[2] > 0 {
        lemma_copies_are_within_reach(mix, all, whole, ShieldedPool::Sprout, picks, sprout);
    }
    lemma_workable(mix, candidates, total, targets, selected, picks);
    lemma_limit_is_there(mix, candidates, limit, total as int);
    lemma_best_exists(mix, all, total as int, limit->0 as int);
    let other = choose|t: int| #[trigger] is_best_total(mix, all, t);
    assert(built is Some);
    let workload = built->0;
    let t = choose|t: int|
        {
            &&& #[trigger] is_best_total(mix, all, t)
            &&& as_ints(workload.target_action_counts.counts@) == mix.targets(t)
            &&& workload.selected@ == selection(mix.targets(t), all)
        };
    law_targets_add_up(mix, t);
    let counts = workload.target_action_counts.counts@;
    assert(as_ints(counts)[0] == counts[0] && as_ints(counts)[1] == counts[1] && as_ints(counts)[2]
        == counts[2]);
}

proof fn lemma_copies_are_within_reach(
    mix: ShieldedActionMix,
    candidates: Seq<CandidateTx>,
    total: int,
    pool: ShieldedPool,
    picks: Seq<usize>,
    c: int,
)
    requires
        are_pure(picks, candidates),
        are_copies(picks, pool, c, candidates),
        bytes_sum(picks, candidates) <= 2_000_000,
        (total - 3) * pool_percent(mix, pool) <= 100 * actions_sum(picks, pool, candidates),
    ensures
        is_within_reach(total, mix, pool, candidates),
{
    let copies = lemma_copies(picks, pool, c, candidates);
    assert(has_only(candidates[c], pool));
    assert(copies * candidates[c].serialized_len <= 2_000_000);
}

/// The benchmarks are accepted exactly if there is one, all of them want the threads that the
/// first one wants, and each mix makes up a hundred percent. What is reported is wrong with the
/// first benchmark that has a fault.
pub proof fn law_benchmarks_share_threads_and_add_up(
    cases: Vec<BenchmarkCase>,
    checked: Result<&BenchmarkCase, CaseFault>,
)
    requires
        call_ensures(validate_benchmark_cases, (&cases,), checked),
        cases@.len() <= usize::MAX,
    ensures
        checked is Ok <==> cases@.len() > 0 && forall|i: int|
            0 <= i < cases@.len() ==> is_sound(#[trigger] cases@[i], cases@[0]),
        checked matches Ok(first) ==> *first == cases@[0],
        checked matches Err(fault) ==> match fault {
            CaseFault::NoCases => cases@.len() == 0,
            CaseFault::RayonThreads(i) => is_first_unsound(cases@, i as int)
                && cases@[i as int].rayon_threads != cases@[0].rayon_threads,
            CaseFault::TokioWorkerThreads(i) => is_first_unsound(cases@, i as int)
                && cases@[i as int].rayon_threads == cases@[0].rayon_threads
                && cases@[i as int].tokio_worker_threads != cases@[0].tokio_worker_threads,
            CaseFault::ActionMix(i) => is_first_unsound(cases@, i as int)
                && cases@[i as int].rayon_threads == cases@[0].rayon_threads
                && cases@[i as int].tokio_worker_threads == cases@[0].tokio_worker_threads,
        },
{
    if cases@.len() > 0 {
        lemma_first_fault(cases@, 0);
    }
}

/// Whether a benchmark wants the threads of `first`, and its mix makes up a hundred percent.
pub open spec fn is_sound(case: BenchmarkCase, first: BenchmarkCase) -> bool {
    &&& case.rayon_threads == first.rayon_threads
    &&& case.tokio_worker_threads == first.tokio_worker_threads
    &&& case.action_mix.percents@[0] + case.action_mix.percents@[1] + case.action_mix.percents@[2]
        == 100
}

/// Whether the benchmark at `i` is the first with a fault.
pub open spec fn is_first_unsound(cases: Seq<BenchmarkCase>, i: int) -> bool {
    &&& 0 <= i < cases.len()
    &&& !is_sound(cases[i], cases[0])
    &&& forall|k: int| 0 <= k < i ==> is_sound(#[trigger] cases[k], cases[0])
}

proof fn lemma_first_fault(cases: Seq<BenchmarkCase>, i: int)
    requires
        0 <= i <= cases.len() <= usize::MAX,
        forall|k: int| 0 <= k < i ==> is_sound(#[trigger] cases[k], cases[0]),
    ensures
        first_fault(cases, i) is None <==> forall|k: int|
            0 <= k < cases.len() ==> is_sound(#[trigger] cases[k], cases[0]),
        first_fault(cases, i) matches Some(fault) ==> match fault {
            CaseFault::NoCases => false,
            CaseFault::RayonThreads(k) => is_first_unsound(cases, k as int)
                && cases[k as int].rayon_threads != cases[0].rayon_threads,
            CaseFault::TokioWorkerThreads(k) => is_first_unsound(cases, k as int)
                && cases[k as int].rayon_threads == cases[0].rayon_threads
                && cases[k as int].tokio_worker_threads != cases[0].tokio_worker_threads,
            CaseFault::ActionMix(k) => is_first_unsound(cases, k as int)
                && cases[k as int].rayon_threads == cases[0].rayon_threads
                && cases[k as int].tokio_worker_threads == cases[0].tokio_worker_threads,
        },
    decreases cases.len() - i,
{
    if i < cases.len() && fault_at(cases, i) is None {
        assert(is_sound(cases[i], cases[0]));
        lemma_first_fault(cases, i + 1);
    } else if i < cases.len() {
        assert(!is_sound(cases[i], cases[0]));
    }
}

/// Whether the actions of a candidate and its part in the limit of its pool can be counted.
pub open spec fn is_counted(candidate: CandidateTx) -> bool {
    &&& candidate.counts.sapling_spends + candidate.counts.sapling_outputs <= usize::MAX
    &&& forall|pool: ShieldedPool| #[trigger]
        has_only(candidate, pool) ==> candidate.serialized_len > 0 && 2_000_000int
            / candidate.serialized_len as int * pool_actions(candidate.counts, pool) * 100 + 3
            <= usize::MAX
}

proof fn lemma_counted(candidate: CandidateTx)
    ensures
        candidate_fits(candidate) <==> is_counted(candidate),
{
    assert forall|pool: ShieldedPool| has_only(candidate, pool) == candidate.is_only_in(
        pool,
    ) && pool_actions(candidate.counts, pool) == candidate.counts.actions(pool) by {
        lemma_has_only(candidate, pool);
    }
    if is_counted(candidate) {
        assert forall|pool: ShieldedPool| #[trigger] candidate.is_only_in(pool) implies
            candidate.serialized_len > 0 && 2_000_000int / candidate.serialized_len as int
            * candidate.counts.actions(pool) * 100 + 3 <= usize::MAX by {
            assert(has_only(candidate, pool));
        }
    }
    if candidate_fits(candidate) {
        assert forall|pool: ShieldedPool| #[trigger] has_only(candidate, pool) implies
            candidate.serialized_len > 0 && 2_000_000int / candidate.serialized_len as int
            * pool_actions(candidate.counts, pool) * 100 + 3 <= usize::MAX by {
            assert(candidate.is_only_in(pool));
        }
    }
}

proof fn lemma_all_counted(candidates: Seq<CandidateTx>)
    ensures
        are_countable(candidates) && bounds_fit(candidates) <==> forall|i: int|
            0 <= i < candidates.len() ==> is_counted(#[trigger] candidates[i]),
{
    if are_countable(candidates) && bounds_fit(candidates) {
        assert forall|i: int| 0 <= i < candidates.len() implies is_counted(
            #[trigger] candidates[i],
        ) by {
            assert(candidate_fits(candidates[i]));
            lemma_counted(candidates[i]);
        }
    }
    if forall|i: int| 0 <= i < candidates.len() ==> is_counted(#[trigger] candidates[i]) {
        assert forall|i: int| 0 <= i < candidates.len() implies candidate_fits(
            #[trigger] candidates[i],
        ) by {
            lemma_counted(candidates[i]);
        }
    }
}

proof fn lemma_longest(candidates: Seq<CandidateTx>, upto: int) -> (i: int)
    requires
        0 < upto <= candidates.len(),
    ensures
        0 <= i < upto,
        candidates[i].serialized_len == longest_of(candidates, upto),
    decreases upto,
{
    if upto == 1 || candidates[upto - 1].serialized_len > longest_of(candidates, upto - 1) {
        assert(longest_of(candidates, 0) == 0);
        upto - 1
    } else {
        lemma_longest(candidates, upto - 1)
    }
}

/// Workloads with a mix can be counted exactly where the actions of each candidate can be, and
/// the actions, the bytes and the transparent inputs of as many transactions as the limit allows.
pub proof fn law_workloads_are_counted_in_full(
    mix: ShieldedActionMix,
    candidates: Vec<CandidateTx>,
    fits: bool,
    limit: Option<usize>,
)
    requires
        call_ensures(do_workloads_fit, (&mix, &candidates), fits),
        call_ensures(max_total_actions, (&mix, &candidates), limit),
    ensures
        fits <==> {
            &&& forall|i: int| 0 <= i < candidates@.len() ==> is_counted(#[trigger] candidates@[i])
            &&& limit matches Some(most) ==> {
                &&& most * 100 <= usize::MAX
                &&& forall|i: int|
                    0 <= i < candidates@.len() ==> 1_487 + encoded_len(most as int) + (most + 1) * (
                    #[trigger] candidates@[i]).serialized_len <= usize::MAX
                &&& forall|i: int|
                    0 <= i < candidates@.len() ==> most * (
                    #[trigger] candidates@[i]).counts.transparent_inputs <= usize::MAX
            }
        },
{
    lemma_all_counted(candidates@);
    if let Some(most) = limit {
        let count = candidates@.len() as int;
        if count == 0 {
            reveal_with_fuel(limit_of_first, 4);
        } else {
            let longest = longest_of(candidates@, count);
            let with_longest = lemma_longest(candidates@, count);
            assert forall|i: int| 0 <= i < count implies (most + 1) * (
            #[trigger] candidates@[i]).serialized_len <= (most + 1) * longest by {
                lemma_longest_of(candidates@, count, i);
                assert((most + 1) * candidates@[i].serialized_len <= (most + 1) * longest)
                    by (nonlinear_arith)
                    requires
                        candidates@[i].serialized_len <= longest,
                        0 <= most,
                ;
            }
        }
    }
}

}
