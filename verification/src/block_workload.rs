//! Benchmark workloads that fill a block with an exact mix of shielded actions.

use crate::mix_laws::{law_targets_add_up, sum3};
use crate::pool_selection::{
    are_countable, are_single, can_select, lemma_longest_of, longest_of, matches_mix,
    select_candidates_for_counts, selection, selection_fits,
};
use crate::selection::{picked_actions, picked_bytes, selected_tx_bytes};
use crate::workload::{
    as_ints, block_bytes, compact_size_len, modeled_block_bytes, one_if_any, pool_at, pool_index,
    ActionCounts, CandidateTx, ShieldedActionCounts, ShieldedActionMix, ShieldedPool,
    VerifierCheckCounts, MAINNET_BLOCK_HEADER_BYTES, MAX_BLOCK_BYTES, SHIELDED_POOL_COUNT,
};
use std::collections::HashSet;
use vstd::prelude::*;

verus! {

/// A benchmark: the threads that it runs on, and the shielded actions of its workload.
#[derive(Clone, Debug)]
pub struct BenchmarkCase {
    /// The name of the benchmark.
    pub name: String,
    /// The threads that verify proofs.
    pub rayon_threads: usize,
    /// The threads that drive the verifiers.
    pub tokio_worker_threads: usize,
    /// The part of the actions that each pool gets.
    pub action_mix: ShieldedActionMix,
}

/// What is wrong with a list of benchmarks. A place is that of the benchmark at fault.
#[derive(Clone, Copy, Debug, PartialEq, Eq, Structural)]
pub enum CaseFault {
    /// There is no benchmark.
    NoCases,
    /// A benchmark wants another number of threads that verify proofs than the first one,
    /// though that can only be set once.
    RayonThreads(usize),
    /// A benchmark wants another number of threads that drive the verifiers than the first
    /// one, though that can only be set once.
    TokioWorkerThreads(usize),
    /// A mix does not make up exactly the whole.
    ActionMix(usize),
}

/// What is wrong with the benchmark at `i`.
pub open spec fn fault_at(cases: Seq<BenchmarkCase>, i: int) -> Option<CaseFault> {
    if cases[i].rayon_threads != cases[0].rayon_threads {
        Some(CaseFault::RayonThreads(i as usize))
    } else if cases[i].tokio_worker_threads != cases[0].tokio_worker_threads {
        Some(CaseFault::TokioWorkerThreads(i as usize))
    } else if cases[i].action_mix.sum() != 100 {
        Some(CaseFault::ActionMix(i as usize))
    } else {
        None
    }
}

/// What is wrong with the benchmarks from `i` on: the first fault.
pub open spec fn first_fault(cases: Seq<BenchmarkCase>, i: int) -> Option<CaseFault>
    decreases cases.len() - i,
{
    if i >= cases.len() {
        None
    } else {
        match fault_at(cases, i) {
            Some(fault) => Some(fault),
            None => first_fault(cases, i + 1),
        }
    }
}

/// Checks that there is a benchmark, that all of them want the same threads, and that each mix
/// makes up exactly the whole. The first fault decides.
pub fn validate_benchmark_cases(cases: &Vec<BenchmarkCase>) -> (checked: Result<
    &BenchmarkCase,
    CaseFault,
>)
    ensures
        match checked {
            Ok(first) => cases@.len() > 0 && *first == cases@[0] && first_fault(cases@, 0) is None,
            Err(fault) => if cases@.len() == 0 {
                fault == CaseFault::NoCases
            } else {
                first_fault(cases@, 0) == Some(fault)
            },
        },
{
    if cases.len() == 0 {
        return Err(CaseFault::NoCases);
    }
    let first = &cases[0];
    let mut i: usize = 0;
    while i < cases.len()
        invariant
            i <= cases@.len(),
            cases@.len() > 0,
            *first == cases@[0],
            first_fault(cases@, 0) == first_fault(cases@, i as int),
        decreases cases.len() - i,
    {
        if cases[i].rayon_threads != first.rayon_threads {
            return Err(CaseFault::RayonThreads(i));
        }
        if cases[i].tokio_worker_threads != first.tokio_worker_threads {
            return Err(CaseFault::TokioWorkerThreads(i));
        }
        if cases[i].action_mix.total_percent() != 100 {
            return Err(CaseFault::ActionMix(i));
        }
        i += 1;
    }
    Ok(first)
}

/// The benchmarks that are run: one of Orchard actions, one of Sapling actions, and one of
/// both in equal parts, all on four threads of each kind.
pub fn benchmark_cases() -> (cases: Vec<BenchmarkCase>)
    ensures
        cases@.len() == 3,
        cases@[0].name@ == "available_orchard_heavy"@,
        cases@[0].action_mix.percents@ == seq![0u8, 100u8, 0u8],
        cases@[1].name@ == "available_sapling_heavy"@,
        cases@[1].action_mix.percents@ == seq![100u8, 0u8, 0u8],
        cases@[2].name@ == "available_sapling_orchard_even"@,
        cases@[2].action_mix.percents@ == seq![50u8, 50u8, 0u8],
        forall|i: int|
            0 <= i < 3 ==> (#[trigger] cases@[i]).rayon_threads == 4
                && cases@[i].tokio_worker_threads == 4,
        first_fault(cases@, 0) is None,
{
    let mut cases: Vec<BenchmarkCase> = Vec::new();
    cases.push(
        BenchmarkCase {
            name: "available_orchard_heavy".to_owned(),
            rayon_threads: 4,
            tokio_worker_threads: 4,
            action_mix: ShieldedActionMix::new(0, 100, 0),
        },
    );
    cases.push(
        BenchmarkCase {
            name: "available_sapling_heavy".to_owned(),
            rayon_threads: 4,
            tokio_worker_threads: 4,
            action_mix: ShieldedActionMix::new(100, 0, 0),
        },
    );
    cases.push(
        BenchmarkCase {
            name: "available_sapling_orchard_even".to_owned(),
            rayon_threads: 4,
            tokio_worker_threads: 4,
            action_mix: ShieldedActionMix::new(50, 50, 0),
        },
    );
    assert(first_fault(cases@, 0) is None) by {
        reveal_with_fuel(first_fault, 4);
    }
    cases
}

/// A bound on the actions of a workload that a candidate of a pool sets: those of a block that
/// it fills alone, if they are the pool's part of all, and some to spare for rounding.
pub open spec fn candidate_bound(candidate: CandidateTx, pool: ShieldedPool, percent: int) -> int {
    MAX_BLOCK_BYTES as int / candidate.serialized_len as int * candidate.counts.actions(pool) * 100
        / percent + SHIELDED_POOL_COUNT
}

/// The largest bound that one of the first `upto` candidates with actions in a pool and in no
/// other sets.
pub open spec fn pool_bound(
    pool: ShieldedPool,
    percent: int,
    candidates: Seq<CandidateTx>,
    upto: int,
) -> Option<int>
    decreases upto,
{
    if upto <= 0 {
        None
    } else {
        let earlier = pool_bound(pool, percent, candidates, upto - 1);
        let candidate = candidates[upto - 1];
        if !candidate.is_only_in(pool) {
            earlier
        } else {
            let bound = candidate_bound(candidate, pool, percent);
            match earlier {
                Some(largest) if largest >= bound => earlier,
                _ => Some(bound),
            }
        }
    }
}

/// Whether one of the first `upto` pools has a part in the mix, and the smallest of the bounds
/// that those pools set: none where one of them has no candidate.
pub open spec fn limit_of_first(
    mix: ShieldedActionMix,
    candidates: Seq<CandidateTx>,
    upto: int,
) -> (bool, Option<int>)
    decreases upto,
{
    if upto <= 0 {
        (false, None)
    } else {
        let (any, least) = limit_of_first(mix, candidates, upto - 1);
        let percent = mix.percents@[upto - 1] as int;
        if percent == 0 {
            (any, least)
        } else {
            let bound = pool_bound(pool_at(upto - 1), percent, candidates, candidates.len() as int);
            (
                true,
                if !any {
                    bound
                } else {
                    match (least, bound) {
                        (Some(x), Some(y)) => if x <= y {
                            Some(x)
                        } else {
                            Some(y)
                        },
                        _ => None,
                    }
                },
            )
        }
    }
}

/// The limit on the actions of a workload: the smallest of the bounds that the pools of the mix
/// set, where each has a candidate.
pub open spec fn action_limit(mix: ShieldedActionMix, candidates: Seq<CandidateTx>) -> Option<int> {
    limit_of_first(mix, candidates, 3).1
}

/// Whether each candidate that has actions in one pool only has a size, and its bound can be
/// counted.
pub open spec fn bounds_fit(candidates: Seq<CandidateTx>) -> bool {
    forall|i: int, pool: ShieldedPool|
        0 <= i < candidates.len() && #[trigger] candidates[i].is_only_in(pool)
            ==> candidates[i].serialized_len > 0 && MAX_BLOCK_BYTES as int
            / candidates[i].serialized_len as int * candidates[i].counts.actions(pool) * 100
            + SHIELDED_POOL_COUNT <= usize::MAX
}

/// The largest bound that a candidate of a pool sets.
fn largest_bound(pool: ShieldedPool, percent: u8, candidates: &Vec<CandidateTx>) -> (bound: Option<
    usize,
>)
    requires
        percent > 0,
        are_countable(candidates@),
        bounds_fit(candidates@),
    ensures
        match pool_bound(pool, percent as int, candidates@, candidates@.len() as int) {
            Some(b) => bound matches Some(x) && x == b,
            None => bound is None,
        },
{
    let mut largest: Option<usize> = None;
    let mut i: usize = 0;
    while i < candidates.len()
        invariant
            i <= candidates@.len(),
            percent > 0,
            are_countable(candidates@),
            bounds_fit(candidates@),
            match pool_bound(pool, percent as int, candidates@, i as int) {
                Some(b) => largest matches Some(x) && x == b,
                None => largest is None,
            },
        decreases candidates.len() - i,
    {
        let candidate = candidates[i];
        if candidate.has_only_pool_actions(pool) {
            let actions = candidate.counts.action_count(pool);
            let repeats = MAX_BLOCK_BYTES / candidate.serialized_len;
            assert(repeats * actions <= repeats * actions * 100 && 0 <= repeats * actions)
                by (nonlinear_arith)
                requires
                    0 <= repeats,
                    0 <= actions,
            ;
            let product = repeats * actions * 100;
            let part = product / percent as usize;
            assert(part <= product) by (nonlinear_arith)
                requires
                    part == product / (percent as usize),
                    percent > 0,
            ;
            let bound = part + SHIELDED_POOL_COUNT;
            largest =
            match largest {
                Some(x) if x >= bound => Some(x),
                _ => Some(bound),
            };
        }
        i += 1;
    }
    largest
}

/// The limit on the actions of a workload with a mix.
pub fn max_total_actions(mix: &ShieldedActionMix, candidates: &Vec<CandidateTx>) -> (limit: Option<
    usize,
>)
    requires
        are_countable(candidates@),
        bounds_fit(candidates@),
    ensures
        match action_limit(*mix, candidates@) {
            Some(m) => limit matches Some(x) && x == m,
            None => limit is None,
        },
{
    let mut any = false;
    let mut least: Option<usize> = None;
    let mut i: usize = 0;
    while i < SHIELDED_POOL_COUNT
        invariant
            i <= 3,
            are_countable(candidates@),
            bounds_fit(candidates@),
            any == limit_of_first(*mix, candidates@, i as int).0,
            match limit_of_first(*mix, candidates@, i as int).1 {
                Some(m) => least matches Some(x) && x == m,
                None => least is None,
            },
        decreases 3 - i,
    {
        let pool = ShieldedPool::at(i);
        let percent = mix.percent(pool);
        if percent > 0 {
            let bound = largest_bound(pool, percent, candidates);
            least =
            if !any {
                bound
            } else {
                match (least, bound) {
                    (Some(x), Some(y)) => if x <= y {
                        Some(x)
                    } else {
                        Some(y)
                    },
                    _ => None,
                }
            };
            any = true;
        }
        i += 1;
    }
    least
}

/// Whether a workload of `total` actions can be selected, and fits into a block.
pub open spec fn is_workable(
    mix: ShieldedActionMix,
    candidates: Seq<CandidateTx>,
    total: int,
) -> bool {
    let picks = selection(mix.targets(total), candidates);
    &&& can_select(mix.targets(total), candidates)
    &&& block_bytes(picked_bytes(picks, candidates), picks.len() as int) <= MAX_BLOCK_BYTES
}

/// Whether `total` is the largest number of actions, up to the limit, of a workload that fits
/// into a block.
pub open spec fn is_best_total(
    mix: ShieldedActionMix,
    candidates: Seq<CandidateTx>,
    total: int,
) -> bool {
    &&& action_limit(mix, candidates) matches Some(limit)
    &&& 1 <= total <= limit
    &&& is_workable(mix, candidates, total)
    &&& forall|more: int| total < more <= limit ==> !#[trigger] is_workable(mix, candidates, more)
}

/// Whether everything about workloads with the mix can be counted: the candidates' actions,
/// and the bytes and inputs of workloads up to the limit.
pub open spec fn workloads_fit(mix: ShieldedActionMix, candidates: Seq<CandidateTx>) -> bool {
    &&& are_countable(candidates)
    &&& bounds_fit(candidates)
    &&& action_limit(mix, candidates) matches Some(limit) ==> {
        &&& limit * 100 <= usize::MAX
        &&& block_bytes(
            (limit + 1) * longest_of(candidates, candidates.len() as int),
            limit,
        ) <= usize::MAX
        &&& forall|i: int|
            0 <= i < candidates.len() ==> limit * (
            #[trigger] candidates[i]).counts.transparent_inputs <= usize::MAX
    }
}

/// Whether the actions of a candidate, and the bound that it sets for its pool, can be counted.
pub open spec fn candidate_fits(candidate: CandidateTx) -> bool {
    &&& candidate.counts.countable()
    &&& forall|pool: ShieldedPool| #[trigger]
        candidate.is_only_in(pool) ==> candidate.serialized_len > 0 && MAX_BLOCK_BYTES as int
            / candidate.serialized_len as int * candidate.counts.actions(pool) * 100
            + SHIELDED_POOL_COUNT <= usize::MAX
}

/// Whether the actions of a candidate, and the bound that it sets for its pool, can be counted.
fn does_candidate_fit(candidate: &CandidateTx) -> (fits: bool)
    ensures
        fits == candidate_fits(*candidate),
{
    if candidate.counts.sapling_spends > usize::MAX - candidate.counts.sapling_outputs {
        return false;
    }
    let mut i: usize = 0;
    while i < SHIELDED_POOL_COUNT
        invariant
            i <= 3,
            candidate.counts.countable(),
            forall|k: int|
                0 <= k < i && candidate.is_only_in(#[trigger] pool_at(k))
                    ==> candidate.serialized_len > 0 && MAX_BLOCK_BYTES as int
                    / candidate.serialized_len as int * candidate.counts.actions(pool_at(k)) * 100
                    + SHIELDED_POOL_COUNT <= usize::MAX,
        decreases 3 - i,
    {
        let pool = ShieldedPool::at(i);
        if candidate.has_only_pool_actions(pool) {
            if candidate.serialized_len == 0 {
                return false;
            }
            let repeats = MAX_BLOCK_BYTES / candidate.serialized_len;
            let actions = candidate.counts.action_count(pool);
            assert(repeats <= MAX_BLOCK_BYTES) by (nonlinear_arith)
                requires
                    repeats == MAX_BLOCK_BYTES / candidate.serialized_len,
                    candidate.serialized_len > 0,
            ;
            assert(0 <= repeats * actions <= MAX_BLOCK_BYTES * usize::MAX) by (nonlinear_arith)
                requires
                    0 <= repeats <= MAX_BLOCK_BYTES,
                    0 <= actions <= usize::MAX,
            ;
            let bound = repeats as u128 * actions as u128 * 100 + SHIELDED_POOL_COUNT as u128;
            if bound > usize::MAX as u128 {
                return false;
            }
        }
        i += 1;
    }
    assert forall|pool: ShieldedPool| #[trigger] candidate.is_only_in(pool) implies
        candidate.serialized_len > 0 && MAX_BLOCK_BYTES as int / candidate.serialized_len as int
        * candidate.counts.actions(pool) * 100 + SHIELDED_POOL_COUNT <= usize::MAX by {
        let k = pool_index(pool);
        assert(pool_at(k) == pool);
    }
    true
}

/// Whether everything about workloads with the mix can be counted.
pub fn do_workloads_fit(mix: &ShieldedActionMix, candidates: &Vec<CandidateTx>) -> (fits: bool)
    ensures
        fits == workloads_fit(*mix, candidates@),
{
    let mut longest: usize = 0;
    let mut most_inputs: usize = 0;
    let ghost mut with_most: int = 0;
    let mut i: usize = 0;
    while i < candidates.len()
        invariant
            i <= candidates@.len(),
            longest == longest_of(candidates@, i as int),
            forall|k: int| 0 <= k < i ==> candidate_fits(#[trigger] candidates@[k]),
            forall|k: int|
                0 <= k < i ==> (#[trigger] candidates@[k]).counts.transparent_inputs
                    <= most_inputs,
            i > 0 ==> 0 <= with_most < i && candidates@[with_most].counts.transparent_inputs
                == most_inputs,
        decreases candidates.len() - i,
    {
        let candidate = candidates[i];
        if !does_candidate_fit(&candidate) {
            proof {
                if are_countable(candidates@) && bounds_fit(candidates@) {
                    assert(candidates@[i as int].counts.countable());
                    assert(candidate_fits(candidates@[i as int]));
                }
            }
            return false;
        }
        if candidate.serialized_len > longest {
            longest = candidate.serialized_len;
        }
        if i == 0 || candidate.counts.transparent_inputs > most_inputs {
            most_inputs = candidate.counts.transparent_inputs;
            proof {
                with_most = i as int;
            }
        }
        i += 1;
    }
    let limit = match max_total_actions(mix, candidates) {
        Some(limit) => limit,
        None => {
            return true;
        },
    };
    if limit as u128 * 100 > usize::MAX as u128 {
        return false;
    }
    assert(0 <= (limit + 1) * longest <= 0x1_0000_0000_0000_0000 * usize::MAX) by (nonlinear_arith)
        requires
            0 <= limit,
            limit * 100 <= usize::MAX,
            0 <= longest <= usize::MAX,
    ;
    let bytes = (limit as u128 + 1) * longest as u128;
    if bytes > usize::MAX as u128 || bytes + MAINNET_BLOCK_HEADER_BYTES as u128 + compact_size_len(
        limit,
    ) as u128 > usize::MAX as u128 {
        return false;
    }
    assert(0 <= limit * most_inputs <= usize::MAX * usize::MAX) by (nonlinear_arith)
        requires
            0 <= limit <= usize::MAX,
            0 <= most_inputs <= usize::MAX,
    ;
    let fits = candidates.len() == 0 || limit as u128 * most_inputs as u128 <= usize::MAX as u128;
    proof {
        if fits {
            assert forall|k: int| 0 <= k < candidates@.len() implies limit * (
            #[trigger] candidates@[k]).counts.transparent_inputs <= usize::MAX by {
                let inputs = candidates@[k].counts.transparent_inputs;
                assert(limit * inputs <= limit * most_inputs) by (nonlinear_arith)
                    requires
                        0 <= limit,
                        inputs <= most_inputs,
                ;
            }
        } else {
            assert(limit * candidates@[with_most].counts.transparent_inputs > usize::MAX);
        }
    }
    fits
}

/// The sum of a number over the picks.
pub open spec fn picked_sum(
    picks: Seq<usize>,
    candidates: Seq<CandidateTx>,
    number: spec_fn(CandidateTx) -> int,
) -> int
    decreases picks.len(),
{
    if picks.len() == 0 {
        0
    } else {
        picked_sum(picks.drop_last(), candidates, number) + number(
            candidates[picks.last() as int],
        )
    }
}

/// A number that is never negative adds up to no more over the first picks than over all.
proof fn lemma_sum_prefix(
    picks: Seq<usize>,
    candidates: Seq<CandidateTx>,
    number: spec_fn(CandidateTx) -> int,
    upto: int,
)
    requires
        0 <= upto <= picks.len(),
        forall|c: CandidateTx| 0 <= #[trigger] number(c),
    ensures
        0 <= picked_sum(picks.take(upto), candidates, number) <= picked_sum(
            picks,
            candidates,
            number,
        ),
    decreases picks.len(),
{
    if picks.len() > 0 && upto == picks.len() {
        assert(picks.take(upto) =~= picks);
        lemma_sum_prefix(picks.drop_last(), candidates, number, upto - 1);
    } else if picks.len() > 0 {
        lemma_sum_prefix(picks.drop_last(), candidates, number, upto);
        assert(picks.drop_last().take(upto) =~= picks.take(upto));
    }
}

/// A number that is at most as large as another for every pick adds up to at most as much.
proof fn lemma_sum_bound(
    picks: Seq<usize>,
    candidates: Seq<CandidateTx>,
    number: spec_fn(CandidateTx) -> int,
    bound: spec_fn(CandidateTx) -> int,
)
    requires
        forall|i: int|
            0 <= i < picks.len() ==> number(candidates[(#[trigger] picks[i]) as int]) <= bound(
                candidates[picks[i] as int],
            ),
    ensures
        picked_sum(picks, candidates, number) <= picked_sum(picks, candidates, bound),
    decreases picks.len(),
{
    if picks.len() > 0 {
        lemma_sum_bound(picks.drop_last(), candidates, number, bound);
    }
}

/// Actions and bytes are such sums.
proof fn lemma_sums(picks: Seq<usize>, candidates: Seq<CandidateTx>, pool: ShieldedPool)
    ensures
        picked_sum(picks, candidates, |c: CandidateTx| c.counts.actions(pool)) == picked_actions(
            picks,
            pool,
            candidates,
        ),
        picked_sum(picks, candidates, |c: CandidateTx| c.serialized_len as int) == picked_bytes(
            picks,
            candidates,
        ),
    decreases picks.len(),
{
    if picks.len() > 0 {
        lemma_sums(picks.drop_last(), candidates, pool);
    }
}

/// Candidates that have actions in one pool only have at least one action each, so that a
/// number with a bound adds up to no more than the bound for every action.
proof fn lemma_sum_by_actions(
    picks: Seq<usize>,
    candidates: Seq<CandidateTx>,
    number: spec_fn(CandidateTx) -> int,
    bound: int,
    targets: Seq<int>,
)
    requires
        0 <= bound,
        matches_mix(picks, targets, candidates),
        forall|i: int|
            0 <= i < picks.len() ==> number(candidates[(#[trigger] picks[i]) as int]) <= bound,
    ensures
        picked_sum(picks, candidates, number) <= sum3(targets) * bound,
{
    lemma_sum_by_count(picks, candidates, number, bound);
    lemma_count_by_actions(picks, candidates);
    assert(picks.len() * bound <= sum3(targets) * bound) by (nonlinear_arith)
        requires
            0 <= bound,
            picks.len() <= sum3(targets),
    ;
}

proof fn lemma_sum_by_count(
    picks: Seq<usize>,
    candidates: Seq<CandidateTx>,
    number: spec_fn(CandidateTx) -> int,
    bound: int,
)
    requires
        forall|i: int|
            0 <= i < picks.len() ==> number(candidates[(#[trigger] picks[i]) as int]) <= bound,
    ensures
        picked_sum(picks, candidates, number) <= picks.len() * bound,
    decreases picks.len(),
{
    if picks.len() > 0 {
        let rest = picks.drop_last();
        lemma_sum_by_count(rest, candidates, number, bound);
        assert(rest.len() * bound + bound == picks.len() * bound) by (nonlinear_arith)
            requires
                rest.len() + 1 == picks.len(),
        ;
    } else {
        assert(picks.len() * bound == 0) by (nonlinear_arith)
            requires
                picks.len() == 0,
        ;
    }
}

proof fn lemma_count_by_actions(picks: Seq<usize>, candidates: Seq<CandidateTx>)
    requires
        are_single(picks, candidates),
    ensures
        picks.len() <= picked_actions(picks, ShieldedPool::Sapling, candidates) + picked_actions(
            picks,
            ShieldedPool::Orchard,
            candidates,
        ) + picked_actions(picks, ShieldedPool::Sprout, candidates),
    decreases picks.len(),
{
    if picks.len() > 0 {
        lemma_count_by_actions(picks.drop_last(), candidates);
    }
}

/// The bytes of picks that match a mix are bounded by those of the longest candidate for every
/// action.
proof fn lemma_bytes_by_actions(
    picks: Seq<usize>,
    candidates: Seq<CandidateTx>,
    targets: Seq<int>,
)
    requires
        matches_mix(picks, targets, candidates),
    ensures
        picked_bytes(picks, candidates) <= sum3(targets) * longest_of(
            candidates,
            candidates.len() as int,
        ),
        picks.len() <= sum3(targets),
{
    let longest = longest_of(candidates, candidates.len() as int);
    let number = |c: CandidateTx| c.serialized_len as int;
    assert forall|i: int| 0 <= i < picks.len() implies number(
        candidates[(#[trigger] picks[i]) as int],
    ) <= longest by {
        lemma_longest_of(candidates, candidates.len() as int, picks[i] as int);
    }
    lemma_sums(picks, candidates, ShieldedPool::Sapling);
    lemma_count_by_actions(picks, candidates);
    lemma_sum_by_actions(picks, candidates, number, longest, targets);
}

/// Selects the workload with the most actions, up to the limit, that has exactly the mix and
/// fits into a block.
///
/// Nothing comes back where no such workload has any actions.
pub fn select_best_block_workload(
    action_mix: &ShieldedActionMix,
    candidates: &Vec<CandidateTx>,
) -> (best: Option<(ShieldedActionCounts, Vec<usize>)>)
    requires
        action_mix.sum() == 100,
        workloads_fit(*action_mix, candidates@),
    ensures
        match best {
            Some((counts, selected)) => exists|total: int|
                {
                    &&& #[trigger] is_best_total(*action_mix, candidates@, total)
                    &&& as_ints(counts.counts@) == action_mix.targets(total)
                    &&& selected@ == selection(action_mix.targets(total), candidates@)
                    &&& matches_mix(selected@, action_mix.targets(total), candidates@)
                },
            None => forall|total: int| !is_best_total(*action_mix, candidates@, total),
        },
{
    let limit = match max_total_actions(action_mix, candidates) {
        Some(limit) => limit,
        None => {
            return None;
        },
    };
    let ghost longest = longest_of(candidates@, candidates@.len() as int);
    let ghost mut best_total: int = 0;
    let mut best: Option<(ShieldedActionCounts, Vec<usize>)> = None;
    let mut total: usize = 0;
    while total < limit
        invariant
            total <= limit,
            action_limit(*action_mix, candidates@) == Some(limit as int),
            action_mix.sum() == 100,
            workloads_fit(*action_mix, candidates@),
            longest == longest_of(candidates@, candidates@.len() as int),
            0 <= longest,
            0 <= best_total <= total,
            forall|more: int|
                best_total < more <= total ==> !#[trigger] is_workable(
                    *action_mix,
                    candidates@,
                    more,
                ),
            match best {
                Some((counts, selected)) => {
                    &&& 1 <= best_total
                    &&& is_workable(*action_mix, candidates@, best_total)
                    &&& as_ints(counts.counts@) == action_mix.targets(best_total)
                    &&& selected@ == selection(action_mix.targets(best_total), candidates@)
                    &&& matches_mix(selected@, action_mix.targets(best_total), candidates@)
                },
                None => best_total == 0,
            },
        decreases limit - total,
    {
        total += 1;
        let ghost targets = action_mix.targets(total as int);
        proof {
            law_targets_add_up(*action_mix, total as int);
            assert forall|i: int| 0 <= i < 3 implies total * (
            #[trigger] action_mix.percents@[i]) <= usize::MAX by {
                let percent = action_mix.percents@[i] as int;
                assert(total * percent <= limit * 100) by (nonlinear_arith)
                    requires
                        total <= limit,
                        0 <= percent <= 100,
                ;
            }
        }
        let target_counts = action_mix.target_counts(total);
        proof {
            assert forall|i: int| 0 <= i < 3 implies (#[trigger] target_counts.counts@[i])
                < usize::MAX && selection_fits(
                target_counts.counts@[i] as int,
                candidates@,
            ) by {
                let count = target_counts.counts@[i] as int;
                assert((count + 1) * longest <= (limit + 1) * longest) by (nonlinear_arith)
                    requires
                        count <= limit,
                        0 <= longest,
                ;
            }
        }
        if let Some(selected) = select_candidates_for_counts(&target_counts, candidates) {
            proof {
                lemma_bytes_by_actions(selected@, candidates@, targets);
                assert(total * longest <= (limit + 1) * longest) by (nonlinear_arith)
                    requires
                        total <= limit,
                        0 <= longest,
                ;
            }
            let tx_bytes = selected_tx_bytes(&selected, candidates);
            let bytes = modeled_block_bytes(tx_bytes, selected.len());
            if bytes <= MAX_BLOCK_BYTES {
                best = Some((target_counts, selected));
                proof {
                    best_total = total as int;
                }
            }
        }
    }
    proof {
        if best is Some {
            assert(is_best_total(*action_mix, candidates@, best_total));
        }
    }
    best
}

/// What a workload adds up to.
#[derive(Clone, Copy, Debug, PartialEq, Eq, Structural)]
pub struct WorkloadStats {
    /// The serialized size of a block with the transactions.
    pub modeled_block_bytes: usize,
    /// The serialized size of the transactions.
    pub serialized_bytes: usize,
    /// The number of different transactions.
    pub unique_transactions: usize,
    /// The number of transactions.
    pub repeated_transactions: usize,
    /// Their actions.
    pub action_counts: ActionCounts,
    /// The checks that verifiers run on them.
    pub verifier_checks: VerifierCheckCounts,
}

/// Transactions that fill a block with an exact mix of shielded actions.
#[derive(Debug)]
pub struct Workload {
    /// The places of the transactions among the candidates.
    pub selected: Vec<usize>,
    /// The actions that the workload was selected for.
    pub target_action_counts: ShieldedActionCounts,
    /// What the workload adds up to.
    pub stats: WorkloadStats,
}

/// Whether these are the actions of the picks.
pub open spec fn are_actions_of(
    counts: ActionCounts,
    picks: Seq<usize>,
    candidates: Seq<CandidateTx>,
) -> bool {
    &&& counts.transparent_inputs == picked_sum(
        picks,
        candidates,
        |c: CandidateTx| c.counts.transparent_inputs as int,
    )
    &&& counts.sapling_spends == picked_sum(
        picks,
        candidates,
        |c: CandidateTx| c.counts.sapling_spends as int,
    )
    &&& counts.sapling_outputs == picked_sum(
        picks,
        candidates,
        |c: CandidateTx| c.counts.sapling_outputs as int,
    )
    &&& counts.orchard_actions == picked_sum(
        picks,
        candidates,
        |c: CandidateTx| c.counts.orchard_actions as int,
    )
    &&& counts.sprout_joinsplits == picked_sum(
        picks,
        candidates,
        |c: CandidateTx| c.counts.sprout_joinsplits as int,
    )
}

/// Whether these are the checks that verifiers run on the picks.
pub open spec fn are_checks_of(
    checks: VerifierCheckCounts,
    picks: Seq<usize>,
    candidates: Seq<CandidateTx>,
) -> bool {
    &&& checks.sapling_bundles == picked_sum(
        picks,
        candidates,
        |c: CandidateTx| one_if_any(c.counts.actions(ShieldedPool::Sapling)),
    )
    &&& checks.orchard_bundles == picked_sum(
        picks,
        candidates,
        |c: CandidateTx| one_if_any(c.counts.actions(ShieldedPool::Orchard)),
    )
    &&& checks.sprout_joinsplit_proofs == picked_sum(
        picks,
        candidates,
        |c: CandidateTx| c.counts.actions(ShieldedPool::Sprout),
    )
    &&& checks.sprout_signatures == picked_sum(
        picks,
        candidates,
        |c: CandidateTx| one_if_any(c.counts.actions(ShieldedPool::Sprout)),
    )
}

/// Whether all that the picks add up to can be counted.
spec fn sums_fit(picks: Seq<usize>, candidates: Seq<CandidateTx>) -> bool {
    &&& picked_sum(picks, candidates, |c: CandidateTx| c.counts.transparent_inputs as int)
        <= usize::MAX
    &&& picked_actions(picks, ShieldedPool::Sapling, candidates) <= usize::MAX
    &&& picked_actions(picks, ShieldedPool::Orchard, candidates) <= usize::MAX
    &&& picked_actions(picks, ShieldedPool::Sprout, candidates) <= usize::MAX
    &&& picks.len() <= usize::MAX
}

/// The sums over one more pick can be counted, where those over all of them can.
proof fn lemma_next_sums(picks: Seq<usize>, candidates: Seq<CandidateTx>, i: int)
    requires
        0 <= i < picks.len(),
        sums_fit(picks, candidates),
    ensures
        forall|number: spec_fn(CandidateTx) -> int|
            #[trigger] picked_sum(picks.take(i + 1), candidates, number) == picked_sum(
                picks.take(i),
                candidates,
                number,
            ) + number(candidates[picks[i] as int]),
        picked_sum(
            picks.take(i + 1),
            candidates,
            |c: CandidateTx| c.counts.transparent_inputs as int,
        ) <= usize::MAX,
        picked_sum(picks.take(i + 1), candidates, |c: CandidateTx| c.counts.sapling_spends as int)
            <= usize::MAX,
        picked_sum(picks.take(i + 1), candidates, |c: CandidateTx| c.counts.sapling_outputs as int)
            <= usize::MAX,
        picked_sum(picks.take(i + 1), candidates, |c: CandidateTx| c.counts.orchard_actions as int)
            <= usize::MAX,
        picked_sum(
            picks.take(i + 1),
            candidates,
            |c: CandidateTx| c.counts.sprout_joinsplits as int,
        ) <= usize::MAX,
        picked_sum(
            picks.take(i + 1),
            candidates,
            |c: CandidateTx| one_if_any(c.counts.actions(ShieldedPool::Sapling)),
        ) <= usize::MAX,
        picked_sum(
            picks.take(i + 1),
            candidates,
            |c: CandidateTx| one_if_any(c.counts.actions(ShieldedPool::Orchard)),
        ) <= usize::MAX,
        picked_sum(
            picks.take(i + 1),
            candidates,
            |c: CandidateTx| c.counts.actions(ShieldedPool::Sprout),
        ) <= usize::MAX,
        picked_sum(
            picks.take(i + 1),
            candidates,
            |c: CandidateTx| one_if_any(c.counts.actions(ShieldedPool::Sprout)),
        ) <= usize::MAX,
{
    let transparent = |c: CandidateTx| c.counts.transparent_inputs as int;
    let spends = |c: CandidateTx| c.counts.sapling_spends as int;
    let outputs = |c: CandidateTx| c.counts.sapling_outputs as int;
    let orchard_actions = |c: CandidateTx| c.counts.orchard_actions as int;
    let joinsplits = |c: CandidateTx| c.counts.sprout_joinsplits as int;
    let sapling = |c: CandidateTx| c.counts.actions(ShieldedPool::Sapling);
    let orchard = |c: CandidateTx| c.counts.actions(ShieldedPool::Orchard);
    let sprout = |c: CandidateTx| c.counts.actions(ShieldedPool::Sprout);
    let any_sapling = |c: CandidateTx| one_if_any(c.counts.actions(ShieldedPool::Sapling));
    let any_orchard = |c: CandidateTx| one_if_any(c.counts.actions(ShieldedPool::Orchard));
    let any_sprout = |c: CandidateTx| one_if_any(c.counts.actions(ShieldedPool::Sprout));
    let next = picks.take(i + 1);
    assert(next.drop_last() =~= picks.take(i));
    lemma_sums(picks, candidates, ShieldedPool::Sapling);
    lemma_sums(picks, candidates, ShieldedPool::Orchard);
    lemma_sums(picks, candidates, ShieldedPool::Sprout);
    lemma_sum_prefix(picks, candidates, transparent, i + 1);
    lemma_sum_prefix(picks, candidates, sapling, i + 1);
    lemma_sum_prefix(picks, candidates, orchard, i + 1);
    lemma_sum_prefix(picks, candidates, sprout, i + 1);
    lemma_sum_bound(next, candidates, spends, sapling);
    lemma_sum_bound(next, candidates, outputs, sapling);
    lemma_sum_bound(next, candidates, orchard_actions, orchard);
    lemma_sum_bound(next, candidates, joinsplits, sprout);
    lemma_sum_by_count(next, candidates, any_sapling, 1);
    lemma_sum_by_count(next, candidates, any_orchard, 1);
    lemma_sum_by_count(next, candidates, any_sprout, 1);
}

/// The sums of the Sapling spends and outputs are the Sapling actions, and those of the other
/// pools are their actions.
proof fn lemma_total_actions(picks: Seq<usize>, candidates: Seq<CandidateTx>, counts: ActionCounts)
    requires
        are_actions_of(counts, picks, candidates),
    ensures
        forall|pool: ShieldedPool| #[trigger]
            counts.actions(pool) == picked_actions(picks, pool, candidates),
{
    lemma_field_sums(picks, candidates);
}

proof fn lemma_field_sums(picks: Seq<usize>, candidates: Seq<CandidateTx>)
    ensures
        picked_sum(picks, candidates, |c: CandidateTx| c.counts.sapling_spends as int)
            + picked_sum(picks, candidates, |c: CandidateTx| c.counts.sapling_outputs as int)
            == picked_actions(picks, ShieldedPool::Sapling, candidates),
        picked_sum(picks, candidates, |c: CandidateTx| c.counts.orchard_actions as int)
            == picked_actions(picks, ShieldedPool::Orchard, candidates),
        picked_sum(picks, candidates, |c: CandidateTx| c.counts.sprout_joinsplits as int)
            == picked_actions(picks, ShieldedPool::Sprout, candidates),
    decreases picks.len(),
{
    if picks.len() > 0 {
        lemma_field_sums(picks.drop_last(), candidates);
    }
}

/// The number of different transactions among the selected ones.
fn count_unique(selected: &Vec<usize>) -> (unique: usize)
    ensures
        unique == selected@.to_set().len(),
{
    broadcast use vstd::std_specs::hash::group_hash_axioms;

    let mut seen: HashSet<usize> = HashSet::new();
    let mut i: usize = 0;
    while i < selected.len()
        invariant
            i <= selected@.len(),
            seen@ == selected@.take(i as int).to_set(),
        decreases selected.len() - i,
    {
        seen.insert(selected[i]);
        assert(selected@.take(i + 1) =~= selected@.take(i as int).push(selected@[i as int]));
        assert(selected@.take(i + 1).to_set() =~= selected@.take(i as int).to_set().insert(
            selected@[i as int],
        )) by {
            let after = selected@.take(i as int).push(selected@[i as int]);
            assert(after[i as int] == selected@[i as int]);
        }
        i += 1;
    }
    assert(selected@.take(i as int) =~= selected@);
    seen.len()
}

/// Adds up the actions and the checks of the selected candidates.
fn add_up(selected: &Vec<usize>, candidates: &Vec<CandidateTx>) -> (sums: (
    ActionCounts,
    VerifierCheckCounts,
))
    requires
        are_countable(candidates@),
        sums_fit(selected@, candidates@),
        forall|i: int| 0 <= i < selected@.len() ==> (#[trigger] selected@[i]) < candidates@.len(),
    ensures
        are_actions_of(sums.0, selected@, candidates@),
        are_checks_of(sums.1, selected@, candidates@),
{
    let mut action_counts = ActionCounts::default();
    let mut verifier_checks = VerifierCheckCounts::default();
    let mut i: usize = 0;
    while i < selected.len()
        invariant
            i <= selected@.len(),
            are_countable(candidates@),
            sums_fit(selected@, candidates@),
            forall|k: int|
                0 <= k < selected@.len() ==> (#[trigger] selected@[k]) < candidates@.len(),
            are_actions_of(action_counts, selected@.take(i as int), candidates@),
            are_checks_of(verifier_checks, selected@.take(i as int), candidates@),
        decreases selected.len() - i,
    {
        let candidate = candidates[selected[i]];
        proof {
            lemma_next_sums(selected@, candidates@, i as int);
        }
        action_counts.add_counts(&candidate.counts);
        let checks = candidate.counts.verifier_check_counts();
        verifier_checks.add_counts(&checks);
        i += 1;
    }
    assert(selected@.take(i as int) =~= selected@);
    (action_counts, verifier_checks)
}

/// Builds the workload with the most actions, up to the limit, that has exactly the mix and
/// fits into a block.
///
/// Nothing comes back where no such workload has any actions.
pub fn build_workload(
    action_mix: &ShieldedActionMix,
    candidates: &Vec<CandidateTx>,
) -> (workload: Option<Workload>)
    requires
        action_mix.sum() == 100,
        workloads_fit(*action_mix, candidates@),
    ensures
        match workload {
            Some(workload) => {
                let picks = workload.selected@;
                let stats = workload.stats;
                &&& exists|total: int|
                    {
                        &&& #[trigger] is_best_total(*action_mix, candidates@, total)
                        &&& as_ints(workload.target_action_counts.counts@) == action_mix.targets(
                            total,
                        )
                        &&& picks == selection(action_mix.targets(total), candidates@)
                    }
                &&& stats.serialized_bytes == picked_bytes(picks, candidates@)
                &&& stats.repeated_transactions == picks.len()
                &&& stats.unique_transactions == picks.to_set().len()
                &&& stats.modeled_block_bytes == block_bytes(
                    stats.serialized_bytes as int,
                    picks.len() as int,
                )
                &&& stats.modeled_block_bytes <= MAX_BLOCK_BYTES
                &&& are_actions_of(stats.action_counts, picks, candidates@)
                &&& are_checks_of(stats.verifier_checks, picks, candidates@)
                &&& forall|pool: ShieldedPool| #[trigger]
                    stats.action_counts.actions(pool) == workload.target_action_counts.actions(pool)
            },
            None => forall|total: int| !is_best_total(*action_mix, candidates@, total),
        },
{
    match select_best_block_workload(action_mix, candidates) {
        Some((target_action_counts, selected)) => {
            let ghost total = choose|total: int|
                {
                    &&& #[trigger] is_best_total(*action_mix, candidates@, total)
                    &&& as_ints(target_action_counts.counts@) == action_mix.targets(total)
                    &&& selected@ == selection(action_mix.targets(total), candidates@)
                    &&& matches_mix(selected@, action_mix.targets(total), candidates@)
                };
            proof {
                lemma_workload_sums(*action_mix, candidates@, selected@, total);
            }
            let serialized_bytes = selected_tx_bytes(&selected, candidates);
            let (action_counts, verifier_checks) = add_up(&selected, candidates);
            let stats = WorkloadStats {
                modeled_block_bytes: modeled_block_bytes(serialized_bytes, selected.len()),
                serialized_bytes,
                unique_transactions: count_unique(&selected),
                repeated_transactions: selected.len(),
                action_counts,
                verifier_checks,
            };
            proof {
                lemma_total_actions(selected@, candidates@, action_counts);
            }
            Some(Workload { selected, target_action_counts, stats })
        },
        None => None,
    }
}

/// All that the picks of a workload add up to can be counted.
proof fn lemma_workload_sums(
    mix: ShieldedActionMix,
    candidates: Seq<CandidateTx>,
    picks: Seq<usize>,
    total: int,
)
    requires
        mix.sum() == 100,
        workloads_fit(mix, candidates),
        is_best_total(mix, candidates, total),
        picks == selection(mix.targets(total), candidates),
        matches_mix(picks, mix.targets(total), candidates),
    ensures
        sums_fit(picks, candidates),
        picked_bytes(picks, candidates) <= MAX_BLOCK_BYTES,
{
    let targets = mix.targets(total);
    let limit = action_limit(mix, candidates)->0;
    law_targets_add_up(mix, total);
    lemma_bytes_by_actions(picks, candidates, targets);
    let number = |c: CandidateTx| c.counts.transparent_inputs as int;
    if picks.len() > 0 {
        let most = lemma_largest(picks, candidates);
        let bound = candidates[picks[most] as int].counts.transparent_inputs as int;
        lemma_sum_by_actions(picks, candidates, number, bound, targets);
        assert(total * bound <= limit * bound) by (nonlinear_arith)
            requires
                total <= limit,
                0 <= bound,
        ;
    }
}

/// The place of a pick that no other has more transparent inputs than.
proof fn lemma_largest(picks: Seq<usize>, candidates: Seq<CandidateTx>) -> (most: int)
    requires
        picks.len() > 0,
    ensures
        0 <= most < picks.len(),
        forall|i: int|
            0 <= i < picks.len() ==> candidates[(
            #[trigger] picks[i]) as int].counts.transparent_inputs
                <= candidates[picks[most] as int].counts.transparent_inputs,
    decreases picks.len(),
{
    let last = picks.len() - 1;
    if last == 0 {
        0
    } else {
        let rest = picks.drop_last();
        let most = lemma_largest(rest, candidates);
        let larger = if candidates[picks[last] as int].counts.transparent_inputs
            > candidates[picks[most] as int].counts.transparent_inputs {
            last
        } else {
            most
        };
        assert forall|i: int| 0 <= i < picks.len() implies candidates[(
        #[trigger] picks[i]) as int].counts.transparent_inputs
            <= candidates[picks[larger] as int].counts.transparent_inputs by {
            if i < last {
                assert(rest[i] == picks[i]);
            }
        }
        larger
    }
}

}
