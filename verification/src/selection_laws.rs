//! What a selection of candidates comes down to.

use crate::candidate_laws::pool_actions;
use crate::pool_selection::{
    are_single, can_select, is_single, matches_mix, matching_candidates, pool_choices,
    select_candidates_for_counts, tried_before,
};
use crate::selection::{
    picked_actions, picked_bytes, select_pool_candidates, selected_tx_bytes, Choices,
};
use crate::workload::{as_ints, pool_index, CandidateTx, ShieldedActionCounts, ShieldedPool};
use vstd::prelude::*;

verus! {

/// The sum of the bytes of the picked candidates.
pub open spec fn bytes_sum(picks: Seq<usize>, candidates: Seq<CandidateTx>) -> int {
    picks.fold_left(0int, |sum: int, pick: usize| sum + candidates[pick as int].serialized_len)
}

/// The sum of the actions of the picked candidates in a pool.
pub open spec fn actions_sum(
    picks: Seq<usize>,
    pool: ShieldedPool,
    candidates: Seq<CandidateTx>,
) -> int {
    picks.fold_left(
        0int,
        |sum: int, pick: usize| sum + pool_actions(candidates[pick as int].counts, pool),
    )
}

/// Whether a transaction has actions in a pool, and none in the others.
pub open spec fn has_only(candidate: CandidateTx, pool: ShieldedPool) -> bool {
    &&& pool_actions(candidate.counts, pool) > 0
    &&& pool_actions(candidate.counts, ShieldedPool::Sapling) + pool_actions(
        candidate.counts,
        ShieldedPool::Orchard,
    ) + pool_actions(candidate.counts, ShieldedPool::Sprout) == pool_actions(candidate.counts, pool)
}

/// Whether the picks are places in `places`.
pub open spec fn are_among(picks: Seq<usize>, places: Seq<usize>) -> bool {
    forall|i: int| 0 <= i < picks.len() ==> places.contains(#[trigger] picks[i])
}

/// Whether each pick is a candidate that has actions in one pool only.
pub open spec fn are_pure(picks: Seq<usize>, candidates: Seq<CandidateTx>) -> bool {
    forall|i: int|
        0 <= i < picks.len() ==> (#[trigger] picks[i]) < candidates.len() && (has_only(
            candidates[picks[i] as int],
            ShieldedPool::Sapling,
        ) || has_only(candidates[picks[i] as int], ShieldedPool::Orchard) || has_only(
            candidates[picks[i] as int],
            ShieldedPool::Sprout,
        ))
}

/// Whether the picks have exactly these actions in the pools, each in one pool only.
pub open spec fn make_up(
    picks: Seq<usize>,
    sapling: int,
    orchard: int,
    sprout: int,
    candidates: Seq<CandidateTx>,
) -> bool {
    &&& are_pure(picks, candidates)
    &&& actions_sum(picks, ShieldedPool::Sapling, candidates) == sapling
    &&& actions_sum(picks, ShieldedPool::Orchard, candidates) == orchard
    &&& actions_sum(picks, ShieldedPool::Sprout, candidates) == sprout
}

/// The bytes of picks are the same whether they are added up in order or from the end.
pub proof fn lemma_bytes_sum(picks: Seq<usize>, candidates: Seq<CandidateTx>)
    ensures
        picked_bytes(picks, candidates) == bytes_sum(picks, candidates),
    decreases picks.len(),
{
    if picks.len() > 0 {
        lemma_bytes_sum(picks.drop_last(), candidates);
    }
}

/// The actions of picks are the same whether they are added up in order or from the end.
pub proof fn lemma_actions_sum(
    picks: Seq<usize>,
    pool: ShieldedPool,
    candidates: Seq<CandidateTx>,
)
    ensures
        picked_actions(picks, pool, candidates) == actions_sum(picks, pool, candidates),
    decreases picks.len(),
{
    if picks.len() > 0 {
        lemma_actions_sum(picks.drop_last(), pool, candidates);
    }
}

/// A transaction has actions in one pool only if those are all that it has.
pub proof fn lemma_has_only(candidate: CandidateTx, pool: ShieldedPool)
    ensures
        candidate.is_only_in(pool) == has_only(candidate, pool),
{
    assert(candidate.counts.actions(ShieldedPool::Sapling) == pool_actions(
        candidate.counts,
        ShieldedPool::Sapling,
    ));
    assert(candidate.counts.actions(ShieldedPool::Orchard) == pool_actions(
        candidate.counts,
        ShieldedPool::Orchard,
    ));
    assert(candidate.counts.actions(ShieldedPool::Sprout) == pool_actions(
        candidate.counts,
        ShieldedPool::Sprout,
    ));
}

/// Picks have actions in one pool only if each of them does.
pub proof fn lemma_are_pure(picks: Seq<usize>, candidates: Seq<CandidateTx>)
    ensures
        are_single(picks, candidates) == are_pure(picks, candidates),
{
    assert forall|c: CandidateTx| #[trigger]
        is_single(c) == (has_only(c, ShieldedPool::Sapling) || has_only(c, ShieldedPool::Orchard)
            || has_only(c, ShieldedPool::Sprout)) by {
        lemma_has_only(c, ShieldedPool::Sapling);
        lemma_has_only(c, ShieldedPool::Orchard);
        lemma_has_only(c, ShieldedPool::Sprout);
    }
    if are_pure(picks, candidates) {
        assert forall|i: int| 0 <= i < picks.len() implies (#[trigger] picks[i]) < candidates.len()
            && is_single(candidates[picks[i] as int]) by {}
    }
}

/// Picks match a mix if their actions in each pool add up to it.
pub proof fn lemma_make_up(
    picks: Seq<usize>,
    sapling: int,
    orchard: int,
    sprout: int,
    candidates: Seq<CandidateTx>,
)
    ensures
        matches_mix(picks, seq![sapling, orchard, sprout], candidates) == make_up(
            picks,
            sapling,
            orchard,
            sprout,
            candidates,
        ),
{
    let targets = seq![sapling, orchard, sprout];
    lemma_are_pure(picks, candidates);
    lemma_actions_sum(picks, ShieldedPool::Sapling, candidates);
    lemma_actions_sum(picks, ShieldedPool::Orchard, candidates);
    lemma_actions_sum(picks, ShieldedPool::Sprout, candidates);
    if matches_mix(picks, targets, candidates) {
        assert(picked_actions(picks, ShieldedPool::Sapling, candidates) == targets[pool_index(
            ShieldedPool::Sapling,
        )]);
        assert(picked_actions(picks, ShieldedPool::Orchard, candidates) == targets[pool_index(
            ShieldedPool::Orchard,
        )]);
        assert(picked_actions(picks, ShieldedPool::Sprout, candidates) == targets[pool_index(
            ShieldedPool::Sprout,
        )]);
    }
}

/// The bytes of a selection are the sum of those of its candidates.
pub proof fn law_selected_bytes_add_up(
    selected: Vec<usize>,
    candidates: Vec<CandidateTx>,
    bytes: usize,
)
    requires
        call_ensures(selected_tx_bytes, (&selected, &candidates), bytes),
    ensures
        bytes == bytes_sum(selected@, candidates@),
{
    lemma_bytes_sum(selected@, candidates@);
}

/// The candidates that match a pool are those with actions there and nowhere else, each once.
/// They come with falling numbers of actions there; among equals with falling bytes, then
/// falling Sapling spends, then falling Sapling outputs, and then as they were given.
pub proof fn law_matching_candidates_are_ordered(
    pool: ShieldedPool,
    candidates: Vec<CandidateTx>,
    order: Vec<usize>,
    c: usize,
    i: int,
    j: int,
)
    requires
        call_ensures(matching_candidates, (pool, &candidates), order),
    ensures
        order@.contains(c) <==> c < candidates@.len() && has_only(candidates@[c as int], pool),
        order@.no_duplicates(),
        0 <= i < j < order@.len() ==> {
            let a = candidates@[order@[i] as int];
            let b = candidates@[order@[j] as int];
            let x = pool_actions(a.counts, pool);
            let y = pool_actions(b.counts, pool);
            ||| x > y
            ||| x == y && a.serialized_len > b.serialized_len
            ||| x == y && a.serialized_len == b.serialized_len && a.counts.sapling_spends
                > b.counts.sapling_spends
            ||| x == y && a.serialized_len == b.serialized_len && a.counts.sapling_spends
                == b.counts.sapling_spends && a.counts.sapling_outputs > b.counts.sapling_outputs
            ||| x == y && a.serialized_len == b.serialized_len && a.counts.sapling_spends
                == b.counts.sapling_spends && a.counts.sapling_outputs == b.counts.sapling_outputs
                && order@[i] < order@[j]
        },
{
    assert forall|k: usize| k < candidates@.len() implies #[trigger] candidates@[
        k as int
    ].is_only_in(pool) == has_only(candidates@[k as int], pool) by {
        lemma_has_only(candidates@[k as int], pool);
    }
    if c < candidates@.len() {
        assert(candidates@[c as int].is_only_in(pool) == has_only(candidates@[c as int], pool));
    }
    if order@.contains(c) {
        let k = choose|k: int| 0 <= k < order@.len() && order@[k] == c;
        assert(order@[k] == c);
    }
    assert forall|a: int, b: int| 0 <= a < order@.len() && 0 <= b < order@.len() && a
        != b implies order@[a] != order@[b] by {
        if a < b {
            assert(tried_before(order@[a], order@[b], pool, candidates@));
        } else {
            assert(tried_before(order@[b], order@[a], pool, candidates@));
        }
    }
    if 0 <= i < j < order@.len() {
        assert(tried_before(order@[i], order@[j], pool, candidates@));
    }
}

/// The selection for a pool has exactly the wanted actions, and nothing else that is made of the
/// same choices and has them takes fewer bytes. Where nothing comes back, no picks have them.
pub proof fn law_pool_selection_is_exact_and_cheapest(
    pool: ShieldedPool,
    target: usize,
    places: Vec<usize>,
    candidates: Vec<CandidateTx>,
    selected: Option<Vec<usize>>,
    others: Seq<usize>,
)
    requires
        call_ensures(select_pool_candidates, (pool, target, &places, &candidates), selected),
    ensures
        selected matches Some(picks) ==> {
            &&& are_among(picks@, places@)
            &&& actions_sum(picks@, pool, candidates@) == target
            &&& are_among(others, places@) && actions_sum(others, pool, candidates@) == target
                ==> bytes_sum(picks@, candidates@) <= bytes_sum(others, candidates@)
        },
        selected is None ==> !(are_among(others, places@) && actions_sum(others, pool, candidates@)
            == target),
{
    let choices = Choices { pool, places: places@, candidates: candidates@ };
    lemma_bytes_sum(others, candidates@);
    lemma_actions_sum(others, pool, candidates@);
    assert(choices.made_up_by(others, target as int) == (are_among(others, places@) && actions_sum(
        others,
        pool,
        candidates@,
    ) == target));
    if let Some(picks) = selected {
        lemma_bytes_sum(picks@, candidates@);
        lemma_actions_sum(picks@, pool, candidates@);
        assert(choices.made_up_by(picks@, target as int));
    }
}

/// The selection for all pools has exactly the wanted actions in each, from candidates with
/// actions in one pool only, and nothing else that does takes fewer bytes. Where nothing comes
/// back, no picks have them.
pub proof fn law_selection_is_exact_and_cheapest(
    targets: ShieldedActionCounts,
    candidates: Vec<CandidateTx>,
    selected: Option<Vec<usize>>,
    others: Seq<usize>,
)
    requires
        call_ensures(select_candidates_for_counts, (&targets, &candidates), selected),
    ensures
        ({
            let sapling = targets.counts@[0] as int;
            let orchard = targets.counts@[1] as int;
            let sprout = targets.counts@[2] as int;
            match selected {
                Some(picks) => {
                    &&& make_up(picks@, sapling, orchard, sprout, candidates@)
                    &&& make_up(others, sapling, orchard, sprout, candidates@) ==> bytes_sum(
                        picks@,
                        candidates@,
                    ) <= bytes_sum(others, candidates@)
                },
                None => !make_up(others, sapling, orchard, sprout, candidates@),
            }
        }),
{
    let sapling = targets.counts@[0] as int;
    let orchard = targets.counts@[1] as int;
    let sprout = targets.counts@[2] as int;
    assert(as_ints(targets.counts@) =~= seq![sapling, orchard, sprout]);
    lemma_make_up(others, sapling, orchard, sprout, candidates@);
    lemma_bytes_sum(others, candidates@);
    if let Some(picks) = selected {
        lemma_make_up(picks@, sapling, orchard, sprout, candidates@);
        lemma_bytes_sum(picks@, candidates@);
    }
}

/// Of the selections for a pool that take the fewest bytes, one starts with as many actions as
/// any of them has in one pick; of the choices with as many, it starts with the first.
pub proof fn law_pool_selection_starts_with_the_most_actions(
    pool: ShieldedPool,
    target: usize,
    places: Vec<usize>,
    candidates: Vec<CandidateTx>,
    picks: Vec<usize>,
    others: Seq<usize>,
    i: int,
    q: int,
)
    requires
        call_ensures(select_pool_candidates, (pool, target, &places, &candidates), Some(picks)),
        forall|k: int|
            0 <= k < places@.len() ==> (#[trigger] places@[k]) < candidates@.len()
                && candidates@[places@[k] as int].counts.sapling_spends
                + candidates@[places@[k] as int].counts.sapling_outputs <= usize::MAX,
        are_among(others, places@),
        actions_sum(others, pool, candidates@) == target,
        bytes_sum(others, candidates@) == bytes_sum(picks@, candidates@),
        0 <= i < others.len(),
        0 <= q < places@.len(),
        places@[q] == others[i],
        pool_actions(candidates@[others[i] as int].counts, pool) > 0,
    ensures
        picks@.len() > 0,
        pool_actions(candidates@[picks@[0] as int].counts, pool) >= pool_actions(
            candidates@[others[i] as int].counts,
            pool,
        ),
        pool_actions(candidates@[picks@[0] as int].counts, pool) == pool_actions(
            candidates@[others[i] as int].counts,
            pool,
        ) ==> exists|p: int| 0 <= p <= q && #[trigger] places@[p] == picks@[0],
{
    let choices = Choices { pool, places: places@, candidates: candidates@ };
    lemma_bytes_sum(others, candidates@);
    lemma_actions_sum(others, pool, candidates@);
    lemma_bytes_sum(picks@, candidates@);
    assert(choices.wf());
    choices.lemma_selection(target as nat);
    choices.lemma_cost(target as nat);
    assert(choices.made_up_by(others, target as int));
    choices.lemma_first_pick(target as nat, others, i, q);
    let first = choices.settled(target as nat)->0;
    assert(places@[first.2 as int] == picks@[0]);
}

/// The selection for a pool is its first pick, and then the selection for the actions that this
/// one leaves. For no actions it is empty.
pub proof fn law_pool_selection_goes_on_with_what_is_left(
    pool: ShieldedPool,
    target: usize,
    left: usize,
    places: Vec<usize>,
    candidates: Vec<CandidateTx>,
    picks: Vec<usize>,
    rest: Option<Vec<usize>>,
)
    requires
        call_ensures(select_pool_candidates, (pool, target, &places, &candidates), Some(picks)),
        call_ensures(select_pool_candidates, (pool, left, &places, &candidates), rest),
        picks@.len() > 0 ==> left == target - pool_actions(
            candidates@[picks@[0] as int].counts,
            pool,
        ),
    ensures
        picks@.len() == 0 <==> target == 0,
        target > 0 ==> (rest matches Some(later) && picks@ == seq![picks@[0]] + later@),
{
    let choices = Choices { pool, places: places@, candidates: candidates@ };
    choices.lemma_later_picks(target as nat);
}

/// The selection for all pools is that for Sapling, then that for Orchard, then that for Sprout,
/// each made of the candidates that match the pool.
pub proof fn law_selection_goes_pool_by_pool(
    targets: ShieldedActionCounts,
    candidates: Vec<CandidateTx>,
    selected: Vec<usize>,
    orders: (Vec<usize>, Vec<usize>, Vec<usize>),
    sapling: Option<Vec<usize>>,
    orchard: Option<Vec<usize>>,
    sprout: Option<Vec<usize>>,
)
    requires
        call_ensures(select_candidates_for_counts, (&targets, &candidates), Some(selected)),
        call_ensures(matching_candidates, (ShieldedPool::Sapling, &candidates), orders.0),
        call_ensures(matching_candidates, (ShieldedPool::Orchard, &candidates), orders.1),
        call_ensures(matching_candidates, (ShieldedPool::Sprout, &candidates), orders.2),
        call_ensures(
            select_pool_candidates,
            (ShieldedPool::Sapling, targets.counts@[0], &orders.0, &candidates),
            sapling,
        ),
        call_ensures(
            select_pool_candidates,
            (ShieldedPool::Orchard, targets.counts@[1], &orders.1, &candidates),
            orchard,
        ),
        call_ensures(
            select_pool_candidates,
            (ShieldedPool::Sprout, targets.counts@[2], &orders.2, &candidates),
            sprout,
        ),
    ensures
        sapling matches Some(a) && orchard matches Some(b) && sprout matches Some(c) && selected@
            == a@ + b@ + c@,
{
    let targets_seq = as_ints(targets.counts@);
    assert(can_select(targets_seq, candidates@));
    assert(pool_choices(ShieldedPool::Sapling, candidates@).settled(
        targets_seq[pool_index(ShieldedPool::Sapling)] as nat,
    ) is Some);
    assert(pool_choices(ShieldedPool::Orchard, candidates@).settled(
        targets_seq[pool_index(ShieldedPool::Orchard)] as nat,
    ) is Some);
    assert(pool_choices(ShieldedPool::Sprout, candidates@).settled(
        targets_seq[pool_index(ShieldedPool::Sprout)] as nat,
    ) is Some);
}

}
