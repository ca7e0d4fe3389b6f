//! Selecting candidates that match an action count in every shielded pool.

use crate::selection::{
    lemma_picked_concat, picked_actions, picked_bytes, select_pool_candidates, Choices,
};
use crate::workload::{
    as_ints, pool_at, pool_index, score, score_below, CandidateTx, ShieldedActionCounts,
    ShieldedPool, SHIELDED_POOL_COUNT,
};
use vstd::prelude::*;

verus! {

/// Whether candidate `a` is tried before candidate `b` in a pool: its score is higher, or the
/// same and it comes first.
pub open spec fn tried_before(
    a: usize,
    b: usize,
    pool: ShieldedPool,
    candidates: Seq<CandidateTx>,
) -> bool {
    let x = score(candidates[a as int], pool);
    let y = score(candidates[b as int], pool);
    score_below(y, x) || x == y && a < b
}

/// Whether `order` holds those of the first `upto` candidates that have actions in a pool and
/// in no other, in the order in which they are tried.
pub open spec fn is_order_of_first(
    order: Seq<usize>,
    pool: ShieldedPool,
    candidates: Seq<CandidateTx>,
    upto: int,
) -> bool {
    &&& forall|i: int|
        0 <= i < order.len() ==> (#[trigger] order[i]) < upto
            && candidates[order[i] as int].is_only_in(pool)
    &&& forall|c: usize|
        c < upto && (#[trigger] candidates[c as int]).is_only_in(pool) ==> order.contains(c)
    &&& forall|i: int, j: int|
        0 <= i < j < order.len() ==> tried_before(
            #[trigger] order[i],
            #[trigger] order[j],
            pool,
            candidates,
        )
}

/// Whether `order` holds the candidates that have actions in a pool and in no other, in the
/// order in which they are tried.
pub open spec fn is_pool_order(
    order: Seq<usize>,
    pool: ShieldedPool,
    candidates: Seq<CandidateTx>,
) -> bool {
    is_order_of_first(order, pool, candidates, candidates.len() as int)
}

/// The candidates that have actions in a pool and in no other, in the order in which they are
/// tried.
pub open spec fn pool_order(pool: ShieldedPool, candidates: Seq<CandidateTx>) -> Seq<usize> {
    choose|order: Seq<usize>| is_pool_order(order, pool, candidates)
}

/// The choices for a pool.
pub open spec fn pool_choices(pool: ShieldedPool, candidates: Seq<CandidateTx>) -> Choices {
    Choices { pool, places: pool_order(pool, candidates), candidates }
}

/// Whether each pool can have exactly its number of actions.
pub open spec fn can_select(targets: Seq<int>, candidates: Seq<CandidateTx>) -> bool {
    forall|pool: ShieldedPool| #[trigger]
        pool_choices(pool, candidates).settled(targets[pool_index(pool)] as nat) is Some
}

/// The candidates that are selected for the actions of each pool, one pool after the other.
pub open spec fn selection(targets: Seq<int>, candidates: Seq<CandidateTx>) -> Seq<usize> {
    pool_choices(ShieldedPool::Sapling, candidates).chosen(targets[0] as nat) + pool_choices(
        ShieldedPool::Orchard,
        candidates,
    ).chosen(targets[1] as nat) + pool_choices(ShieldedPool::Sprout, candidates).chosen(
        targets[2] as nat,
    )
}

/// Whether a candidate has actions in one pool only.
pub open spec fn is_single(candidate: CandidateTx) -> bool {
    exists|pool: ShieldedPool| #[trigger] candidate.is_only_in(pool)
}

/// Whether the picks are candidates that have actions in one pool only.
pub open spec fn are_single(picks: Seq<usize>, candidates: Seq<CandidateTx>) -> bool {
    forall|i: int|
        0 <= i < picks.len() ==> (#[trigger] picks[i]) < candidates.len() && is_single(
            candidates[picks[i] as int],
        )
}

/// Whether the picks are candidates that have actions in one pool only, and exactly the wanted
/// number of actions in each pool.
pub open spec fn matches_mix(
    picks: Seq<usize>,
    targets: Seq<int>,
    candidates: Seq<CandidateTx>,
) -> bool {
    &&& are_single(picks, candidates)
    &&& forall|pool: ShieldedPool| #[trigger]
        picked_actions(picks, pool, candidates) == targets[pool_index(pool)]
}

/// The number of bytes of the longest of the first `upto` candidates.
pub open spec fn longest_of(candidates: Seq<CandidateTx>, upto: int) -> int
    decreases upto,
{
    if upto <= 0 {
        0
    } else if candidates[upto - 1].serialized_len > longest_of(candidates, upto - 1) {
        candidates[upto - 1].serialized_len as int
    } else {
        longest_of(candidates, upto - 1)
    }
}

/// Whether the bytes of any selection with up to `actions` actions can be counted.
pub open spec fn selection_fits(actions: int, candidates: Seq<CandidateTx>) -> bool {
    (actions + 1) * longest_of(candidates, candidates.len() as int) <= usize::MAX
}

/// Whether the actions of every candidate can be counted.
pub open spec fn are_countable(candidates: Seq<CandidateTx>) -> bool {
    forall|i: int| 0 <= i < candidates.len() ==> (#[trigger] candidates[i]).counts.countable()
}

/// There is only one order in which the candidates of a pool are tried.
pub proof fn law_pool_order_is_unique(
    a: Seq<usize>,
    b: Seq<usize>,
    pool: ShieldedPool,
    candidates: Seq<CandidateTx>,
)
    requires
        is_pool_order(a, pool, candidates),
        is_pool_order(b, pool, candidates),
    ensures
        a == b,
{
    lemma_same_prefix(a, b, pool, candidates, a.len() as int);
    lemma_same_prefix(b, a, pool, candidates, b.len() as int);
}

proof fn lemma_same_prefix(
    a: Seq<usize>,
    b: Seq<usize>,
    pool: ShieldedPool,
    candidates: Seq<CandidateTx>,
    upto: int,
)
    requires
        0 <= upto <= a.len(),
        is_pool_order(a, pool, candidates),
        is_pool_order(b, pool, candidates),
    ensures
        upto <= b.len(),
        forall|i: int| 0 <= i < upto ==> a[i] == b[i],
    decreases upto,
{
    if upto > 0 {
        let i = upto - 1;
        lemma_same_prefix(a, b, pool, candidates, i);
        assert(b.contains(a[i]));
        assert(i < b.len() ==> a.contains(b[i]));
    }
}

/// One more candidate, put where it belongs, keeps the order.
proof fn lemma_insert(
    order: Seq<usize>,
    pool: ShieldedPool,
    candidates: Seq<CandidateTx>,
    c: usize,
    p: int,
)
    requires
        0 <= p <= order.len(),
        is_order_of_first(order, pool, candidates, c as int),
        candidates[c as int].is_only_in(pool),
        forall|j: int| 0 <= j < p ==> tried_before(#[trigger] order[j], c, pool, candidates),
        forall|j: int|
            p <= j < order.len() ==> tried_before(c, #[trigger] order[j], pool, candidates),
    ensures
        is_order_of_first(order.insert(p, c), pool, candidates, c + 1),
{
    let all = order.insert(p, c);
    assert forall|d: usize|
        d < c + 1 && (#[trigger] candidates[d as int]).is_only_in(pool) implies all.contains(
        d,
    ) by {
        if d == c {
            assert(all[p] == c);
        } else {
            let q = choose|q: int| 0 <= q < order.len() && order[q] == d;
            if q < p {
                assert(all[q] == d);
            } else {
                assert(all[q + 1] == d);
            }
        }
    }
}

/// Whether the score of `a` is below that of `b`.
fn is_score_below(
    a: (usize, usize, usize, usize),
    b: (usize, usize, usize, usize),
) -> (below: bool)
    ensures
        below == score_below(
            (a.0 as int, a.1 as int, a.2 as int, a.3 as int),
            (b.0 as int, b.1 as int, b.2 as int, b.3 as int),
        ),
{
    a.0 < b.0 || (a.0 == b.0 && (a.1 < b.1 || (a.1 == b.1 && (a.2 < b.2 || (a.2 == b.2 && a.3
        < b.3)))))
}

/// The candidates that have actions in a pool and in no other, in the order in which they are
/// tried: by falling score, and those with the same score as they come.
pub fn matching_candidates(pool: ShieldedPool, candidates: &Vec<CandidateTx>) -> (order: Vec<usize>)
    requires
        are_countable(candidates@),
    ensures
        is_pool_order(order@, pool, candidates@),
        order@ == pool_order(pool, candidates@),
{
    let mut order: Vec<usize> = Vec::new();
    let mut c: usize = 0;
    while c < candidates.len()
        invariant
            c <= candidates@.len(),
            are_countable(candidates@),
            is_order_of_first(order@, pool, candidates@, c as int),
        decreases candidates.len() - c,
    {
        if candidates[c].has_only_pool_actions(pool) {
            let points = candidates[c].pool_score(pool);
            let mut p: usize = order.len();
            while p > 0 && is_score_below(candidates[order[p - 1]].pool_score(pool), points)
                invariant
                    p <= order@.len(),
                    c < candidates@.len(),
                    are_countable(candidates@),
                    is_order_of_first(order@, pool, candidates@, c as int),
                    (points.0 as int, points.1 as int, points.2 as int, points.3 as int) == score(
                        candidates@[c as int],
                        pool,
                    ),
                    forall|j: int|
                        p <= j < order@.len() ==> tried_before(
                            c,
                            #[trigger] order@[j],
                            pool,
                            candidates@,
                        ),
                decreases p,
            {
                p -= 1;
            }
            proof {
                lemma_insert(order@, pool, candidates@, c, p as int);
            }
            order.insert(p, c);
        }
        c += 1;
    }
    proof {
        assert(is_pool_order(order@, pool, candidates@));
        law_pool_order_is_unique(order@, pool_order(pool, candidates@), pool, candidates@);
    }
    order
}

/// No choice for a pool is longer than the longest candidate.
proof fn lemma_choices(pool: ShieldedPool, candidates: Seq<CandidateTx>, upto: int)
    requires
        are_countable(candidates),
        is_pool_order(pool_order(pool, candidates), pool, candidates),
        0 <= upto <= pool_order(pool, candidates).len(),
    ensures
        pool_choices(pool, candidates).wf(),
        0 <= pool_choices(pool, candidates).longest(upto) <= longest_of(
            candidates,
            candidates.len() as int,
        ),
    decreases upto,
{
    let order = pool_order(pool, candidates);
    if upto > 0 {
        lemma_choices(pool, candidates, upto - 1);
        lemma_longest_of(candidates, candidates.len() as int, order[upto - 1] as int);
    }
}

pub(crate) proof fn lemma_longest_of(candidates: Seq<CandidateTx>, upto: int, i: int)
    requires
        0 <= i < upto <= candidates.len(),
    ensures
        candidates[i].serialized_len <= longest_of(candidates, upto),
    decreases upto,
{
    if i < upto - 1 {
        lemma_longest_of(candidates, upto - 1, i);
    }
}

/// The picks that have actions in a pool and in no other.
spec fn part(picks: Seq<usize>, pool: ShieldedPool, candidates: Seq<CandidateTx>) -> Seq<usize>
    decreases picks.len(),
{
    if picks.len() == 0 {
        Seq::empty()
    } else if candidates[picks.last() as int].is_only_in(pool) {
        part(picks.drop_last(), pool, candidates).push(picks.last())
    } else {
        part(picks.drop_last(), pool, candidates)
    }
}

/// The part of the picks in a pool is made of choices for that pool and has all the actions in
/// it.
proof fn lemma_part(picks: Seq<usize>, pool: ShieldedPool, candidates: Seq<CandidateTx>)
    requires
        is_pool_order(pool_order(pool, candidates), pool, candidates),
        are_single(picks, candidates),
    ensures
        pool_choices(pool, candidates).made_up_by(
            part(picks, pool, candidates),
            picked_actions(picks, pool, candidates),
        ),
    decreases picks.len(),
{
    if picks.len() > 0 {
        let rest = picks.drop_last();
        let last = picks.last();
        lemma_part(rest, pool, candidates);
        if candidates[last as int].is_only_in(pool) {
            let smaller = part(rest, pool, candidates);
            assert(smaller.push(last).drop_last() =~= smaller);
        }
    }
}

/// The parts of the picks in the three pools have all the bytes.
proof fn lemma_parts_bytes(picks: Seq<usize>, candidates: Seq<CandidateTx>)
    requires
        are_single(picks, candidates),
    ensures
        picked_bytes(picks, candidates) == picked_bytes(
            part(picks, ShieldedPool::Sapling, candidates),
            candidates,
        ) + picked_bytes(part(picks, ShieldedPool::Orchard, candidates), candidates) + picked_bytes(
            part(picks, ShieldedPool::Sprout, candidates),
            candidates,
        ),
    decreases picks.len(),
{
    if picks.len() > 0 {
        let rest = picks.drop_last();
        let last = picks.last();
        lemma_parts_bytes(rest, candidates);
        let own = choose|p: ShieldedPool| #[trigger] candidates[last as int].is_only_in(p);
        let smaller = part(rest, own, candidates);
        assert(smaller.push(last).drop_last() =~= smaller);
    }
}

/// Choices for one pool have no actions in another.
proof fn lemma_other_pool(
    picks: Seq<usize>,
    pool: ShieldedPool,
    other: ShieldedPool,
    candidates: Seq<CandidateTx>,
)
    requires
        other != pool,
        forall|i: int|
            0 <= i < picks.len() ==> candidates[(#[trigger] picks[i]) as int].is_only_in(pool),
    ensures
        picked_actions(picks, other, candidates) == 0,
    decreases picks.len(),
{
    if picks.len() > 0 {
        lemma_other_pool(picks.drop_last(), pool, other, candidates);
    }
}

/// What was chosen for a pool has its actions there and nowhere else.
proof fn lemma_pool_part(pool: ShieldedPool, target: nat, candidates: Seq<CandidateTx>)
    requires
        are_countable(candidates),
        is_pool_order(pool_order(pool, candidates), pool, candidates),
        pool_choices(pool, candidates).settled(target) is Some,
    ensures
        pool_choices(pool, candidates).is_cheapest(
            pool_choices(pool, candidates).chosen(target),
            target as int,
        ),
        forall|other: ShieldedPool| #[trigger]
            picked_actions(pool_choices(pool, candidates).chosen(target), other, candidates)
                == if other == pool {
                target as int
            } else {
                0
            },
        forall|i: int|
            0 <= i < pool_choices(pool, candidates).chosen(target).len() ==> {
                let pick = #[trigger] pool_choices(pool, candidates).chosen(target)[i];
                pick < candidates.len() && candidates[pick as int].is_only_in(pool)
            },
{
    let choices = pool_choices(pool, candidates);
    let picks = choices.chosen(target);
    choices.lemma_selection(target);
    assert forall|other: ShieldedPool| #[trigger]
        picked_actions(picks, other, candidates) == if other == pool {
            target as int
        } else {
            0
        } by {
        if other != pool {
            lemma_other_pool(picks, pool, other, candidates);
        }
    }
}

/// The selection matches the wanted actions, and nothing that does has fewer bytes.
proof fn lemma_selection_matches(targets: Seq<int>, candidates: Seq<CandidateTx>)
    requires
        targets.len() == 3,
        forall|i: int| 0 <= i < 3 ==> 0 <= #[trigger] targets[i],
        are_countable(candidates),
        forall|pool: ShieldedPool| #[trigger]
            is_pool_order(pool_order(pool, candidates), pool, candidates),
        can_select(targets, candidates),
    ensures
        matches_mix(selection(targets, candidates), targets, candidates),
        forall|others: Seq<usize>| #[trigger]
            matches_mix(others, targets, candidates) ==> picked_bytes(
                selection(targets, candidates),
                candidates,
            ) <= picked_bytes(others, candidates),
{
    let sapling = pool_choices(ShieldedPool::Sapling, candidates);
    let orchard = pool_choices(ShieldedPool::Orchard, candidates);
    let sprout = pool_choices(ShieldedPool::Sprout, candidates);
    assert(sapling.settled(targets[pool_index(ShieldedPool::Sapling)] as nat) is Some);
    assert(orchard.settled(targets[pool_index(ShieldedPool::Orchard)] as nat) is Some);
    assert(sprout.settled(targets[pool_index(ShieldedPool::Sprout)] as nat) is Some);
    lemma_pool_part(ShieldedPool::Sapling, targets[0] as nat, candidates);
    lemma_pool_part(ShieldedPool::Orchard, targets[1] as nat, candidates);
    lemma_pool_part(ShieldedPool::Sprout, targets[2] as nat, candidates);
    let a = sapling.chosen(targets[0] as nat);
    let b = orchard.chosen(targets[1] as nat);
    let c = sprout.chosen(targets[2] as nat);
    let all = a + b + c;
    assert forall|pool: ShieldedPool| #[trigger]
        picked_actions(all, pool, candidates) == targets[pool_index(pool)] by {
        lemma_picked_concat(a + b, c, pool, candidates);
        lemma_picked_concat(a, b, pool, candidates);
    }
    assert forall|others: Seq<usize>| #[trigger]
        matches_mix(others, targets, candidates) implies picked_bytes(all, candidates)
        <= picked_bytes(others, candidates) by {
        lemma_part(others, ShieldedPool::Sapling, candidates);
        lemma_part(others, ShieldedPool::Orchard, candidates);
        lemma_part(others, ShieldedPool::Sprout, candidates);
        lemma_parts_bytes(others, candidates);
        lemma_picked_concat(a + b, c, ShieldedPool::Sapling, candidates);
        lemma_picked_concat(a, b, ShieldedPool::Sapling, candidates);
    }
}

/// Where a pool cannot have exactly its number of actions, no picks match.
proof fn lemma_no_match(pool: ShieldedPool, targets: Seq<int>, candidates: Seq<CandidateTx>)
    requires
        targets.len() == 3,
        0 <= targets[pool_index(pool)],
        are_countable(candidates),
        is_pool_order(pool_order(pool, candidates), pool, candidates),
        pool_choices(pool, candidates).settled(targets[pool_index(pool)] as nat) is None,
    ensures
        forall|picks: Seq<usize>| !matches_mix(picks, targets, candidates),
{
    pool_choices(pool, candidates).lemma_selection(targets[pool_index(pool)] as nat);
    assert forall|picks: Seq<usize>| !matches_mix(picks, targets, candidates) by {
        if matches_mix(picks, targets, candidates) {
            lemma_part(picks, pool, candidates);
        }
    }
}

/// Selects candidates that match the action counts of all pools, with as few bytes as can be,
/// one pool after the other.
///
/// Nothing comes back where no selection matches.
pub fn select_candidates_for_counts(
    target_counts: &ShieldedActionCounts,
    candidates: &Vec<CandidateTx>,
) -> (selected: Option<Vec<usize>>)
    requires
        are_countable(candidates@),
        forall|i: int|
            0 <= i < 3 ==> (#[trigger] target_counts.counts@[i]) < usize::MAX && selection_fits(
                target_counts.counts@[i] as int,
                candidates@,
            ),
    ensures
        ({
            let targets = as_ints(target_counts.counts@);
            match selected {
                Some(picks) => {
                    &&& can_select(targets, candidates@)
                    &&& picks@ == selection(targets, candidates@)
                    &&& matches_mix(picks@, targets, candidates@)
                    &&& forall|others: Seq<usize>| #[trigger]
                        matches_mix(others, targets, candidates@) ==> picked_bytes(
                            picks@,
                            candidates@,
                        ) <= picked_bytes(others, candidates@)
                },
                None => {
                    &&& !can_select(targets, candidates@)
                    &&& forall|picks: Seq<usize>| !matches_mix(picks, targets, candidates@)
                },
            }
        }),
{
    let ghost targets = as_ints(target_counts.counts@);
    let ghost all = candidates@;
    let mut selected: Vec<usize> = Vec::new();
    let mut i: usize = 0;
    while i < SHIELDED_POOL_COUNT
        invariant
            i <= 3,
            all == candidates@,
            targets == as_ints(target_counts.counts@),
            are_countable(candidates@),
            forall|k: int|
                0 <= k < 3 ==> (#[trigger] target_counts.counts@[k]) < usize::MAX && selection_fits(
                    target_counts.counts@[k] as int,
                    candidates@,
                ),
            forall|k: int|
                0 <= k < i ==> is_pool_order(
                    pool_order(#[trigger] pool_at(k), all),
                    pool_at(k),
                    all,
                ) && pool_choices(pool_at(k), all).settled(targets[k] as nat) is Some,
            selected@ == selected_upto(targets, all, i as int),
        decreases 3 - i,
    {
        let pool = ShieldedPool::at(i);
        let target_actions = target_counts.action_count(pool);
        let matching_indices = matching_candidates(pool, candidates);
        proof {
            lemma_choices(pool, all, matching_indices@.len() as int);
            let longest = pool_choices(pool, all).longest(matching_indices@.len() as int);
            let bound = longest_of(all, all.len() as int);
            assert((target_actions + 1) * longest <= (target_actions + 1) * bound)
                by (nonlinear_arith)
                requires
                    longest <= bound,
            ;
        }
        match select_pool_candidates(pool, target_actions, &matching_indices, candidates) {
            Some(picks) => {
                append_picks(&mut selected, &picks);
            },
            None => {
                proof {
                    lemma_no_match(pool, targets, all);
                }
                return None;
            },
        }
        i += 1;
    }
    proof {
        assert(selected@ =~= selection(targets, all)) by {
            reveal_with_fuel(selected_upto, 4);
        }
        lemma_selection_matches(targets, all);
    }
    Some(selected)
}

/// What is selected for the first `upto` pools.
spec fn selected_upto(targets: Seq<int>, candidates: Seq<CandidateTx>, upto: int) -> Seq<usize>
    decreases upto,
{
    if upto <= 0 {
        Seq::empty()
    } else {
        selected_upto(targets, candidates, upto - 1) + pool_choices(
            pool_at(upto - 1),
            candidates,
        ).chosen(targets[upto - 1] as nat)
    }
}

/// Appends `picks` to `selected`.
fn append_picks(selected: &mut Vec<usize>, picks: &Vec<usize>)
    ensures
        final(selected)@ == old(selected)@ + picks@,
{
    let mut i: usize = 0;
    while i < picks.len()
        invariant
            i <= picks@.len(),
            selected@ == old(selected)@ + picks@.take(i as int),
        decreases picks.len() - i,
    {
        selected.push(picks[i]);
        i += 1;
    }
}

}
