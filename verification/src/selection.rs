//! Selecting the cheapest repeated transactions that make up an exact number of actions.

use crate::workload::{CandidateTx, ShieldedPool};
use vstd::prelude::*;

verus! {

/// The number of actions that the picked candidates have in a pool, all together.
pub open spec fn picked_actions(
    picks: Seq<usize>,
    pool: ShieldedPool,
    candidates: Seq<CandidateTx>,
) -> int
    decreases picks.len(),
{
    if picks.len() == 0 {
        0
    } else {
        picked_actions(picks.drop_last(), pool, candidates)
            + candidates[picks.last() as int].counts.actions(pool)
    }
}

/// The number of bytes that the picked candidates have, all together.
pub open spec fn picked_bytes(picks: Seq<usize>, candidates: Seq<CandidateTx>) -> int
    decreases picks.len(),
{
    if picks.len() == 0 {
        0
    } else {
        picked_bytes(picks.drop_last(), candidates) + candidates[picks.last() as int].serialized_len
    }
}

/// The candidates of a pool that transactions are picked from, as often as needed.
pub struct Choices {
    /// The pool whose actions count.
    pub pool: ShieldedPool,
    /// The places of the choices among the candidates.
    pub places: Seq<usize>,
    /// The candidates.
    pub candidates: Seq<CandidateTx>,
}

impl Choices {
    /// Whether each choice is the place of a candidate whose actions can be counted.
    pub open spec fn wf(self) -> bool {
        forall|i: int|
            0 <= i < self.places.len() ==> (#[trigger] self.places[i]) < self.candidates.len()
                && self.candidates[self.places[i] as int].counts.countable()
    }

    /// The number of actions of choice number `k`.
    pub open spec fn actions_of(self, k: int) -> int {
        self.candidates[self.places[k] as int].counts.actions(self.pool)
    }

    /// The number of bytes of choice number `k`.
    pub open spec fn bytes_of(self, k: int) -> int {
        self.candidates[self.places[k] as int].serialized_len as int
    }

    /// The number of bytes of the longest of the first `upto` choices.
    pub open spec fn longest(self, upto: int) -> int
        decreases upto,
    {
        if upto <= 0 {
            0
        } else if self.bytes_of(upto - 1) > self.longest(upto - 1) {
            self.bytes_of(upto - 1)
        } else {
            self.longest(upto - 1)
        }
    }

    /// Whether the bytes of any picks with up to `target` actions can be counted, and one more
    /// pick with them.
    pub open spec fn fits(self, target: int) -> bool {
        (target + 1) * self.longest(self.places.len() as int) <= usize::MAX
    }

    /// Whether the picks are choices, and have exactly `target` actions.
    pub open spec fn made_up_by(self, picks: Seq<usize>, target: int) -> bool {
        &&& forall|i: int| 0 <= i < picks.len() ==> self.places.contains(#[trigger] picks[i])
        &&& picked_actions(picks, self.pool, self.candidates) == target
    }

    /// Whether the picks have exactly `target` actions, and no others that do have fewer
    /// bytes.
    pub open spec fn is_cheapest(self, picks: Seq<usize>, target: int) -> bool {
        &&& self.made_up_by(picks, target)
        &&& forall|others: Seq<usize>| #[trigger]
            self.made_up_by(others, target) ==> picked_bytes(picks, self.candidates)
                <= picked_bytes(others, self.candidates)
    }

    /// Whether choice number `k` leads from `from` actions to `target`.
    pub open spec fn leads(self, from: nat, k: nat, target: nat) -> bool {
        self.actions_of(k as int) > 0 && from + self.actions_of(k as int) == target
    }

    /// The best last pick for `target` actions, of all that lead there from fewer than `from`
    /// actions, and of the first `k` choices that lead there from `from` actions: the bytes
    /// that it ends up with, the actions before it, and the number of the choice.
    ///
    /// Of the picks that end up with the fewest bytes, it is the one with the fewest actions
    /// before it.
    pub open spec fn best(self, target: nat, from: nat, k: nat) -> Option<(int, nat, nat)>
        decreases target, from, k,
    {
        if target == 0 {
            Some((0, 0, 0))
        } else if k > 0 {
            let earlier = self.best(target, from, (k - 1) as nat);
            if self.leads(from, (k - 1) as nat, target) {
                match self.best(from, from, 0) {
                    Some((bytes, _, _)) => {
                        let total = bytes + self.bytes_of(k - 1);
                        match earlier {
                            Some((least, _, _)) if least <= total => earlier,
                            _ => Some((total, from, (k - 1) as nat)),
                        }
                    },
                    None => earlier,
                }
            } else {
                earlier
            }
        } else if from > 0 {
            self.best(target, (from - 1) as nat, self.places.len())
        } else {
            None
        }
    }

    /// The best last pick for `target` actions.
    pub open spec fn settled(self, target: nat) -> Option<(int, nat, nat)> {
        self.best(target, target, 0)
    }

    /// The bytes that the best last pick for `target` actions ends up with.
    pub open spec fn cost(self, target: nat) -> int {
        match self.settled(target) {
            Some((bytes, _, _)) => bytes,
            None => 0,
        }
    }

    /// The picks for `target` actions: the best last pick, and then those for the actions
    /// before it.
    pub open spec fn chosen(self, target: nat) -> Seq<usize>
        decreases target,
    {
        match self.settled(target) {
            Some((_, from, k)) if 0 < target && from < target => seq![self.places[k as int]]
                + self.chosen(from),
            _ => Seq::empty(),
        }
    }

    proof fn lemma_longest(self, upto: int, k: int)
        requires
            0 <= k < upto,
        ensures
            self.bytes_of(k) <= self.longest(upto),
        decreases upto,
    {
        if k < upto - 1 {
            self.lemma_longest(upto - 1, k);
        }
    }

    /// Nothing leads to `target` from `target` actions on.
    proof fn lemma_settled(self, target: nat, from: nat, k: nat)
        requires
            from >= target,
        ensures
            self.best(target, from, k) == self.settled(target),
        decreases from, k,
    {
        if target > 0 {
            if k > 0 {
                self.lemma_settled(target, from, (k - 1) as nat);
            } else if from > target {
                self.lemma_settled(target, (from - 1) as nat, self.places.len());
            }
        }
    }

    /// Nothing leads on from a number of actions that cannot be made up.
    proof fn lemma_dead_end(self, target: nat, from: nat, k: nat)
        requires
            self.settled(from) is None,
        ensures
            self.best(target, from, k) == self.best(target, from, 0),
        decreases k,
    {
        if target > 0 && k > 0 {
            self.lemma_dead_end(target, from, (k - 1) as nat);
        }
    }

    /// What a best last pick is made of.
    proof fn lemma_best(self, target: nat, from: nat, k: nat)
        requires
            target > 0,
            k <= self.places.len(),
        ensures
            self.best(target, from, k) matches Some((bytes, before, last)) ==> {
                &&& before < target
                &&& last < self.places.len()
                &&& self.leads(before, last, target)
                &&& self.settled(before) matches Some((rest, _, _))
                &&& bytes == rest + self.bytes_of(last as int)
            },
        decreases from, k,
    {
        if k > 0 {
            self.lemma_best(target, from, (k - 1) as nat);
        } else if from > 0 {
            self.lemma_best(target, (from - 1) as nat, self.places.len());
        }
    }

    /// A best last pick ends up with no more bytes than any that was considered.
    proof fn lemma_considered(self, target: nat, from: nat, k: nat, before: nat, last: nat)
        requires
            before < from || before == from && last < k,
            last < self.places.len(),
            self.leads(before, last, target),
            self.settled(before) is Some,
        ensures
            self.best(target, from, k) matches Some((bytes, _, _)) && bytes <= self.cost(before)
                + self.bytes_of(last as int),
        decreases from, k,
    {
        if k > 0 {
            if !(before == from && last == k - 1) {
                self.lemma_considered(target, from, (k - 1) as nat, before, last);
            }
        } else {
            self.lemma_considered(target, (from - 1) as nat, self.places.len(), before, last);
        }
    }

    /// Each action that is made up costs at most the bytes of the longest choice.
    proof fn lemma_bytes_bound(self, target: nat)
        requires
            self.wf(),
        ensures
            self.settled(target) matches Some((bytes, _, _)) ==> 0 <= bytes <= target
                * self.longest(self.places.len() as int),
        decreases target,
    {
        if target > 0 {
            self.lemma_best(target, target, 0);
            if let Some((bytes, before, last)) = self.settled(target) {
                let longest = self.longest(self.places.len() as int);
                self.lemma_bytes_bound(before);
                self.lemma_longest(self.places.len() as int, last as int);
                assert(before * longest + longest <= target * longest) by (nonlinear_arith)
                    requires
                        before + 1 <= target,
                        0 <= longest,
                ;
            }
        }
    }

    /// No picks have fewer bytes than the best last pick ends up with.
    proof fn lemma_optimal(self, picks: Seq<usize>, target: nat)
        requires
            self.wf(),
            self.made_up_by(picks, target as int),
        ensures
            self.settled(target) matches Some((bytes, _, _)) && bytes <= picked_bytes(
                picks,
                self.candidates,
            ),
        decreases picks.len(),
    {
        if picks.len() > 0 {
            let rest = picks.drop_last();
            let last = picks.last();
            let k = choose|k: int| 0 <= k < self.places.len() && self.places[k] == last;
            self.lemma_picked_nonnegative(rest);
            let before = (target - self.actions_of(k)) as nat;
            self.lemma_optimal(rest, before);
            if self.actions_of(k) > 0 {
                self.lemma_considered(target, target, 0, before, k as nat);
            }
        }
    }

    proof fn lemma_picked_nonnegative(self, picks: Seq<usize>)
        ensures
            0 <= picked_actions(picks, self.pool, self.candidates),
            0 <= picked_bytes(picks, self.candidates),
        decreases picks.len(),
    {
        if picks.len() > 0 {
            self.lemma_picked_nonnegative(picks.drop_last());
        }
    }

    /// The chosen picks have the wanted actions, and the bytes of the best last pick.
    proof fn lemma_chosen(self, target: nat)
        requires
            self.settled(target) is Some,
        ensures
            self.made_up_by(self.chosen(target), target as int),
            picked_bytes(self.chosen(target), self.candidates) == self.cost(target),
        decreases target,
    {
        if target > 0 {
            self.lemma_best(target, target, 0);
            let (_, before, last) = self.settled(target)->0;
            self.lemma_chosen(before);
            let rest = self.chosen(before);
            let first = self.places[last as int];
            lemma_picked_concat(seq![first], rest, self.pool, self.candidates);
            assert(picked_actions(seq![first], self.pool, self.candidates) == self.actions_of(
                last as int,
            ) && picked_bytes(seq![first], self.candidates) == self.bytes_of(last as int)) by {
                reveal_with_fuel(picked_actions, 2);
                reveal_with_fuel(picked_bytes, 2);
            }
        }
    }

    /// A best last pick is one of those that were considered.
    proof fn lemma_position(self, target: nat, from: nat, k: nat)
        requires
            target > 0,
            k <= self.places.len(),
        ensures
            self.best(target, from, k) matches Some((_, before, last)) ==> before < from || before
                == from && last < k,
        decreases from, k,
    {
        if k > 0 {
            self.lemma_position(target, from, (k - 1) as nat);
        } else if from > 0 {
            self.lemma_position(target, (from - 1) as nat, self.places.len());
        }
    }

    /// A best last pick comes first of those that end up with as many bytes.
    proof fn lemma_earliest(self, target: nat, from: nat, k: nat, before: nat, last: nat)
        requires
            before < from || before == from && last < k,
            k <= self.places.len(),
            last < self.places.len(),
            self.leads(before, last, target),
            self.settled(before) is Some,
        ensures
            self.best(target, from, k) matches Some((bytes, b, l)) && (bytes == self.cost(before)
                + self.bytes_of(last as int) ==> b < before || b == before && l <= last),
        decreases from, k,
    {
        self.lemma_considered(target, from, k, before, last);
        self.lemma_position(target, from, k);
        if k > 0 {
            if !(before == from && last == k - 1) {
                self.lemma_earliest(target, from, (k - 1) as nat, before, last);
                self.lemma_considered(target, from, (k - 1) as nat, before, last);
            }
        } else {
            self.lemma_earliest(target, (from - 1) as nat, self.places.len(), before, last);
        }
    }

    /// The first of the chosen picks has at least as many actions as any of other picks that
    /// take no more bytes, and it comes no later among the choices than any with as many.
    pub(crate) proof fn lemma_first_pick(self, target: nat, others: Seq<usize>, i: int, q: int)
        requires
            self.wf(),
            self.made_up_by(others, target as int),
            self.settled(target) is Some,
            picked_bytes(others, self.candidates) <= self.cost(target),
            0 <= i < others.len(),
            0 <= q < self.places.len(),
            self.places[q] == others[i],
            self.actions_of(q) > 0,
        ensures
            target > 0,
            self.chosen(target).len() > 0,
            ({
                let first = self.settled(target)->0;
                &&& first.2 < self.places.len()
                &&& self.chosen(target)[0] == self.places[first.2 as int]
                &&& self.actions_of(first.2 as int) >= self.actions_of(q)
                &&& self.actions_of(first.2 as int) == self.actions_of(q) ==> first.2 <= q
            }),
    {
        let left = others.take(i);
        let right = others.skip(i + 1);
        let rest = left + right;
        let one = seq![others[i]];
        assert(others =~= left + one + right);
        lemma_picked_concat(left + one, right, self.pool, self.candidates);
        lemma_picked_concat(left, one, self.pool, self.candidates);
        lemma_picked_concat(left, right, self.pool, self.candidates);
        assert(picked_actions(one, self.pool, self.candidates) == self.actions_of(q)
            && picked_bytes(one, self.candidates) == self.bytes_of(q)) by {
            reveal_with_fuel(picked_actions, 2);
            reveal_with_fuel(picked_bytes, 2);
        }
        self.lemma_picked_nonnegative(rest);
        let before = (target - self.actions_of(q)) as nat;
        assert forall|k: int| 0 <= k < rest.len() implies self.places.contains(
            #[trigger] rest[k],
        ) by {
            if k < i {
                assert(rest[k] == others[k]);
            } else {
                assert(rest[k] == others[k + 1]);
            }
        }
        assert(self.made_up_by(rest, before as int));
        self.lemma_optimal(rest, before);
        assert(self.leads(before, q as nat, target));
        self.lemma_best(target, target, 0);
        self.lemma_considered(target, target, 0, before, q as nat);
        self.lemma_earliest(target, target, 0, before, q as nat);
    }

    /// The chosen picks have the bytes of the best last pick.
    pub(crate) proof fn lemma_cost(self, target: nat)
        requires
            self.settled(target) is Some,
        ensures
            picked_bytes(self.chosen(target), self.candidates) == self.cost(target),
    {
        self.lemma_chosen(target);
    }

    /// The chosen picks are the first one and then those for the actions that it leaves.
    pub(crate) proof fn lemma_later_picks(self, target: nat)
        requires
            self.settled(target) is Some,
        ensures
            target == 0 ==> self.chosen(target).len() == 0,
            target > 0 ==> {
                let first = self.settled(target)->0;
                let actions = self.actions_of(first.2 as int);
                &&& first.2 < self.places.len()
                &&& 0 < actions <= target
                &&& self.settled((target - actions) as nat) is Some
                &&& self.chosen(target) == seq![self.places[first.2 as int]] + self.chosen(
                    (target - actions) as nat,
                )
            },
    {
        if target > 0 {
            self.lemma_best(target, target, 0);
        }
    }

    /// What the selection for `target` actions comes to.
    pub(crate) proof fn lemma_selection(self, target: nat)
        requires
            self.wf(),
        ensures
            match self.settled(target) {
                Some(_) => self.is_cheapest(self.chosen(target), target as int),
                None => forall|picks: Seq<usize>| !self.made_up_by(picks, target as int),
            },
    {
        if self.settled(target) is Some {
            self.lemma_chosen(target);
        }
        assert forall|picks: Seq<usize>| #[trigger]
            self.made_up_by(picks, target as int) implies self.settled(target) is Some
            && self.cost(target) <= picked_bytes(picks, self.candidates) by {
            self.lemma_optimal(picks, target);
        }
    }
}

/// Picks one after the other have the actions and the bytes of both.
pub(crate) proof fn lemma_picked_concat(
    a: Seq<usize>,
    b: Seq<usize>,
    pool: ShieldedPool,
    candidates: Seq<CandidateTx>,
)
    ensures
        picked_actions(a + b, pool, candidates) == picked_actions(a, pool, candidates)
            + picked_actions(b, pool, candidates),
        picked_bytes(a + b, candidates) == picked_bytes(a, candidates) + picked_bytes(
            b,
            candidates,
        ),
    decreases b.len(),
{
    if b.len() > 0 {
        assert((a + b).drop_last() =~= a + b.drop_last());
        lemma_picked_concat(a, b.drop_last(), pool, candidates);
    }
}

/// Whether a table entry for `actions` actions holds the best last pick.
spec fn holds_best(
    entry: Option<(usize, usize, usize)>,
    best: Option<(int, nat, nat)>,
    actions: int,
    places: Seq<usize>,
) -> bool {
    match best {
        None => entry is None,
        Some((bytes, before, last)) => {
            &&& entry matches Some((b, f, index))
            &&& b == bytes
            &&& actions > 0 ==> f == before && index == places[last as int]
        },
    }
}

/// Selects candidates of a pool that have exactly `target_actions` actions all together, with
/// as few bytes as can be. A candidate can be selected several times.
///
/// Nothing comes back where no selection has exactly that many actions.
pub fn select_pool_candidates(
    pool: ShieldedPool,
    target_actions: usize,
    matching_indices: &Vec<usize>,
    candidates: &Vec<CandidateTx>,
) -> (selected: Option<Vec<usize>>)
    requires
        target_actions < usize::MAX,
        (Choices { pool, places: matching_indices@, candidates: candidates@ }).wf(),
        (Choices { pool, places: matching_indices@, candidates: candidates@ }).fits(
            target_actions as int,
        ),
    ensures
        ({
            let choices = Choices { pool, places: matching_indices@, candidates: candidates@ };
            match selected {
                Some(picks) => {
                    &&& choices.settled(target_actions as nat) is Some
                    &&& picks@ == choices.chosen(target_actions as nat)
                    &&& choices.is_cheapest(picks@, target_actions as int)
                },
                None => {
                    &&& choices.settled(target_actions as nat) is None
                    &&& forall|picks: Seq<usize>|
                        !choices.made_up_by(picks, target_actions as int)
                },
            }
        }),
{
    let ghost choices = Choices { pool, places: matching_indices@, candidates: candidates@ };
    let ghost longest = choices.longest(choices.places.len() as int);
    proof {
        choices.lemma_selection(target_actions as nat);
    }
    let mut table: Vec<Option<(usize, usize, usize)>> = Vec::new();
    table.push(Some((0, 0, usize::MAX)));
    while table.len() <= target_actions
        invariant
            0 < table@.len() <= target_actions + 1,
            target_actions < usize::MAX,
            table@[0] == Some((0usize, 0usize, usize::MAX)),
            forall|n: int| 0 < n < table@.len() ==> (#[trigger] table@[n]) is None,
        decreases target_actions + 1 - table.len(),
    {
        table.push(None);
    }
    let mut from: usize = 0;
    loop
        invariant_except_break
            forall|n: int|
                0 <= n < table@.len() ==> holds_best(
                    #[trigger] table@[n],
                    choices.best(n as nat, from as nat, 0),
                    n,
                    choices.places,
                ),
        invariant
            choices == (Choices { pool, places: matching_indices@, candidates: candidates@ }),
            choices.wf(),
            choices.fits(target_actions as int),
            longest == choices.longest(choices.places.len() as int),
            from <= target_actions < usize::MAX,
            table@.len() == target_actions + 1,
        ensures
            from == target_actions,
            table@.len() == target_actions + 1,
            forall|n: int|
                0 <= n < table@.len() ==> holds_best(
                    #[trigger] table@[n],
                    choices.best(n as nat, (target_actions + 1) as nat, 0),
                    n,
                    choices.places,
                ),
        decreases target_actions - from,
    {
        proof {
            choices.lemma_bytes_bound(from as nat);
        }
        match table[from] {
            Some((selected_bytes, _, _)) => {
                let mut k: usize = 0;
                while k < matching_indices.len()
                    invariant
                        choices == (Choices {
                            pool,
                            places: matching_indices@,
                            candidates: candidates@,
                        }),
                        choices.wf(),
                        choices.fits(target_actions as int),
                        longest == choices.longest(choices.places.len() as int),
                        from <= target_actions < usize::MAX,
                        table@.len() == target_actions + 1,
                        k <= matching_indices@.len(),
                        choices.settled(from as nat) matches Some((b, _, _)) && b
                            == selected_bytes,
                        selected_bytes <= from * longest,
                        forall|n: int|
                            0 <= n < table@.len() ==> holds_best(
                                #[trigger] table@[n],
                                choices.best(n as nat, from as nat, k as nat),
                                n,
                                choices.places,
                            ),
                    decreases matching_indices.len() - k,
                {
                    let index = matching_indices[k];
                    let candidate = candidates[index];
                    let actions = candidate.counts.action_count(pool);
                    let next_actions = from.saturating_add(actions);
                    proof {
                        choices.lemma_longest(choices.places.len() as int, k as int);
                        choices.lemma_settled(from as nat, from as nat, k as nat);
                        assert(from * longest + longest <= (target_actions + 1) * longest)
                            by (nonlinear_arith)
                            requires
                                from <= target_actions,
                                0 <= longest,
                        ;
                    }
                    let next_bytes = selected_bytes + candidate.serialized_len;
                    if next_actions <= target_actions {
                        let improves = match table[next_actions] {
                            Some((best_bytes, _, _)) => next_bytes < best_bytes,
                            None => true,
                        };
                        if improves {
                            table[next_actions] = Some((next_bytes, from, index));
                        }
                    }
                    k += 1;
                }
            },
            None => {
                assert forall|n: int| 0 <= n < table@.len() implies holds_best(
                    #[trigger] table@[n],
                    choices.best(n as nat, from as nat, matching_indices@.len()),
                    n,
                    choices.places,
                ) by {
                    choices.lemma_dead_end(n as nat, from as nat, matching_indices@.len());
                }
            },
        }
        if from == target_actions {
            break;
        }
        from += 1;
    }
    assert forall|n: int| 0 <= n < table@.len() implies holds_best(
        #[trigger] table@[n],
        choices.settled(n as nat),
        n,
        choices.places,
    ) by {
        choices.lemma_settled(n as nat, (target_actions + 1) as nat, 0);
    }
    if table[target_actions].is_none() {
        return None;
    }
    let mut selected: Vec<usize> = Vec::new();
    let mut remaining: usize = target_actions;
    while remaining > 0
        invariant
            choices == (Choices { pool, places: matching_indices@, candidates: candidates@ }),
            table@.len() == target_actions + 1,
            remaining <= target_actions,
            choices.settled(remaining as nat) is Some,
            forall|n: int|
                0 <= n < table@.len() ==> holds_best(
                    #[trigger] table@[n],
                    choices.settled(n as nat),
                    n,
                    choices.places,
                ),
            selected@ + choices.chosen(remaining as nat) == choices.chosen(target_actions as nat),
        decreases remaining,
    {
        proof {
            choices.lemma_best(remaining as nat, remaining as nat, 0);
        }
        let (_, previous_actions, index) = table[remaining].unwrap();
        selected.push(index);
        remaining = previous_actions;
    }
    Some(selected)
}

/// The number of bytes that the selected candidates have, all together.
pub fn selected_tx_bytes(selected: &Vec<usize>, candidates: &Vec<CandidateTx>) -> (bytes: usize)
    requires
        forall|i: int| 0 <= i < selected@.len() ==> (#[trigger] selected@[i]) < candidates@.len(),
        picked_bytes(selected@, candidates@) <= usize::MAX,
    ensures
        bytes == picked_bytes(selected@, candidates@),
{
    let mut bytes: usize = 0;
    let mut i: usize = 0;
    while i < selected.len()
        invariant
            i <= selected@.len(),
            forall|k: int|
                0 <= k < selected@.len() ==> (#[trigger] selected@[k]) < candidates@.len(),
            picked_bytes(selected@, candidates@) <= usize::MAX,
            bytes == picked_bytes(selected@.take(i as int), candidates@),
        decreases selected.len() - i,
    {
        proof {
            lemma_picked_prefix(selected@, candidates@, i + 1);
            assert(selected@.take(i + 1).drop_last() =~= selected@.take(i as int));
        }
        bytes += candidates[selected[i]].serialized_len;
        i += 1;
    }
    assert(selected@.take(i as int) =~= selected@);
    bytes
}

/// The first picks have no more bytes than all of them.
proof fn lemma_picked_prefix(picks: Seq<usize>, candidates: Seq<CandidateTx>, upto: int)
    requires
        0 <= upto <= picks.len(),
    ensures
        picked_bytes(picks.take(upto), candidates) <= picked_bytes(picks, candidates),
    decreases picks.len(),
{
    if upto == picks.len() {
        assert(picks.take(upto) =~= picks);
    } else {
        lemma_picked_prefix(picks.drop_last(), candidates, upto);
        assert(picks.drop_last().take(upto) =~= picks.take(upto));
    }
}

}
