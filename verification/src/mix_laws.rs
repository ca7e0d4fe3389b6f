//! What holds of the action counts that a mix gives.

use crate::workload::{given_out, next_up, ShieldedActionMix};
use vstd::prelude::*;

verus! {

/// The sum of three numbers.
pub open spec fn sum3(numbers: Seq<int>) -> int {
    numbers[0] + numbers[1] + numbers[2]
}

/// Each action that is given out goes to one pool.
proof fn lemma_given_out(counts: Seq<int>, lefts: Seq<int>, percents: Seq<u8>, rounds: int)
    requires
        counts.len() == 3,
        lefts.len() == 3,
    ensures
        given_out(counts, lefts, percents, rounds).len() == 3,
        sum3(given_out(counts, lefts, percents, rounds)) == sum3(counts) + if rounds > 0 {
            rounds
        } else {
            0
        },
        forall|i: int|
            0 <= i < 3 ==> counts[i] <= #[trigger] given_out(counts, lefts, percents, rounds)[i],
    decreases rounds,
{
    if rounds > 0 {
        let i = next_up(lefts, percents);
        lemma_given_out(
            counts.update(i, counts[i] + 1),
            lefts.update(i, 0),
            percents,
            rounds - 1,
        );
    }
}

/// The pools together get all of the actions, where their percentages make up no more than
/// the whole.
pub proof fn law_targets_add_up(mix: ShieldedActionMix, total: int)
    requires
        0 <= total,
        mix.sum() <= 100,
    ensures
        mix.targets(total).len() == 3,
        sum3(mix.targets(total)) == total,
        forall|i: int| 0 <= i < 3 ==> 0 <= #[trigger] mix.targets(total)[i] <= total,
{
    let p0 = mix.percents@[0] as int;
    let p1 = mix.percents@[1] as int;
    let p2 = mix.percents@[2] as int;
    assert(total * p0 + total * p1 + total * p2 <= 100 * total) by (nonlinear_arith)
        requires
            0 <= total,
            p0 + p1 + p2 <= 100,
    ;
    lemma_given_out(mix.wholes(total), mix.lefts(total), mix.percents@, mix.unassigned(total));
}

/// Where the percentages make up the whole, each pool gets its percentage of the actions to
/// within less than one action, and exactly where that is a whole number.
pub proof fn law_targets_keep_the_mix(mix: ShieldedActionMix, total: int, i: int)
    requires
        0 <= total,
        mix.sum() == 100,
        0 <= i < 3,
    ensures
        -100 < 100 * mix.targets(total)[i] - total * mix.percents@[i] < 100,
        total * mix.percents@[i] % 100 == 0 ==> 100 * mix.targets(total)[i] == total
            * mix.percents@[i],
{
    let p0 = mix.percents@[0] as int;
    let p1 = mix.percents@[1] as int;
    let p2 = mix.percents@[2] as int;
    assert(total * p0 + total * p1 + total * p2 == 100 * total) by (nonlinear_arith)
        requires
            p0 + p1 + p2 == 100,
    ;
    reveal_with_fuel(given_out, 3);
}

}
