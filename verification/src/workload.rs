//! Benchmark workloads: candidate transactions, shielded action counts and action mixes.

use crate::text::{decimal, push_decimal};
use vstd::prelude::*;

verus! {

/// The number of shielded pools.
pub const SHIELDED_POOL_COUNT: usize = 3;

/// The serialized size of a Mainnet block header.
pub const MAINNET_BLOCK_HEADER_BYTES: usize = 1_487;

/// The largest serialized size of a block.
pub const MAX_BLOCK_BYTES: usize = 2_000_000;

/// Whether transactions that spend transparent outputs can be candidates, though the outputs
/// that they spend are not known.
pub const ALLOW_TRANSPARENT_PREVOUTS_WITHOUT_UTXOS: bool = false;

/// A shielded pool.
#[derive(Clone, Copy, Debug, PartialEq, Eq, Structural)]
pub enum ShieldedPool {
    Sapling,
    Orchard,
    Sprout,
}

/// The place of a pool in counts and mixes.
pub open spec fn pool_index(pool: ShieldedPool) -> int {
    match pool {
        ShieldedPool::Sapling => 0,
        ShieldedPool::Orchard => 1,
        ShieldedPool::Sprout => 2,
    }
}

/// The pool at a place in counts and mixes.
pub open spec fn pool_at(i: int) -> ShieldedPool {
    if i == 0 {
        ShieldedPool::Sapling
    } else if i == 1 {
        ShieldedPool::Orchard
    } else {
        ShieldedPool::Sprout
    }
}

impl ShieldedPool {
    /// The place of this pool in counts and mixes.
    pub fn index(self) -> (i: usize)
        ensures
            i == pool_index(self),
            i < SHIELDED_POOL_COUNT,
    {
        match self {
            ShieldedPool::Sapling => 0,
            ShieldedPool::Orchard => 1,
            ShieldedPool::Sprout => 2,
        }
    }

    /// The pool at a place in counts and mixes.
    pub fn at(i: usize) -> (pool: ShieldedPool)
        requires
            i < SHIELDED_POOL_COUNT,
        ensures
            pool == pool_at(i as int),
            pool_index(pool) == i,
    {
        if i == 0 {
            ShieldedPool::Sapling
        } else if i == 1 {
            ShieldedPool::Orchard
        } else {
            ShieldedPool::Sprout
        }
    }

    /// The name of this pool.
    pub fn name(self) -> (text: &'static str)
        ensures
            text@ == pool_name(self),
    {
        match self {
            ShieldedPool::Sapling => "sapling",
            ShieldedPool::Orchard => "orchard",
            ShieldedPool::Sprout => "sprout",
        }
    }
}

/// The name of a pool.
pub open spec fn pool_name(pool: ShieldedPool) -> Seq<char> {
    match pool {
        ShieldedPool::Sapling => "sapling"@,
        ShieldedPool::Orchard => "orchard"@,
        ShieldedPool::Sprout => "sprout"@,
    }
}

/// The parts of a transaction, or of several, that verifiers work on.
#[derive(Clone, Copy, Debug, PartialEq, Eq, Structural)]
pub struct ActionCounts {
    /// Inputs that spend transparent outputs.
    pub transparent_inputs: usize,
    /// Sapling spends.
    pub sapling_spends: usize,
    /// Sapling outputs.
    pub sapling_outputs: usize,
    /// Orchard actions.
    pub orchard_actions: usize,
    /// Sprout JoinSplits.
    pub sprout_joinsplits: usize,
}

/// The number of actions in each shielded pool.
#[derive(Clone, Copy, Debug, PartialEq, Eq)]
pub struct ShieldedActionCounts {
    /// The counts, in the order of the pools.
    pub counts: [usize; 3],
}

/// The checks that verifiers run.
#[derive(Clone, Copy, Debug, PartialEq, Eq, Structural)]
pub struct VerifierCheckCounts {
    /// Sapling bundles.
    pub sapling_bundles: usize,
    /// Orchard bundles.
    pub orchard_bundles: usize,
    /// Sprout JoinSplit proofs.
    pub sprout_joinsplit_proofs: usize,
    /// Sprout JoinSplit signatures.
    pub sprout_signatures: usize,
}

/// No actions.
pub open spec fn no_actions() -> ActionCounts {
    ActionCounts {
        transparent_inputs: 0,
        sapling_spends: 0,
        sapling_outputs: 0,
        orchard_actions: 0,
        sprout_joinsplits: 0,
    }
}

/// No checks.
pub open spec fn no_checks() -> VerifierCheckCounts {
    VerifierCheckCounts {
        sapling_bundles: 0,
        orchard_bundles: 0,
        sprout_joinsplit_proofs: 0,
        sprout_signatures: 0,
    }
}

impl Default for ActionCounts {
    fn default() -> (counts: Self)
        ensures
            counts == no_actions(),
    {
        ActionCounts {
            transparent_inputs: 0,
            sapling_spends: 0,
            sapling_outputs: 0,
            orchard_actions: 0,
            sprout_joinsplits: 0,
        }
    }
}

impl Default for VerifierCheckCounts {
    fn default() -> (counts: Self)
        ensures
            counts == no_checks(),
    {
        VerifierCheckCounts {
            sapling_bundles: 0,
            orchard_bundles: 0,
            sprout_joinsplit_proofs: 0,
            sprout_signatures: 0,
        }
    }
}

/// One if there are any, and none otherwise.
pub open spec fn one_if_any(count: int) -> int {
    if count > 0 {
        1
    } else {
        0
    }
}

impl ActionCounts {
    /// The number of actions in a pool.
    pub open spec fn actions(self, pool: ShieldedPool) -> int {
        match pool {
            ShieldedPool::Sapling => self.sapling_spends + self.sapling_outputs,
            ShieldedPool::Orchard => self.orchard_actions as int,
            ShieldedPool::Sprout => self.sprout_joinsplits as int,
        }
    }

    /// Whether the actions of each pool can be counted.
    pub open spec fn countable(self) -> bool {
        self.sapling_spends + self.sapling_outputs <= usize::MAX
    }

    /// Whether this is the sum of two counts.
    pub open spec fn is_sum(self, a: ActionCounts, b: ActionCounts) -> bool {
        &&& self.transparent_inputs == a.transparent_inputs + b.transparent_inputs
        &&& self.sapling_spends == a.sapling_spends + b.sapling_spends
        &&& self.sapling_outputs == a.sapling_outputs + b.sapling_outputs
        &&& self.orchard_actions == a.orchard_actions + b.orchard_actions
        &&& self.sprout_joinsplits == a.sprout_joinsplits + b.sprout_joinsplits
    }

    /// The number of actions in a pool.
    pub fn action_count(&self, pool: ShieldedPool) -> (count: usize)
        requires
            self.countable(),
        ensures
            count == self.actions(pool),
    {
        match pool {
            ShieldedPool::Sapling => self.sapling_spends + self.sapling_outputs,
            ShieldedPool::Orchard => self.orchard_actions,
            ShieldedPool::Sprout => self.sprout_joinsplits,
        }
    }

    /// The number of actions in each pool.
    pub fn shielded_pool_actions(&self) -> (counts: ShieldedActionCounts)
        requires
            self.countable(),
        ensures
            forall|pool: ShieldedPool|
                counts.actions(pool) == #[trigger] self.actions(pool),
            counts.counts@ == seq![
                (self.sapling_spends + self.sapling_outputs) as usize,
                self.orchard_actions,
                self.sprout_joinsplits,
            ],
    {
        ShieldedActionCounts {
            counts: [
                self.action_count(ShieldedPool::Sapling),
                self.action_count(ShieldedPool::Orchard),
                self.action_count(ShieldedPool::Sprout),
            ],
        }
    }

    /// The checks that a transaction with these actions takes: one for each of its Sapling
    /// and Orchard bundles, one for each JoinSplit proof, and one for the signature over its
    /// JoinSplits.
    pub fn verifier_check_counts(&self) -> (checks: VerifierCheckCounts)
        requires
            self.countable(),
        ensures
            checks.sapling_bundles == one_if_any(self.actions(ShieldedPool::Sapling)),
            checks.orchard_bundles == one_if_any(self.actions(ShieldedPool::Orchard)),
            checks.sprout_joinsplit_proofs == self.actions(ShieldedPool::Sprout),
            checks.sprout_signatures == one_if_any(self.actions(ShieldedPool::Sprout)),
    {
        VerifierCheckCounts {
            sapling_bundles: if self.sapling_spends + self.sapling_outputs > 0 {
                1
            } else {
                0
            },
            orchard_bundles: if self.orchard_actions > 0 {
                1
            } else {
                0
            },
            sprout_joinsplit_proofs: self.sprout_joinsplits,
            sprout_signatures: if self.sprout_joinsplits > 0 {
                1
            } else {
                0
            },
        }
    }

    /// Adds other counts to these.
    pub fn add_counts(&mut self, other: &ActionCounts)
        requires
            old(self).transparent_inputs + other.transparent_inputs <= usize::MAX,
            old(self).sapling_spends + other.sapling_spends <= usize::MAX,
            old(self).sapling_outputs + other.sapling_outputs <= usize::MAX,
            old(self).orchard_actions + other.orchard_actions <= usize::MAX,
            old(self).sprout_joinsplits + other.sprout_joinsplits <= usize::MAX,
        ensures
            final(self).is_sum(*old(self), *other),
    {
        self.transparent_inputs += other.transparent_inputs;
        self.sapling_spends += other.sapling_spends;
        self.sapling_outputs += other.sapling_outputs;
        self.orchard_actions += other.orchard_actions;
        self.sprout_joinsplits += other.sprout_joinsplits;
    }
}

impl VerifierCheckCounts {
    /// Whether this is the sum of two counts.
    pub open spec fn is_sum(self, a: VerifierCheckCounts, b: VerifierCheckCounts) -> bool {
        &&& self.sapling_bundles == a.sapling_bundles + b.sapling_bundles
        &&& self.orchard_bundles == a.orchard_bundles + b.orchard_bundles
        &&& self.sprout_joinsplit_proofs == a.sprout_joinsplit_proofs + b.sprout_joinsplit_proofs
        &&& self.sprout_signatures == a.sprout_signatures + b.sprout_signatures
    }

    /// Adds other counts to these.
    pub fn add_counts(&mut self, other: &VerifierCheckCounts)
        requires
            old(self).sapling_bundles + other.sapling_bundles <= usize::MAX,
            old(self).orchard_bundles + other.orchard_bundles <= usize::MAX,
            old(self).sprout_joinsplit_proofs + other.sprout_joinsplit_proofs <= usize::MAX,
            old(self).sprout_signatures + other.sprout_signatures <= usize::MAX,
        ensures
            final(self).is_sum(*old(self), *other),
    {
        self.sapling_bundles += other.sapling_bundles;
        self.orchard_bundles += other.orchard_bundles;
        self.sprout_joinsplit_proofs += other.sprout_joinsplit_proofs;
        self.sprout_signatures += other.sprout_signatures;
    }
}

impl ShieldedActionCounts {
    /// The number of actions in a pool.
    pub open spec fn actions(self, pool: ShieldedPool) -> int {
        self.counts@[pool_index(pool)] as int
    }

    /// The number of actions in all pools.
    pub open spec fn sum(self) -> int {
        self.counts@[0] + self.counts@[1] + self.counts@[2]
    }

    /// The number of actions in all pools.
    pub fn total(&self) -> (total: usize)
        requires
            self.sum() <= usize::MAX,
        ensures
            total == self.sum(),
    {
        self.counts[0] + self.counts[1] + self.counts[2]
    }

    /// The number of actions in a pool.
    pub fn action_count(&self, pool: ShieldedPool) -> (count: usize)
        ensures
            count == self.actions(pool),
    {
        self.counts[pool.index()]
    }
}

/// A transaction that a workload can repeat.
#[derive(Clone, Copy, Debug, PartialEq, Eq, Structural)]
pub struct CandidateTx {
    /// The serialized size of the transaction.
    pub serialized_len: usize,
    /// Its actions.
    pub counts: ActionCounts,
}

/// What decides between candidates of a pool: more actions first, then more bytes, then more
/// Sapling spends, then more Sapling outputs.
pub open spec fn score(candidate: CandidateTx, pool: ShieldedPool) -> (int, int, int, int) {
    (
        candidate.counts.actions(pool),
        candidate.serialized_len as int,
        candidate.counts.sapling_spends as int,
        candidate.counts.sapling_outputs as int,
    )
}

/// Whether the score `a` is below the score `b`: the first difference decides.
pub open spec fn score_below(a: (int, int, int, int), b: (int, int, int, int)) -> bool {
    ||| a.0 < b.0
    ||| a.0 == b.0 && a.1 < b.1
    ||| a.0 == b.0 && a.1 == b.1 && a.2 < b.2
    ||| a.0 == b.0 && a.1 == b.1 && a.2 == b.2 && a.3 < b.3
}

impl CandidateTx {
    /// Whether the transaction has actions in a pool and in no other.
    pub open spec fn is_only_in(self, pool: ShieldedPool) -> bool {
        &&& self.counts.actions(pool) > 0
        &&& forall|other: ShieldedPool|
            other != pool ==> #[trigger] self.counts.actions(other) == 0
    }

    /// Whether the transaction has actions in `pool` and in no other pool.
    pub fn has_only_pool_actions(&self, pool: ShieldedPool) -> (only: bool)
        requires
            self.counts.countable(),
        ensures
            only == self.is_only_in(pool),
    {
        if self.counts.action_count(pool) == 0 {
            return false;
        }
        let sapling = self.counts.action_count(ShieldedPool::Sapling);
        let orchard = self.counts.action_count(ShieldedPool::Orchard);
        let sprout = self.counts.action_count(ShieldedPool::Sprout);
        (pool == ShieldedPool::Sapling || sapling == 0) && (pool == ShieldedPool::Orchard || orchard
            == 0) && (pool == ShieldedPool::Sprout || sprout == 0)
    }

    /// The score of the transaction in a pool.
    pub fn pool_score(&self, pool: ShieldedPool) -> (points: (usize, usize, usize, usize))
        requires
            self.counts.countable(),
        ensures
            (points.0 as int, points.1 as int, points.2 as int, points.3 as int) == score(
                *self,
                pool,
            ),
    {
        (
            self.counts.action_count(pool),
            self.serialized_len,
            self.counts.sapling_spends,
            self.counts.sapling_outputs,
        )
    }
}

/// Whether a transaction of a block can be a candidate, or why it is skipped.
#[derive(Clone, Copy, Debug, PartialEq, Eq, Structural)]
pub enum CandidateCheck {
    /// It can be a candidate.
    Keep,
    /// It is a coinbase transaction.
    Coinbase,
    /// Its version is below 4.
    UnsupportedVersion,
    /// It spends transparent outputs.
    TransparentPrevouts,
}

/// How many transactions were skipped, by reason.
#[derive(Clone, Copy, Debug, PartialEq, Eq, Structural)]
pub struct CandidateLoadStats {
    /// Coinbase transactions.
    pub skipped_coinbase: usize,
    /// Transactions with a version below 4.
    pub skipped_unsupported_version: usize,
    /// Transactions that spend transparent outputs.
    pub skipped_transparent_prevouts: usize,
}

/// Whether a transaction can be a candidate: the first reason to skip it decides.
pub open spec fn candidate_check(coinbase: bool, version: u32, counts: ActionCounts) -> CandidateCheck {
    if coinbase {
        CandidateCheck::Coinbase
    } else if version < 4 {
        CandidateCheck::UnsupportedVersion
    } else if !ALLOW_TRANSPARENT_PREVOUTS_WITHOUT_UTXOS && counts.transparent_inputs > 0 {
        CandidateCheck::TransparentPrevouts
    } else {
        CandidateCheck::Keep
    }
}

impl Default for CandidateLoadStats {
    fn default() -> (stats: Self)
        ensures
            stats.skipped_coinbase == 0,
            stats.skipped_unsupported_version == 0,
            stats.skipped_transparent_prevouts == 0,
    {
        CandidateLoadStats {
            skipped_coinbase: 0,
            skipped_unsupported_version: 0,
            skipped_transparent_prevouts: 0,
        }
    }
}

impl CandidateLoadStats {
    /// The number of transactions that were skipped.
    pub open spec fn skipped(self) -> int {
        self.skipped_coinbase + self.skipped_unsupported_version + self.skipped_transparent_prevouts
    }

    /// Decides whether a transaction can be a candidate, and counts it if it is skipped.
    pub fn check(&mut self, coinbase: bool, version: u32, counts: &ActionCounts) -> (check:
        CandidateCheck)
        requires
            old(self).skipped() < usize::MAX,
        ensures
            check == candidate_check(coinbase, version, *counts),
            final(self).skipped_coinbase == old(self).skipped_coinbase + if check is Coinbase {
                1int
            } else {
                0
            },
            final(self).skipped_unsupported_version == old(self).skipped_unsupported_version
                + if check is UnsupportedVersion {
                1int
            } else {
                0
            },
            final(self).skipped_transparent_prevouts == old(self).skipped_transparent_prevouts
                + if check is TransparentPrevouts {
                1int
            } else {
                0
            },
    {
        if coinbase {
            self.skipped_coinbase += 1;
            return CandidateCheck::Coinbase;
        }
        if version < 4 {
            self.skipped_unsupported_version += 1;
            return CandidateCheck::UnsupportedVersion;
        }
        if !ALLOW_TRANSPARENT_PREVOUTS_WITHOUT_UTXOS && counts.transparent_inputs > 0 {
            self.skipped_transparent_prevouts += 1;
            return CandidateCheck::TransparentPrevouts;
        }
        CandidateCheck::Keep
    }
}

/// The number of bytes that encode the number of transactions in a block.
pub open spec fn compact_len(count: int) -> int {
    if count <= 252 {
        1
    } else if count <= 0xffff {
        3
    } else if count <= 0xffff_ffff {
        5
    } else {
        9
    }
}

/// The number of bytes that encode the number of transactions in a block.
pub fn compact_size_len(count: usize) -> (len: usize)
    ensures
        len == compact_len(count as int),
{
    if count <= 252 {
        1
    } else if count <= 0xffff {
        3
    } else if count <= 0xffff_ffff {
        5
    } else {
        9
    }
}

/// The serialized size of a block with `tx_count` transactions of `tx_bytes` bytes in all.
pub open spec fn block_bytes(tx_bytes: int, tx_count: int) -> int {
    MAINNET_BLOCK_HEADER_BYTES + compact_len(tx_count) + tx_bytes
}

/// The serialized size of a block with `tx_count` transactions of `tx_bytes` bytes in all.
pub fn modeled_block_bytes(tx_bytes: usize, tx_count: usize) -> (bytes: usize)
    requires
        block_bytes(tx_bytes as int, tx_count as int) <= usize::MAX,
    ensures
        bytes == block_bytes(tx_bytes as int, tx_count as int),
{
    MAINNET_BLOCK_HEADER_BYTES + compact_size_len(tx_count) + tx_bytes
}

/// The part of the shielded actions of a workload that each pool gets, in percent.
#[derive(Clone, Copy, Debug, PartialEq, Eq)]
pub struct ShieldedActionMix {
    /// The percentages, in the order of the pools.
    pub percents: [u8; 3],
}

/// The actions that a pool gets of `total` before rounding up: whole ones.
pub open spec fn whole_actions(total: int, percent: int) -> int {
    total * percent / 100
}

/// What the whole actions of a pool leave out, in hundredths of an action.
pub open spec fn left_out(total: int, percent: int) -> int {
    total * percent % 100
}

/// Whether pool `a` comes before pool `b` when an action is left: more was left out of it, or
/// the same and its percentage is higher.
pub open spec fn comes_before(lefts: Seq<int>, percents: Seq<u8>, a: int, b: int) -> bool {
    lefts[a] > lefts[b] || lefts[a] == lefts[b] && percents[a] > percents[b]
}

/// The pool that gets the next action that is left: the last of those that no other comes
/// before.
pub open spec fn next_up(lefts: Seq<int>, percents: Seq<u8>) -> int {
    let first = if comes_before(lefts, percents, 0, 1) {
        0int
    } else {
        1int
    };
    if comes_before(lefts, percents, first, 2) {
        first
    } else {
        2
    }
}

/// The actions of the pools after `rounds` actions that were left have been given out, one by
/// one. Nothing is left out of a pool once it got one.
pub open spec fn given_out(
    counts: Seq<int>,
    lefts: Seq<int>,
    percents: Seq<u8>,
    rounds: int,
) -> Seq<int>
    decreases rounds,
{
    if rounds <= 0 {
        counts
    } else {
        let i = next_up(lefts, percents);
        given_out(counts.update(i, counts[i] + 1), lefts.update(i, 0), percents, rounds - 1)
    }
}

impl ShieldedActionMix {
    /// The sum of the percentages.
    pub open spec fn sum(self) -> int {
        self.percents@[0] + self.percents@[1] + self.percents@[2]
    }

    /// The whole actions that each pool gets of `total`.
    pub open spec fn wholes(self, total: int) -> Seq<int> {
        Seq::new(3, |i: int| whole_actions(total, self.percents@[i] as int))
    }

    /// What the whole actions leave out of each pool.
    pub open spec fn lefts(self, total: int) -> Seq<int> {
        Seq::new(3, |i: int| left_out(total, self.percents@[i] as int))
    }

    /// The actions that the whole ones leave to be given out.
    pub open spec fn unassigned(self, total: int) -> int {
        total - self.wholes(total)[0] - self.wholes(total)[1] - self.wholes(total)[2]
    }

    /// The actions that each pool gets of `total`: its whole ones, and those that are left go
    /// to the pools that most was left out of.
    pub open spec fn targets(self, total: int) -> Seq<int> {
        given_out(self.wholes(total), self.lefts(total), self.percents@, self.unassigned(total))
    }

    /// The mix with these percentages.
    pub fn new(sapling_percent: u8, orchard_percent: u8, sprout_percent: u8) -> (mix: Self)
        ensures
            mix.percents@ == seq![sapling_percent, orchard_percent, sprout_percent],
    {
        let mix = ShieldedActionMix { percents: [sapling_percent, orchard_percent, sprout_percent] };
        mix
    }

    /// The sum of the percentages.
    pub fn total_percent(&self) -> (total: u16)
        ensures
            total == self.sum(),
    {
        self.percents[0] as u16 + self.percents[1] as u16 + self.percents[2] as u16
    }

    /// The percentage of a pool.
    pub fn percent(&self, pool: ShieldedPool) -> (percent: u8)
        ensures
            percent == self.percents@[pool_index(pool)],
    {
        self.percents[pool.index()]
    }

    /// The number of actions that each pool gets of `total_actions`.
    pub fn target_counts(&self, total_actions: usize) -> (targets: ShieldedActionCounts)
        requires
            forall|i: int|
                0 <= i < 3 ==> total_actions * (#[trigger] self.percents@[i]) <= usize::MAX,
        ensures
            forall|i: int|
                0 <= i < 3 ==> #[trigger] targets.counts@[i] == self.targets(
                    total_actions as int,
                )[i],
    {
        let ghost total = total_actions as int;
        let products: [usize; 3] = [
            total_actions * self.percents[0] as usize,
            total_actions * self.percents[1] as usize,
            total_actions * self.percents[2] as usize,
        ];
        let mut targets: [usize; 3] = [products[0] / 100, products[1] / 100, products[2] / 100];
        let mut remainders: [usize; 3] = [products[0] % 100, products[1] % 100, products[2] % 100];
        let mut assigned: usize = targets[0] + targets[1] + targets[2];
        assert(as_ints(targets@) =~= self.wholes(total));
        assert(as_ints(remainders@) =~= self.lefts(total));
        while assigned < total_actions
            invariant
                total == total_actions,
                assigned == targets@[0] + targets@[1] + targets@[2],
                given_out(
                    as_ints(targets@),
                    as_ints(remainders@),
                    self.percents@,
                    total - assigned,
                ) == self.targets(total),
            decreases total_actions - assigned,
        {
            let index = self.next_pool(&remainders);
            let ghost counts = as_ints(targets@);
            let ghost lefts = as_ints(remainders@);
            targets[index] = targets[index] + 1;
            remainders[index] = 0;
            assert(as_ints(targets@) =~= counts.update(index as int, counts[index as int] + 1));
            assert(as_ints(remainders@) =~= lefts.update(index as int, 0));
            assigned += 1;
        }
        ShieldedActionCounts { counts: targets }
    }

    /// The pool that gets the next action that is left.
    fn next_pool(&self, remainders: &[usize; 3]) -> (index: usize)
        ensures
            index == next_up(as_ints(remainders@), self.percents@),
            index < 3,
    {
        let mut index: usize = 1;
        if remainders[0] > remainders[1] || (remainders[0] == remainders[1] && self.percents[0]
            > self.percents[1]) {
            index = 0;
        }
        if !(remainders[index] > remainders[2] || (remainders[index] == remainders[2]
            && self.percents[index] > self.percents[2])) {
            index = 2;
        }
        index
    }
}

/// The numbers, without their bounds.
pub open spec fn as_ints(numbers: Seq<usize>) -> Seq<int> {
    Seq::new(numbers.len(), |i: int| numbers[i] as int)
}

/// The fields `name=value` of the pools, in order, with a space between them.
pub open spec fn pool_fields(values: Seq<int>) -> Seq<char> {
    "sapling"@ + "="@ + decimal(values[0] as nat) + " "@ + "orchard"@ + "="@ + decimal(
        values[1] as nat,
    ) + " "@ + "sprout"@ + "="@ + decimal(values[2] as nat)
}

/// Renders the fields of the pools.
fn render_pool_fields(sapling: u64, orchard: u64, sprout: u64) -> (text: String)
    ensures
        text@ == pool_fields(seq![sapling as int, orchard as int, sprout as int]),
{
    let mut text = ShieldedPool::Sapling.name().to_owned();
    text.append("=");
    push_decimal(&mut text, sapling);
    text.append(" ");
    text.append(ShieldedPool::Orchard.name());
    text.append("=");
    push_decimal(&mut text, orchard);
    text.append(" ");
    text.append(ShieldedPool::Sprout.name());
    text.append("=");
    push_decimal(&mut text, sprout);
    text
}

/// The action counts of the pools, as text.
pub fn pool_action_fields(counts: &ShieldedActionCounts) -> (text: String)
    ensures
        text@ == pool_fields(as_ints(counts.counts@)),
{
    render_pool_fields(counts.counts[0] as u64, counts.counts[1] as u64, counts.counts[2] as u64)
}

/// The percentages of the pools, as text.
pub fn pool_mix_fields(mix: &ShieldedActionMix) -> (text: String)
    ensures
        text@ == pool_fields(Seq::new(3, |i: int| mix.percents@[i] as int)),
{
    render_pool_fields(mix.percents[0] as u64, mix.percents[1] as u64, mix.percents[2] as u64)
}

}
