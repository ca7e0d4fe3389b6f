//! Tests for benchmark workloads.

use zebra_devkit::block_workload::{
    benchmark_cases, build_workload, do_workloads_fit, max_total_actions, select_best_block_workload,
    validate_benchmark_cases, CaseFault,
};
use zebra_devkit::pool_selection::{matching_candidates, select_candidates_for_counts};
use zebra_devkit::selection::{select_pool_candidates, selected_tx_bytes};
use zebra_devkit::workload::{
    compact_size_len, modeled_block_bytes, pool_action_fields, pool_mix_fields, ActionCounts,
    CandidateCheck, CandidateLoadStats, CandidateTx, ShieldedActionCounts, ShieldedActionMix,
    ShieldedPool, VerifierCheckCounts, MAX_BLOCK_BYTES,
};

fn sapling(len: usize, spends: usize, outputs: usize) -> CandidateTx {
    CandidateTx {
        serialized_len: len,
        counts: ActionCounts {
            sapling_spends: spends,
            sapling_outputs: outputs,
            ..Default::default()
        },
    }
}

fn orchard(len: usize, actions: usize) -> CandidateTx {
    CandidateTx {
        serialized_len: len,
        counts: ActionCounts { orchard_actions: actions, ..Default::default() },
    }
}

fn sprout(len: usize, joinsplits: usize) -> CandidateTx {
    CandidateTx {
        serialized_len: len,
        counts: ActionCounts { sprout_joinsplits: joinsplits, ..Default::default() },
    }
}

fn targets(mix: (u8, u8, u8), total: usize) -> [usize; 3] {
    ShieldedActionMix::new(mix.0, mix.1, mix.2).target_counts(total).counts
}

#[test]
fn targets_follow_the_mix() {
    assert_eq!(targets((50, 50, 0), 10), [5, 5, 0]);
    assert_eq!(targets((100, 0, 0), 7), [7, 0, 0]);
    // The pool with the largest part left out gets what is left.
    assert_eq!(targets((34, 33, 33), 1), [1, 0, 0]);
    assert_eq!(targets((33, 33, 34), 2), [0, 1, 1]);
    assert_eq!(targets((70, 20, 10), 3), [2, 1, 0]);
    // Of two pools with the same part left out and the same percentage, the later one does.
    assert_eq!(targets((50, 50, 0), 1), [0, 1, 0]);
    // The higher percentage wins where the same part was left out.
    assert_eq!(targets((75, 25, 0), 2), [2, 0, 0]);
    assert_eq!(targets((20, 30, 50), 0), [0, 0, 0]);
    for total in 0..200 {
        let counts = targets((37, 41, 22), total);
        assert_eq!(counts.iter().sum::<usize>(), total);
        for (count, percent) in counts.iter().zip([37, 41, 22]) {
            assert!((100 * count).abs_diff(total * percent) < 100);
        }
    }
}

#[test]
fn percentages_add_up() {
    let mix = ShieldedActionMix::new(255, 255, 255);
    assert_eq!(mix.total_percent(), 765);
    assert_eq!(ShieldedActionMix::new(1, 2, 3).percent(ShieldedPool::Sprout), 3);
}

#[test]
fn fields_are_rendered() {
    let counts = ShieldedActionCounts { counts: [10, 0, 7] };
    assert_eq!(pool_action_fields(&counts), "sapling=10 orchard=0 sprout=7");
    assert_eq!(counts.total(), 17);
    assert_eq!(counts.action_count(ShieldedPool::Sprout), 7);
    let mix = ShieldedActionMix::new(50, 45, 5);
    assert_eq!(pool_mix_fields(&mix), "sapling=50 orchard=45 sprout=5");
}

#[test]
fn counts_and_checks() {
    let mut counts = ActionCounts {
        transparent_inputs: 1,
        sapling_spends: 2,
        sapling_outputs: 3,
        orchard_actions: 0,
        sprout_joinsplits: 4,
    };
    assert_eq!(counts.shielded_pool_actions().counts, [5, 0, 4]);
    let mut checks = counts.verifier_check_counts();
    assert_eq!(
        checks,
        VerifierCheckCounts {
            sapling_bundles: 1,
            orchard_bundles: 0,
            sprout_joinsplit_proofs: 4,
            sprout_signatures: 1,
        }
    );
    let more = counts;
    counts.add_counts(&more);
    assert_eq!(counts.sapling_outputs, 6);
    assert_eq!(counts.transparent_inputs, 2);
    let other = checks;
    checks.add_counts(&other);
    assert_eq!(checks.sprout_joinsplit_proofs, 8);
    assert_eq!(ActionCounts::default().verifier_check_counts(), VerifierCheckCounts::default());
}

#[test]
fn candidates_are_checked() {
    let mut stats = CandidateLoadStats::default();
    let shielded = orchard(100, 1).counts;
    let transparent = ActionCounts { transparent_inputs: 1, ..shielded };
    assert_eq!(stats.check(true, 3, &transparent), CandidateCheck::Coinbase);
    assert_eq!(stats.check(false, 3, &transparent), CandidateCheck::UnsupportedVersion);
    assert_eq!(stats.check(false, 4, &transparent), CandidateCheck::TransparentPrevouts);
    assert_eq!(stats.check(false, 4, &shielded), CandidateCheck::Keep);
    assert_eq!(stats.check(false, 5, &transparent), CandidateCheck::TransparentPrevouts);
    assert_eq!(
        stats,
        CandidateLoadStats {
            skipped_coinbase: 1,
            skipped_unsupported_version: 1,
            skipped_transparent_prevouts: 2,
        }
    );
}

#[test]
fn only_one_pool() {
    let mixed = CandidateTx {
        serialized_len: 10,
        counts: ActionCounts { sapling_spends: 1, orchard_actions: 1, ..Default::default() },
    };
    assert!(!mixed.has_only_pool_actions(ShieldedPool::Sapling));
    assert!(!mixed.has_only_pool_actions(ShieldedPool::Orchard));
    assert!(sapling(10, 1, 0).has_only_pool_actions(ShieldedPool::Sapling));
    assert!(!sapling(10, 1, 0).has_only_pool_actions(ShieldedPool::Sprout));
    assert!(!sapling(10, 0, 0).has_only_pool_actions(ShieldedPool::Sapling));
    assert_eq!(sapling(10, 2, 3).pool_score(ShieldedPool::Sapling), (5, 10, 2, 3));
    assert_eq!(orchard(10, 2).pool_score(ShieldedPool::Orchard), (2, 10, 0, 0));
}

#[test]
fn block_sizes() {
    assert_eq!(compact_size_len(0), 1);
    assert_eq!(compact_size_len(252), 1);
    assert_eq!(compact_size_len(253), 3);
    assert_eq!(compact_size_len(0xffff), 3);
    assert_eq!(compact_size_len(0x1_0000), 5);
    assert_eq!(compact_size_len(0xffff_ffff), 5);
    assert_eq!(compact_size_len(0x1_0000_0000), 9);
    assert_eq!(modeled_block_bytes(1_000, 2), 2_488);
}

#[test]
fn candidates_are_tried_by_falling_score() {
    let candidates = vec![
        sapling(50, 1, 1),
        orchard(10, 9),
        sapling(60, 2, 0),
        sapling(50, 1, 1),
        sapling(50, 2, 0),
        sapling(10, 3, 0),
    ];
    assert_eq!(matching_candidates(ShieldedPool::Sapling, &candidates), vec![5, 2, 4, 0, 3]);
    assert_eq!(matching_candidates(ShieldedPool::Orchard, &candidates), vec![1]);
    assert!(matching_candidates(ShieldedPool::Sprout, &candidates).is_empty());
}

#[test]
fn cheapest_picks_are_selected() {
    let candidates = vec![orchard(100, 3), orchard(30, 1), orchard(70, 2)];
    let select = |target: usize, choices: Vec<usize>| {
        select_pool_candidates(ShieldedPool::Orchard, target, &choices, &candidates)
    };
    assert_eq!(select(0, vec![0, 1, 2]), Some(vec![]));
    // Three times 30 is less than 100, and than 70 and 30.
    assert_eq!(select(3, vec![0, 1, 2]), Some(vec![1, 1, 1]));
    // Of two ways that cost the same, the one found first stays.
    assert_eq!(select(5, vec![0, 2]), Some(vec![0, 2]));
    assert_eq!(select(1, vec![0, 2]), None);
    assert_eq!(select(4, vec![0]), None);
    assert_eq!(select(2, vec![]), None);
    let picks = select(7, vec![0, 2]).expect("seven actions can be made up");
    assert_eq!(selected_tx_bytes(&picks, &candidates), 240);
}

#[test]
fn all_pools_are_matched() {
    let candidates = vec![sapling(40, 1, 1), orchard(10, 2), sprout(20, 1), sapling(25, 1, 0)];
    let select = |counts: [usize; 3]| {
        select_candidates_for_counts(&ShieldedActionCounts { counts }, &candidates)
    };
    assert_eq!(select([3, 2, 1]), Some(vec![0, 3, 1, 2]));
    assert_eq!(select([0, 4, 0]), Some(vec![1, 1]));
    assert_eq!(select([0, 3, 0]), None);
    assert_eq!(select([0, 0, 0]), Some(vec![]));
}

#[test]
fn action_limits() {
    let candidates = vec![sapling(1_000, 1, 1), orchard(2_000, 1), orchard(4_000, 4)];
    let limit = |mix: (u8, u8, u8)| {
        max_total_actions(&ShieldedActionMix::new(mix.0, mix.1, mix.2), &candidates)
    };
    assert_eq!(limit((100, 0, 0)), Some(4_003));
    assert_eq!(limit((0, 100, 0)), Some(2_003));
    assert_eq!(limit((50, 50, 0)), Some(4_003));
    assert_eq!(limit((90, 10, 0)), Some(4_447));
    assert_eq!(limit((50, 0, 50)), None);
    assert_eq!(limit((0, 0, 0)), None);
}

#[test]
fn best_workload_fills_the_block() {
    let candidates = vec![orchard(100_000, 10), orchard(30_000, 2), sapling(50_000, 2, 1)];
    let mix = ShieldedActionMix::new(0, 100, 0);
    let workload = build_workload(&mix, &candidates).expect("a workload fits");
    // Nineteen of the first and three of the second leave less than one more action.
    assert_eq!(workload.target_action_counts.counts, [0, 196, 0]);
    assert_eq!(workload.stats.serialized_bytes, 1_990_000);
    assert_eq!(workload.stats.modeled_block_bytes, 1_991_488);
    assert!(workload.stats.modeled_block_bytes <= MAX_BLOCK_BYTES);
    assert_eq!(workload.stats.repeated_transactions, 22);
    assert_eq!(workload.stats.unique_transactions, 2);
    assert_eq!(workload.stats.action_counts.orchard_actions, 196);
    assert_eq!(workload.stats.verifier_checks.orchard_bundles, 22);
    assert_eq!(workload.stats.verifier_checks.sapling_bundles, 0);

    let (counts, selected) =
        select_best_block_workload(&mix, &candidates).expect("a workload fits");
    assert_eq!(counts.counts, [0, 196, 0]);
    assert_eq!(selected, workload.selected);

    assert!(build_workload(&ShieldedActionMix::new(0, 0, 100), &candidates).is_none());
    // A transaction that no block can hold gives no workload.
    assert!(build_workload(&mix, &vec![orchard(2_000_000, 1)]).is_none());
}

#[test]
fn even_workload_has_both_pools() {
    let candidates = vec![sapling(200_000, 1, 1), orchard(300_000, 2)];
    let mix = ShieldedActionMix::new(50, 50, 0);
    let workload = build_workload(&mix, &candidates).expect("a workload fits");
    assert_eq!(workload.target_action_counts.counts, [6, 6, 0]);
    assert_eq!(workload.selected, vec![0, 0, 0, 1, 1, 1]);
    assert_eq!(workload.stats.action_counts.sapling_spends, 3);
    assert_eq!(workload.stats.action_counts.sapling_outputs, 3);
}

#[test]
fn benchmark_cases_are_valid() {
    let cases = benchmark_cases();
    let first = validate_benchmark_cases(&cases).expect("the cases are valid");
    assert_eq!(first.name, "available_orchard_heavy");
    assert_eq!(cases[2].action_mix, ShieldedActionMix::new(50, 50, 0));

    let mut other = cases.clone();
    other[1].rayon_threads = 5;
    assert_eq!(validate_benchmark_cases(&other).unwrap_err(), CaseFault::RayonThreads(1));
    let mut other = cases.clone();
    other[2].tokio_worker_threads = 5;
    assert_eq!(validate_benchmark_cases(&other).unwrap_err(), CaseFault::TokioWorkerThreads(2));
    let mut other = cases;
    other[0].action_mix = ShieldedActionMix::new(50, 49, 0);
    assert_eq!(validate_benchmark_cases(&other).unwrap_err(), CaseFault::ActionMix(0));
    other.clear();
    assert_eq!(validate_benchmark_cases(&other).unwrap_err(), CaseFault::NoCases);
}

#[test]
fn workloads_that_cannot_be_counted_are_told() {
    let mix = ShieldedActionMix::new(0, 100, 0);
    assert!(do_workloads_fit(&mix, &Vec::new()));
    assert!(do_workloads_fit(&mix, &vec![orchard(1_000, 2)]));
    // A candidate without a size, and one whose bound leaves the range.
    assert!(!do_workloads_fit(&mix, &vec![orchard(0, 2)]));
    assert!(!do_workloads_fit(&mix, &vec![orchard(1, usize::MAX)]));
    // The bytes of a workload of the longest candidates.
    assert!(!do_workloads_fit(&mix, &vec![orchard(1_000, 2), orchard(usize::MAX, 1)]));
    // Its transparent inputs.
    let mut inputs = orchard(1_000, 2);
    inputs.counts.transparent_inputs = usize::MAX;
    assert!(!do_workloads_fit(&mix, &vec![inputs]));
    // Actions that cannot be added up.
    let mut actions = orchard(1_000, 2);
    actions.counts.sapling_spends = usize::MAX;
    actions.counts.sapling_outputs = 1;
    assert!(!do_workloads_fit(&mix, &vec![actions]));
}
