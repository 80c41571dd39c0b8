use knapsack_cliff::run_tracker::best_of_run;
use knapsack_cliff::sweep::generation_seed;
use knapsack_cliff::sweep::sweep_plan;
use knapsack_cliff::CliffScore;
use knapsack_cliff::RunError;
use knapsack_cliff::RunTracker;
use knapsack_cliff::SweepEntry;
use knapsack_cliff::SweepGroup;

#[test]
fn best_of_run_keeps_the_first_generation_that_reached_the_maximum() {
    let scores = vec![
        CliffScore::Feasible(5),
        CliffScore::Feasible(5),
        CliffScore::Feasible(8),
        CliffScore::Feasible(3),
        CliffScore::Feasible(8),
    ];
    let (best, generation) = best_of_run(&scores).unwrap();
    assert_eq!(best, CliffScore::Feasible(8));
    assert_eq!(generation, 2);
}

#[test]
fn best_of_run_of_no_generations_is_none() {
    assert_eq!(best_of_run(&Vec::new()), None);
}

#[test]
fn an_infeasible_start_is_replaced_by_any_feasible_score() {
    let scores = vec![CliffScore::Infeasible, CliffScore::Feasible(0)];
    let (best, generation) = best_of_run(&scores).unwrap();
    assert_eq!(best, CliffScore::Feasible(0));
    assert_eq!(generation, 1);
}

#[test]
fn observing_by_hand_matches_the_fold() {
    let mut tracker = RunTracker::new();
    tracker.observe(0, CliffScore::Feasible(5));
    tracker.observe(1, CliffScore::Feasible(5));
    tracker.observe(2, CliffScore::Feasible(8));
    tracker.observe(3, CliffScore::Feasible(3));
    tracker.observe(4, CliffScore::Feasible(8));
    let record = tracker.finalize(5, 0, 12).unwrap();
    assert_eq!(record.best_score, CliffScore::Feasible(8));
    assert_eq!(record.generation_found, 2);
    assert_eq!(record.generation_count, 5);
    assert_eq!(record.run_number, 0);
    assert_eq!(record.run_time_ms, 12);
}

#[test]
fn a_run_that_observed_nothing_fails_loudly() {
    let tracker = RunTracker::new();
    assert_eq!(tracker.finalize(5, 0, 12), Err(RunError::EmptyRun));
}

#[test]
fn the_sweep_plan_is_the_expected_matrix() {
    let plan = sweep_plan(2, 10, 5, 5);
    let expected = vec![
        SweepEntry { group: SweepGroup::Baseline, generations: 10, run_number: 0, base_seed: 0 },
        SweepEntry { group: SweepGroup::Baseline, generations: 10, run_number: 1, base_seed: 1 },
        SweepEntry {
            group: SweepGroup::Incremental,
            generations: 5,
            run_number: 0,
            base_seed: 5,
        },
        SweepEntry {
            group: SweepGroup::Incremental,
            generations: 5,
            run_number: 1,
            base_seed: 6,
        },
    ];
    assert_eq!(plan, expected);
}

#[test]
fn two_sweeps_with_the_same_parameters_are_identical() {
    let first = sweep_plan(3, 20, 5, 5);
    let second = sweep_plan(3, 20, 5, 5);
    assert_eq!(first, second);
}

#[test]
fn incremental_budgets_stop_below_the_baseline() {
    let plan = sweep_plan(1, 15, 5, 5);
    let budgets: Vec<usize> = plan.iter().map(|e| e.generations).collect();
    assert_eq!(budgets, vec![15, 5, 10]);
}

#[test]
fn a_whole_run_from_description_to_record() {
    let description = b"5\n2 3\n3 4\n4 5\n".to_vec();
    let knapsack = knapsack_cliff::Knapsack::from_source(&description).unwrap();
    let scorer = knapsack_cliff::CliffScorer::new(knapsack);
    let mut tracker = RunTracker::new();
    let genomes = [
        vec![false, false, false],
        vec![true, true, true],
        vec![true, true, false],
        vec![false, false, true],
        vec![true, false, true],
    ];
    for (generation, genome) in genomes.iter().enumerate() {
        tracker.observe(generation, scorer.score(genome));
    }
    let record = tracker.finalize(genomes.len(), 3, 21).unwrap();
    assert_eq!(record.best_score, CliffScore::Feasible(7));
    assert_eq!(record.generation_found, 2);
    assert_eq!(record.run_number, 3);
    assert!(record.best_score.le(&CliffScore::Feasible(7)));
}

#[test]
fn generation_seeds_wrap_around() {
    assert_eq!(generation_seed(7, 3), 10);
    assert_eq!(generation_seed(u64::MAX, 1), 0);
    assert_eq!(generation_seed(u64::MAX, 0), u64::MAX);
}
