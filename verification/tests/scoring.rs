use knapsack_cliff::cliff_score::evaluate;
use knapsack_cliff::CliffScore;
use knapsack_cliff::CliffScorer;
use knapsack_cliff::Item;
use knapsack_cliff::Knapsack;

fn example_knapsack() -> Knapsack {
    let items = vec![Item::new(2, 3), Item::new(3, 4), Item::new(4, 5)];
    Knapsack::new(items, 5).unwrap()
}

#[test]
fn feasible_scores_order_by_value_sum() {
    let a = CliffScore::Feasible(9);
    let b = CliffScore::Feasible(4);
    assert!(a.gt(&b));
    assert!(b.lt(&a));
    assert!(!b.gt(&a));
    let c = CliffScore::Feasible(4);
    assert!(!b.gt(&c) && !b.lt(&c));
    assert_eq!(b, c);
}

#[test]
fn feasible_always_beats_infeasible() {
    let zero = CliffScore::Feasible(0);
    let huge_but_overloaded = CliffScore::Infeasible;
    assert!(zero.gt(&huge_but_overloaded));
    assert!(huge_but_overloaded.lt(&zero));
    assert_eq!(CliffScore::Infeasible, CliffScore::Infeasible);
    assert!(!CliffScore::Infeasible.lt(&CliffScore::Infeasible));
}

#[test]
fn to_int_preserves_the_order() {
    let scores = [
        CliffScore::Infeasible,
        CliffScore::Feasible(0),
        CliffScore::Feasible(7),
        CliffScore::Feasible(u64::MAX),
    ];
    for i in 0..scores.len() {
        for j in 0..scores.len() {
            assert_eq!(scores[i].lt(&scores[j]), scores[i].to_int() < scores[j].to_int());
        }
    }
    assert_eq!(CliffScore::Infeasible.to_int(), -1);
    assert_eq!(CliffScore::Feasible(u64::MAX).to_int(), u64::MAX as i128);
}

#[test]
fn evaluate_applies_the_cliff_rule() {
    assert_eq!(evaluate(7, 5, 5), CliffScore::Feasible(7));
    assert_eq!(evaluate(7, 6, 5), CliffScore::Infeasible);
    assert_eq!(evaluate(0, 0, 0), CliffScore::Feasible(0));
}

#[test]
fn example_genome_at_capacity_is_feasible() {
    let scorer = CliffScorer::new(example_knapsack());
    let genome = vec![true, true, false];
    let score = scorer.score(&genome);
    assert_eq!(score, CliffScore::Feasible(7));
    assert_eq!(score.to_int(), 7);
}

#[test]
fn example_genome_over_capacity_falls_off_the_cliff() {
    let scorer = CliffScorer::new(example_knapsack());
    let genome = vec![true, true, true];
    let score = scorer.score(&genome);
    assert_eq!(score, CliffScore::Infeasible);
    assert!(score.to_int() < 7);
}

#[test]
fn empty_selection_is_always_feasible() {
    let scorer = CliffScorer::new(example_knapsack());
    let genome = vec![false, false, false];
    assert_eq!(scorer.score(&genome), CliffScore::Feasible(0));

    let tight = Knapsack::new(vec![Item::new(10, 10)], 0).unwrap();
    let scorer = CliffScorer::new(tight);
    assert_eq!(scorer.score(&vec![false]), CliffScore::Feasible(0));
}

#[test]
fn scoring_twice_returns_equal_scores() {
    let scorer = CliffScorer::new(example_knapsack());
    let genome = vec![false, true, true];
    let first = scorer.score(&genome);
    let second = scorer.score(&genome);
    assert_eq!(first, second);
}

#[test]
fn bit_length_matches_the_item_count() {
    let scorer = CliffScorer::new(example_knapsack());
    assert_eq!(scorer.bit_length(), 3);
}
