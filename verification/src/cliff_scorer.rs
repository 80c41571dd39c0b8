use vstd::prelude::*;
use crate::cliff_score::CliffScore;
use crate::cliff_score::evaluate;
use crate::cliff_score::spec_evaluate;
use crate::item::Item;
use crate::knapsack::Knapsack;
use crate::knapsack::lemma_sums_monotone;
use crate::knapsack::sum_value;
use crate::knapsack::sum_weight;

verus! {

/// The summed weight of the items picked by the first `n` genome bits.
pub open spec fn sel_weight(items: Seq<Item>, genome: Seq<bool>, n: int) -> int
    decreases n,
{
    if n <= 0 {
        0
    } else {
        sel_weight(items, genome, n - 1) + if genome[n - 1] {
            items[n - 1].weight as int
        } else {
            0
        }
    }
}

/// The summed value of the items picked by the first `n` genome bits.
pub open spec fn sel_value(items: Seq<Item>, genome: Seq<bool>, n: int) -> int
    decreases n,
{
    if n <= 0 {
        0
    } else {
        sel_value(items, genome, n - 1) + if genome[n - 1] {
            items[n - 1].value as int
        } else {
            0
        }
    }
}

/// The summed weight of the whole selection a genome encodes.
pub open spec fn selected_weight(items: Seq<Item>, genome: Seq<bool>) -> int {
    sel_weight(items, genome, items.len() as int)
}

/// The summed value of the whole selection a genome encodes.
pub open spec fn selected_value(items: Seq<Item>, genome: Seq<bool>) -> int {
    sel_value(items, genome, items.len() as int)
}

/// A selection's sums are non-negative and bounded by the sums over all
/// items, whatever the genome picks.
pub proof fn lemma_selection_bounded(items: Seq<Item>, genome: Seq<bool>, n: int)
    ensures
        0 <= sel_weight(items, genome, n) <= sum_weight(items, n),
        0 <= sel_value(items, genome, n) <= sum_value(items, n),
    decreases n,
{
    if n > 0 {
        lemma_selection_bounded(items, genome, n - 1);
    }
}

/// The score a genome earns against a knapsack: infeasible when the
/// selected weight exceeds the capacity, otherwise the selected value.
pub open spec fn spec_score(k: Knapsack, genome: Seq<bool>) -> CliffScore {
    spec_evaluate(
        selected_value(k.spec_items(), genome) as u64,
        selected_weight(k.spec_items(), genome) as u64,
        k.spec_capacity(),
    )
}

/// The fitness function: binds one knapsack, never mutated afterwards,
/// and maps genomes to cliff scores. Scoring reads only the bound
/// knapsack, so concurrent evaluations of different genomes are safe.
pub struct CliffScorer {
    knapsack: Knapsack,
}

impl CliffScorer {
    /// The bound problem instance.
    pub closed spec fn spec_knapsack(self) -> Knapsack {
        self.knapsack
    }

    /// A scorer is well-formed when its knapsack is.
    pub open spec fn wf(self) -> bool {
        self.spec_knapsack().wf()
    }

    /// Binds a knapsack.
    pub fn new(knapsack: Knapsack) -> (r: CliffScorer)
        requires
            knapsack.wf(),
        ensures
            r.spec_knapsack() == knapsack,
            r.wf(),
    {
        CliffScorer { knapsack }
    }

    /// How many bits a genome against the bound knapsack must have.
    pub fn bit_length(&self) -> (r: usize)
        ensures
            r == self.spec_knapsack().spec_items().len(),
    {
        self.knapsack.num_items()
    }

    /// Scores a genome: accumulates the selected items' weight and value
    /// and applies the cliff rule. The result depends on the genome and
    /// the bound knapsack alone, so repeated calls agree.
    pub fn score(&self, genome: &Vec<bool>) -> (r: CliffScore)
        requires
            self.wf(),
            genome@.len() == self.spec_knapsack().spec_items().len(),
        ensures
            r == spec_score(self.spec_knapsack(), genome@),
    {
        let ghost items = self.spec_knapsack().spec_items();
        let n: usize = self.knapsack.num_items();
        let mut w: u64 = 0;
        let mut v: u64 = 0;
        let mut i: usize = 0;
        while i < n
            invariant
                self.wf(),
                items == self.spec_knapsack().spec_items(),
                n == items.len(),
                genome@.len() == n,
                0 <= i <= n,
                w == sel_weight(items, genome@, i as int),
                v == sel_value(items, genome@, i as int),
            decreases n - i,
        {
            proof {
                lemma_selection_bounded(items, genome@, i as int + 1);
                lemma_sums_monotone(items, i as int + 1, n as int);
            }
            if genome[i] {
                let it: Item = self.knapsack.item(i);
                w = w + it.weight;
                v = v + it.value;
            }
            i += 1;
        }
        evaluate(v, w, self.knapsack.capacity())
    }
}

/// Scoring is referentially transparent: against one knapsack, equal
/// genomes always earn equal scores.
pub proof fn lemma_score_deterministic(k: Knapsack, g1: Seq<bool>, g2: Seq<bool>)
    requires
        g1 == g2,
    ensures
        spec_score(k, g1) == spec_score(k, g2),
{
}

/// Between two selections of one knapsack that both fit its capacity,
/// the score order follows the selections' value sums exactly.
pub proof fn lemma_feasible_selections_order(k: Knapsack, a: Seq<bool>, b: Seq<bool>)
    requires
        k.wf(),
        selected_weight(k.spec_items(), a) <= k.spec_capacity(),
        selected_weight(k.spec_items(), b) <= k.spec_capacity(),
    ensures
        crate::cliff_score::spec_lt(spec_score(k, b), spec_score(k, a)) <==> selected_value(
            k.spec_items(),
            b,
        ) < selected_value(k.spec_items(), a),
{
    let items = k.spec_items();
    lemma_selection_bounded(items, a, items.len() as int);
    lemma_selection_bounded(items, b, items.len() as int);
}

/// A selection that fits the capacity always outscores one that exceeds
/// it, whatever the two value sums are.
pub proof fn lemma_feasible_selection_beats_infeasible(k: Knapsack, a: Seq<bool>, b: Seq<bool>)
    requires
        k.wf(),
        selected_weight(k.spec_items(), a) <= k.spec_capacity(),
        selected_weight(k.spec_items(), b) > k.spec_capacity(),
    ensures
        crate::cliff_score::spec_lt(spec_score(k, b), spec_score(k, a)),
{
    let items = k.spec_items();
    lemma_selection_bounded(items, a, items.len() as int);
    lemma_selection_bounded(items, b, items.len() as int);
}

/// A genome with no bit set selects nothing: weight zero and value zero.
pub proof fn lemma_empty_selection_sums(items: Seq<Item>, genome: Seq<bool>, n: int)
    requires
        forall|i: int| 0 <= i < n ==> !genome[i],
    ensures
        sel_weight(items, genome, n) == 0,
        sel_value(items, genome, n) == 0,
    decreases n,
{
    if n > 0 {
        lemma_empty_selection_sums(items, genome, n - 1);
    }
}

/// The empty selection is feasible against any well-formed knapsack:
/// it weighs nothing and is worth nothing, a floor every instance has.
pub proof fn lemma_empty_selection_feasible(k: Knapsack, genome: Seq<bool>)
    requires
        k.wf(),
        forall|i: int| 0 <= i < genome.len() ==> !genome[i],
        genome.len() == k.spec_items().len(),
    ensures
        spec_score(k, genome) == CliffScore::Feasible(0),
{
    lemma_empty_selection_sums(k.spec_items(), genome, k.spec_items().len() as int);
}

} // verus!
