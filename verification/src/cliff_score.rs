use vstd::prelude::*;

verus! {

/// A fitness value with hard-cliff semantics: a selection that fits the
/// capacity is `Feasible` and carries its value sum; one that exceeds the
/// capacity is `Infeasible` and sits at the bottom of the order, whatever
/// its value sum was. Two infeasible selections are order-equal.
#[derive(Clone, Copy, PartialEq, Eq, Structural, Debug)]
pub enum CliffScore {
    Feasible(u64),
    Infeasible,
}

/// `a` is at most `b` under the cliff order: infeasible sits below
/// everything, and feasible scores compare by their value sums.
pub open spec fn spec_le(a: CliffScore, b: CliffScore) -> bool {
    match (a, b) {
        (CliffScore::Infeasible, _) => true,
        (CliffScore::Feasible(_), CliffScore::Infeasible) => false,
        (CliffScore::Feasible(x), CliffScore::Feasible(y)) => x <= y,
    }
}

/// `a` is strictly below `b` under the cliff order.
pub open spec fn spec_lt(a: CliffScore, b: CliffScore) -> bool {
    spec_le(a, b) && a != b
}

/// The scoring rule of the problem: a selection whose weight sum exceeds
/// the capacity falls off the cliff; otherwise the score is its value sum.
pub open spec fn spec_evaluate(value_sum: u64, weight_sum: u64, capacity: u64) -> CliffScore {
    if weight_sum > capacity {
        CliffScore::Infeasible
    } else {
        CliffScore::Feasible(value_sum)
    }
}

impl CliffScore {
    /// The integer a score is reported as: a feasible score reports its
    /// value sum, an infeasible one a sentinel below every feasible value.
    pub open spec fn spec_to_int(self) -> int {
        match self {
            CliffScore::Feasible(v) => v as int,
            CliffScore::Infeasible => -1,
        }
    }

    /// Projects the score to a plain integer for reporting; the projection
    /// preserves the cliff order (see `lemma_to_int_preserves_order`).
    pub fn to_int(&self) -> (r: i128)
        ensures
            r as int == self.spec_to_int(),
    {
        match self {
            CliffScore::Feasible(v) => *v as i128,
            CliffScore::Infeasible => -1,
        }
    }

    /// Strict comparison under the cliff order.
    pub fn lt(&self, other: &CliffScore) -> (r: bool)
        ensures
            r == spec_lt(*self, *other),
    {
        match (self, other) {
            (CliffScore::Infeasible, CliffScore::Infeasible) => false,
            (CliffScore::Infeasible, CliffScore::Feasible(_)) => true,
            (CliffScore::Feasible(_), CliffScore::Infeasible) => false,
            (CliffScore::Feasible(x), CliffScore::Feasible(y)) => x < y,
        }
    }

    /// Strict comparison under the cliff order, the other way round.
    pub fn gt(&self, other: &CliffScore) -> (r: bool)
        ensures
            r == spec_lt(*other, *self),
    {
        other.lt(self)
    }

    /// Non-strict comparison under the cliff order.
    pub fn le(&self, other: &CliffScore) -> (r: bool)
        ensures
            r == spec_le(*self, *other),
    {
        !other.lt(self)
    }
}

/// Applies the scoring rule to the aggregated value and weight of a
/// selection and the instance capacity.
pub fn evaluate(value_sum: u64, weight_sum: u64, capacity: u64) -> (r: CliffScore)
    ensures
        r == spec_evaluate(value_sum, weight_sum, capacity),
{
    if weight_sum > capacity {
        CliffScore::Infeasible
    } else {
        CliffScore::Feasible(value_sum)
    }
}

/// Among feasible scores the cliff order follows the value sums: one
/// feasible score beats another exactly when its value sum is larger.
pub proof fn lemma_feasible_order(a: u64, b: u64)
    ensures
        spec_lt(CliffScore::Feasible(b), CliffScore::Feasible(a)) <==> b < a,
{
}

/// A feasible score beats an infeasible one, whatever its value sum.
pub proof fn lemma_feasible_beats_infeasible(a: u64)
    ensures
        spec_lt(CliffScore::Infeasible, CliffScore::Feasible(a)),
{
}

/// The integer projection preserves the cliff order exactly: a score is
/// strictly below another if and only if its integer is strictly smaller.
pub proof fn lemma_to_int_preserves_order(a: CliffScore, b: CliffScore)
    ensures
        spec_lt(a, b) <==> a.spec_to_int() < b.spec_to_int(),
{
}

/// The cliff order is total: of two scores, one is at most the other.
pub proof fn lemma_order_total(a: CliffScore, b: CliffScore)
    ensures
        spec_le(a, b) || spec_le(b, a),
        spec_le(a, b) && spec_le(b, a) ==> a == b,
{
}

/// The cliff order is transitive.
pub proof fn lemma_order_transitive(a: CliffScore, b: CliffScore, c: CliffScore)
    ensures
        spec_le(a, b) && spec_le(b, c) ==> spec_le(a, c),
{
}

} // verus!
