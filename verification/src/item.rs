use vstd::prelude::*;

verus! {

/// One thing that may be put into the knapsack: an immutable
/// weight/value pair. The knapsack owns its items; a genome refers to
/// them by position.
#[derive(Clone, Copy, PartialEq, Eq, Structural, Debug)]
pub struct Item {
    pub weight: u64,
    pub value: u64,
}

impl Item {
    /// Builds an item from its weight and its value.
    pub fn new(weight: u64, value: u64) -> (r: Item)
        ensures
            r.weight == weight,
            r.value == value,
    {
        Item { weight, value }
    }
}

} // verus!
