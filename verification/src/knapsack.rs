use vstd::prelude::*;
use crate::item::Item;
use crate::source;

verus! {

/// Why a description could not be turned into a knapsack.
#[derive(Clone, Copy, PartialEq, Eq, Structural, Debug)]
pub enum KnapsackError {
    /// A byte that is neither a digit, a blank nor a line break.
    InvalidByte,
    /// A numeral that does not fit in a `u64`.
    NumberTooLarge,
    /// No numbers at all, so no capacity line.
    MissingCapacity,
    /// The capacity line does not hold exactly one number, or an item
    /// line does not hold exactly two.
    WrongFieldCount,
    /// A capacity line with no item lines after it.
    NoItems,
    /// The items' total weight or total value does not fit in a `u64`.
    TotalOverflow,
}

/// The summed weight of the first `n` items.
pub open spec fn sum_weight(items: Seq<Item>, n: int) -> int
    decreases n,
{
    if n <= 0 {
        0
    } else {
        sum_weight(items, n - 1) + items[n - 1].weight
    }
}

/// The summed value of the first `n` items.
pub open spec fn sum_value(items: Seq<Item>, n: int) -> int
    decreases n,
{
    if n <= 0 {
        0
    } else {
        sum_value(items, n - 1) + items[n - 1].value
    }
}

/// The summed weight of all items.
pub open spec fn total_weight(items: Seq<Item>) -> int {
    sum_weight(items, items.len() as int)
}

/// The summed value of all items.
pub open spec fn total_value(items: Seq<Item>) -> int {
    sum_value(items, items.len() as int)
}

/// Partial sums of weights and values are non-negative and grow with `n`.
pub proof fn lemma_sums_monotone(items: Seq<Item>, m: int, n: int)
    requires
        0 <= m <= n,
    ensures
        0 <= sum_weight(items, m) <= sum_weight(items, n),
        0 <= sum_value(items, m) <= sum_value(items, n),
    decreases n,
{
    if m < n {
        lemma_sums_monotone(items, m, n - 1);
    } else {
        if n > 0 {
            lemma_sums_monotone(items, 0, n - 1);
        }
    }
}

/// A problem instance: an ordered, non-empty collection of items and a
/// capacity bound. Built once, read-only thereafter; the position of an
/// item is the bit position a genome refers to it by.
#[derive(Debug)]
pub struct Knapsack {
    items: Vec<Item>,
    capacity: u64,
}

impl Knapsack {
    /// The items, in the order the description gave them.
    pub closed spec fn spec_items(self) -> Seq<Item> {
        self.items@
    }

    /// The capacity bound.
    pub closed spec fn spec_capacity(self) -> u64 {
        self.capacity
    }

    /// Well-formedness: at least one item, and the total weight and total
    /// value fit in a `u64`, so that no selection's sums can overflow.
    pub open spec fn wf(self) -> bool {
        &&& self.spec_items().len() > 0
        &&& total_weight(self.spec_items()) <= u64::MAX
        &&& total_value(self.spec_items()) <= u64::MAX
    }

    /// Builds a knapsack from parts, rejecting an empty item collection
    /// and totals that do not fit in a `u64`.
    pub fn new(items: Vec<Item>, capacity: u64) -> (r: Result<Knapsack, KnapsackError>)
        ensures
            items@.len() == 0 ==> r == Err::<Knapsack, KnapsackError>(KnapsackError::NoItems),
            items@.len() > 0 && (total_weight(items@) > u64::MAX || total_value(items@)
                > u64::MAX) ==> r == Err::<Knapsack, KnapsackError>(KnapsackError::TotalOverflow),
            items@.len() > 0 && total_weight(items@) <= u64::MAX && total_value(items@)
                <= u64::MAX ==> (r matches Ok(k) && k.spec_items() == items@ && k.spec_capacity()
                == capacity && k.wf()),
    {
        if items.len() == 0 {
            return Err(KnapsackError::NoItems);
        }
        let n: usize = items.len();
        let mut w: u64 = 0;
        let mut v: u64 = 0;
        let mut i: usize = 0;
        while i < n
            invariant
                n == items@.len(),
                0 <= i <= n,
                w == sum_weight(items@, i as int),
                v == sum_value(items@, i as int),
            decreases n - i,
        {
            let it: Item = items[i];
            if w > u64::MAX - it.weight {
                proof {
                    lemma_sums_monotone(items@, i as int + 1, n as int);
                }
                return Err(KnapsackError::TotalOverflow);
            }
            w = w + it.weight;
            if v > u64::MAX - it.value {
                proof {
                    lemma_sums_monotone(items@, i as int + 1, n as int);
                }
                return Err(KnapsackError::TotalOverflow);
            }
            v = v + it.value;
            i += 1;
        }
        Ok(Knapsack { items, capacity })
    }

    /// How many items the instance holds; a genome against this instance
    /// must have exactly this many bits.
    pub fn num_items(&self) -> (r: usize)
        ensures
            r == self.spec_items().len(),
    {
        self.items.len()
    }

    /// The capacity bound.
    pub fn capacity(&self) -> (r: u64)
        ensures
            r == self.spec_capacity(),
    {
        self.capacity
    }

    /// The item at a position.
    pub fn item(&self, i: usize) -> (r: Item)
        requires
            i < self.spec_items().len(),
        ensures
            r == self.spec_items()[i as int],
    {
        self.items[i]
    }

    /// Parses a textual description: a capacity line holding one number,
    /// then one line per item holding its weight and its value, numbers
    /// separated by blanks. See `spec_parse` for exactly which
    /// descriptions are accepted and what each failure means.
    pub fn from_source(source: &Vec<u8>) -> (r: Result<Knapsack, KnapsackError>)
        ensures
            match r {
                Ok(k) => {
                    &&& spec_parse(source@) matches Ok(p)
                    &&& k.spec_capacity() == p.0
                    &&& k.spec_items() == p.1
                    &&& k.wf()
                },
                Err(e) => spec_parse(source@) == Err::<(u64, Seq<Item>), KnapsackError>(e),
            },
    {
        let rows = match source::tokenize(source) {
            Ok(rows) => rows,
            Err(e) => {
                return Err(e);
            },
        };
        let ghost srows = source::token_rows(source@);
        if rows.len() == 0 {
            return Err(KnapsackError::MissingCapacity);
        }
        if rows[0].len() != 1 {
            assert(srows[0].len() != 1);
            return Err(KnapsackError::WrongFieldCount);
        }
        assert(srows[0].len() == 1);
        let n: usize = rows.len();
        let mut i: usize = 1;
        while i < n
            invariant
                n == rows@.len(),
                1 <= i <= n,
                source::source_bytes_ok(source@),
                srows == source::token_rows(source@),
                !source::rows_have_big(srows),
                source::rows_match(rows@, srows),
                srows[0].len() == 1,
                forall|k: int| 1 <= k < i ==> #[trigger] srows[k].len() == 2,
            decreases n - i,
        {
            if rows[i].len() != 2 {
                assert(srows[i as int].len() != 2);
                return Err(KnapsackError::WrongFieldCount);
            }
            assert(srows[i as int].len() == 2);
            i += 1;
        }
        if rows.len() == 1 {
            return Err(KnapsackError::NoItems);
        }
        let capacity: u64 = rows[0][0];
        let mut items: Vec<Item> = Vec::new();
        let mut i: usize = 1;
        while i < n
            invariant
                n == rows@.len(),
                n >= 2,
                1 <= i <= n,
                source::rows_match(rows@, srows),
                forall|k: int| 1 <= k < n ==> #[trigger] srows[k].len() == 2,
                srows.len() == n,
                items@.len() == i - 1,
                forall|k: int| 0 <= k < i - 1 ==> #[trigger] items@[k] == spec_items_of_rows(
                    srows,
                )[k],
            decreases n - i,
        {
            assert(source::row_matches(rows@[i as int]@, srows[i as int]));
            assert(rows@[i as int]@.len() == 2);
            let row = &rows[i];
            items.push(Item { weight: row[0], value: row[1] });
            assert(items@[i as int - 1] == spec_items_of_rows(srows)[i as int - 1]);
            i += 1;
        }
        proof {
            assert(items@ =~= spec_items_of_rows(srows));
        }
        match Knapsack::new(items, capacity) {
            Ok(k) => Ok(k),
            Err(e) => {
                assert(e == KnapsackError::TotalOverflow);
                Err(e)
            },
        }
    }
}

impl Clone for Knapsack {
    /// An independent, value-equal copy for sharing across runs.
    fn clone(&self) -> (r: Self)
        ensures
            r.spec_items() == self.spec_items(),
            r.spec_capacity() == self.spec_capacity(),
    {
        let n: usize = self.items.len();
        let mut items: Vec<Item> = Vec::new();
        let mut i: usize = 0;
        while i < n
            invariant
                n == self.items@.len(),
                0 <= i <= n,
                items@ == self.items@.take(i as int),
            decreases n - i,
        {
            items.push(self.items[i]);
            proof {
                assert(items@ =~= self.items@.take(i as int + 1));
            }
            i += 1;
        }
        proof {
            assert(items@ =~= self.items@);
        }
        Knapsack { items, capacity: self.capacity }
    }
}

/// The items a well-shaped row sequence describes: row `i + 1` holds the
/// weight and the value of item `i`.
pub open spec fn spec_items_of_rows(rows: Seq<Seq<nat>>) -> Seq<Item> {
    Seq::new((rows.len() - 1) as nat, |i: int| Item {
        weight: rows[i + 1][0] as u64,
        value: rows[i + 1][1] as u64,
    })
}

/// What parsing a description yields: the capacity and the items, or the
/// first reason (in the order the checks are made) it is rejected.
pub open spec fn spec_parse(s: Seq<u8>) -> Result<(u64, Seq<Item>), KnapsackError> {
    if !source::source_bytes_ok(s) {
        Err(KnapsackError::InvalidByte)
    } else {
        let rows = source::token_rows(s);
        if source::rows_have_big(rows) {
            Err(KnapsackError::NumberTooLarge)
        } else if rows.len() == 0 {
            Err(KnapsackError::MissingCapacity)
        } else if rows[0].len() != 1 || exists|i: int|
            1 <= i < rows.len() && #[trigger] rows[i].len() != 2 {
            Err(KnapsackError::WrongFieldCount)
        } else if rows.len() == 1 {
            Err(KnapsackError::NoItems)
        } else if total_weight(spec_items_of_rows(rows)) > u64::MAX || total_value(
            spec_items_of_rows(rows),
        ) > u64::MAX {
            Err(KnapsackError::TotalOverflow)
        } else {
            Ok((rows[0][0] as u64, spec_items_of_rows(rows)))
        }
    }
}

} // verus!
