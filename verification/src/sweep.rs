use vstd::prelude::*;

verus! {

/// The defaults of the experiment: how many runs each cell repeats, the
/// baseline generation budget, and the range of smaller budgets.
pub const NUM_RUNS: usize = 50;

pub const BASELINE_GENERATIONS: usize = 100;

pub const GENERATION_START: usize = 5;

pub const INCREMENT_SIZE: usize = 5;

/// The population each run breeds.
pub const POPULATION_SIZE: usize = 1000;

/// Which part of the sweep a run belongs to: the full baseline budget,
/// or one of the smaller incremental budgets.
#[derive(Clone, Copy, PartialEq, Eq, Structural, Debug)]
pub enum SweepGroup {
    Baseline,
    Incremental,
}

/// One cell of the experiment matrix: a group tag, a generation budget,
/// a run index within the group, and the run's deterministic seed.
#[derive(Clone, Copy, PartialEq, Eq, Structural, Debug)]
pub struct SweepEntry {
    pub group: SweepGroup,
    pub generations: usize,
    pub run_number: usize,
    pub base_seed: u64,
}

/// The seed a run derives from its sweep cell: the run index in the
/// baseline group, the budget plus the run index in the incremental one.
pub open spec fn spec_base_seed(group: SweepGroup, generations: int, run_number: int) -> int {
    match group {
        SweepGroup::Baseline => run_number,
        SweepGroup::Incremental => generations + run_number,
    }
}

/// The entries of one sweep group: one per run index, in order.
pub open spec fn spec_group_entries(group: SweepGroup, generations: int, num_runs: int) -> Seq<
    SweepEntry,
> {
    Seq::new(
        if num_runs >= 0 {
            num_runs as nat
        } else {
            0
        },
        |j: int| SweepEntry {
            group,
            generations: generations as usize,
            run_number: j as usize,
            base_seed: spec_base_seed(group, generations, j) as u64,
        },
    )
}

/// The incremental entries for the budgets `start, start + inc, ...`
/// strictly below `end`.
pub open spec fn spec_incremental_entries(start: int, inc: int, end: int, num_runs: int) -> Seq<
    SweepEntry,
>
    decreases end + inc - start
        when inc >= 1
{
    if inc < 1 || start >= end {
        Seq::empty()
    } else {
        spec_group_entries(SweepGroup::Incremental, start, num_runs) + spec_incremental_entries(
            start + inc,
            inc,
            end,
            num_runs,
        )
    }
}

/// The whole experiment matrix, in sweep order: the baseline budget
/// repeated for every run index, then each incremental budget in turn.
pub open spec fn spec_sweep_plan(
    num_runs: int,
    baseline_generations: int,
    generation_start: int,
    increment_size: int,
) -> Seq<SweepEntry> {
    spec_group_entries(SweepGroup::Baseline, baseline_generations, num_runs)
        + spec_incremental_entries(
        generation_start,
        increment_size,
        baseline_generations,
        num_runs,
    )
}

/// Lays out the ordered experiment matrix: every (budget, run index)
/// cell with its group tag and its deterministic seed. The plan is a
/// pure function of the four parameters, so two sweeps with the same
/// parameters run the same cells with the same seeds.
pub fn sweep_plan(
    num_runs: usize,
    baseline_generations: usize,
    generation_start: usize,
    increment_size: usize,
) -> (r: Vec<SweepEntry>)
    requires
        increment_size >= 1,
        baseline_generations + num_runs <= u64::MAX,
        baseline_generations + increment_size <= usize::MAX,
    ensures
        r@ == spec_sweep_plan(
            num_runs as int,
            baseline_generations as int,
            generation_start as int,
            increment_size as int,
        ),
{
    let mut plan: Vec<SweepEntry> = Vec::new();
    let mut j: usize = 0;
    let ghost baseline = spec_group_entries(
        SweepGroup::Baseline,
        baseline_generations as int,
        num_runs as int,
    );
    while j < num_runs
        invariant
            0 <= j <= num_runs,
            baseline == spec_group_entries(
                SweepGroup::Baseline,
                baseline_generations as int,
                num_runs as int,
            ),
            plan@ == baseline.take(j as int),
        decreases num_runs - j,
    {
        plan.push(
            SweepEntry {
                group: SweepGroup::Baseline,
                generations: baseline_generations,
                run_number: j,
                base_seed: j as u64,
            },
        );
        proof {
            assert(plan@ =~= baseline.take(j as int + 1));
        }
        j += 1;
    }
    proof {
        assert(plan@ =~= baseline);
    }
    let mut budget: usize = generation_start;
    while budget < baseline_generations
        invariant
            increment_size >= 1,
            baseline_generations + num_runs <= u64::MAX,
            baseline_generations + increment_size <= usize::MAX,
            budget >= generation_start,
            baseline == spec_group_entries(
                SweepGroup::Baseline,
                baseline_generations as int,
                num_runs as int,
            ),
            plan@ + spec_incremental_entries(
                budget as int,
                increment_size as int,
                baseline_generations as int,
                num_runs as int,
            ) == baseline + spec_incremental_entries(
                generation_start as int,
                increment_size as int,
                baseline_generations as int,
                num_runs as int,
            ),
        decreases baseline_generations + increment_size - budget,
    {
        let ghost before = plan@;
        let ghost cell = spec_group_entries(SweepGroup::Incremental, budget as int, num_runs as int);
        let mut j: usize = 0;
        while j < num_runs
            invariant
                0 <= j <= num_runs,
                budget + num_runs <= u64::MAX,
                cell == spec_group_entries(SweepGroup::Incremental, budget as int, num_runs as int),
                plan@ == before + cell.take(j as int),
            decreases num_runs - j,
        {
            plan.push(
                SweepEntry {
                    group: SweepGroup::Incremental,
                    generations: budget,
                    run_number: j,
                    base_seed: (budget as u64) + (j as u64),
                },
            );
            proof {
                assert(plan@ =~= before + cell.take(j as int + 1));
            }
            j += 1;
        }
        proof {
            assert(plan@ =~= before + cell);
            assert(spec_incremental_entries(
                budget as int,
                increment_size as int,
                baseline_generations as int,
                num_runs as int,
            ) == cell + spec_incremental_entries(
                budget as int + increment_size as int,
                increment_size as int,
                baseline_generations as int,
                num_runs as int,
            ));
            assert((before + cell) + spec_incremental_entries(
                budget as int + increment_size as int,
                increment_size as int,
                baseline_generations as int,
                num_runs as int,
            ) =~= before + spec_incremental_entries(
                budget as int,
                increment_size as int,
                baseline_generations as int,
                num_runs as int,
            ));
        }
        budget = budget + increment_size;
    }
    proof {
        assert(spec_incremental_entries(
            budget as int,
            increment_size as int,
            baseline_generations as int,
            num_runs as int,
        ) == Seq::<SweepEntry>::empty());
        assert(plan@ =~= plan@ + Seq::<SweepEntry>::empty());
    }
    plan
}

/// The per-generation seed the observer derives from the run's base
/// seed: addition that wraps around at the top of `u64`.
pub fn generation_seed(base_seed: u64, generation: usize) -> (r: u64)
    ensures
        r == spec_generation_seed(base_seed as int, generation as int),
{
    base_seed.wrapping_add(generation as u64)
}

/// Wrapping addition of a generation index to a base seed.
pub open spec fn spec_generation_seed(base_seed: int, generation: int) -> int {
    if base_seed + generation > u64::MAX {
        base_seed + generation - (u64::MAX + 1)
    } else {
        base_seed + generation
    }
}

/// The sweep plan is deterministic: two plans drawn from the same four
/// parameters are the same sequence of cells, seeds included.
pub proof fn lemma_sweep_plan_deterministic(
    a: Seq<SweepEntry>,
    b: Seq<SweepEntry>,
    num_runs: int,
    baseline_generations: int,
    generation_start: int,
    increment_size: int,
)
    requires
        a == spec_sweep_plan(num_runs, baseline_generations, generation_start, increment_size),
        b == spec_sweep_plan(num_runs, baseline_generations, generation_start, increment_size),
    ensures
        a == b,
{
}

} // verus!
