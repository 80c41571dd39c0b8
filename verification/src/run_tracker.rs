use vstd::prelude::*;
use crate::cliff_score::CliffScore;
use crate::cliff_score::spec_le;
use crate::cliff_score::spec_lt;

verus! {

/// A run that finished without a single observed generation: an
/// invariant violation in the observer wiring, reported loudly rather
/// than as an empty record.
#[derive(Clone, Copy, PartialEq, Eq, Structural, Debug)]
pub enum RunError {
    EmptyRun,
}

/// The summary of one completed run: which sweep cell it belongs to, the
/// best score ever observed across its generations, the earliest
/// generation that reached that score, and how long the run took.
#[derive(Clone, Copy, PartialEq, Eq, Structural, Debug)]
pub struct RunResult {
    pub generation_count: usize,
    pub run_number: usize,
    pub best_score: CliffScore,
    pub generation_found: usize,
    pub run_time_ms: u128,
}

/// `best` is the maximum of `scores` under the cliff order and `g` is the
/// earliest generation that reached it.
pub open spec fn is_first_best(scores: Seq<CliffScore>, best: CliffScore, g: int) -> bool {
    &&& 0 <= g < scores.len()
    &&& scores[g] == best
    &&& forall|i: int| 0 <= i < scores.len() ==> spec_le(#[trigger] scores[i], best)
    &&& forall|i: int| 0 <= i < g ==> spec_lt(#[trigger] scores[i], best)
}

/// The best-of-run accumulator: owned by one run, fed once per completed
/// generation by the engine's observer callback, and finalized into a
/// `RunResult` when the run is exhausted.
pub struct RunTracker {
    pub best: Option<CliffScore>,
    pub generation_found: usize,
}

/// What one observation does to the accumulator: the first score is
/// kept; after that only a strict improvement replaces the best, so the
/// earliest generation reaching the maximum is preserved on ties.
pub open spec fn spec_observe(
    best: Option<CliffScore>,
    generation_found: usize,
    generation: usize,
    score: CliffScore,
) -> (Option<CliffScore>, usize) {
    match best {
        None => (Some(score), generation),
        Some(b) => if spec_lt(b, score) {
            (Some(score), generation)
        } else {
            (Some(b), generation_found)
        },
    }
}

impl RunTracker {
    /// A fresh accumulator: nothing observed yet.
    pub fn new() -> (r: RunTracker)
        ensures
            r.best is None,
            r.generation_found == 0,
    {
        RunTracker { best: None, generation_found: 0 }
    }

    /// Feeds the accumulator one generation's best score.
    pub fn observe(&mut self, generation: usize, score: CliffScore)
        ensures
            (final(self).best, final(self).generation_found) == spec_observe(
                old(self).best,
                old(self).generation_found,
                generation,
                score,
            ),
    {
        match &self.best {
            None => {
                self.best = Some(score);
                self.generation_found = generation;
            },
            Some(b) => {
                if b.lt(&score) {
                    self.best = Some(score);
                    self.generation_found = generation;
                }
            },
        }
    }

    /// Finalizes the accumulator into the run's summary record; a run
    /// that observed nothing is a defect and is rejected.
    pub fn finalize(self, generation_count: usize, run_number: usize, run_time_ms: u128) -> (r:
        Result<RunResult, RunError>)
        ensures
            match self.best {
                None => r == Err::<RunResult, RunError>(RunError::EmptyRun),
                Some(b) => r matches Ok(res) && res == (RunResult {
                    generation_count,
                    run_number,
                    best_score: b,
                    generation_found: self.generation_found,
                    run_time_ms,
                }),
            },
    {
        match self.best {
            None => Err(RunError::EmptyRun),
            Some(b) => Ok(
                RunResult {
                    generation_count,
                    run_number,
                    best_score: b,
                    generation_found: self.generation_found,
                    run_time_ms,
                },
            ),
        }
    }
}

/// Folds a whole run's generation-best scores, in generation order,
/// through the accumulator. The result is the maximum score under the
/// cliff order together with the earliest generation that reached it,
/// and is `None` exactly for a run with no generations.
pub fn best_of_run(scores: &Vec<CliffScore>) -> (r: Option<(CliffScore, usize)>)
    ensures
        r is None <==> scores@.len() == 0,
        r matches Some(p) ==> is_first_best(scores@, p.0, p.1 as int),
{
    let mut tracker = RunTracker::new();
    let n: usize = scores.len();
    let mut g: usize = 0;
    while g < n
        invariant
            n == scores@.len(),
            0 <= g <= n,
            g == 0 ==> tracker.best is None,
            g > 0 ==> (tracker.best matches Some(b) && tracker.generation_found < g
                && is_first_best(scores@.take(g as int), b, tracker.generation_found as int)),
        decreases n - g,
    {
        let ghost old_tracker = tracker;
        tracker.observe(g, scores[g]);
        proof {
            let pre = scores@.take(g as int);
            let cur = scores@.take(g as int + 1);
            assert(cur == pre.push(scores@[g as int]));
            match old_tracker.best {
                None => {
                    assert(is_first_best(cur, scores@[g as int], g as int));
                },
                Some(b) => {
                    let f = old_tracker.generation_found as int;
                    if spec_lt(b, scores@[g as int]) {
                        assert forall|i: int| 0 <= i < cur.len() implies spec_le(
                            #[trigger] cur[i],
                            scores@[g as int],
                        ) by {
                            if i < g {
                                crate::cliff_score::lemma_order_transitive(
                                    cur[i],
                                    b,
                                    scores@[g as int],
                                );
                                crate::cliff_score::lemma_order_total(cur[i], scores@[g as int]);
                            }
                        }
                        assert forall|i: int| 0 <= i < g implies spec_lt(
                            #[trigger] cur[i],
                            scores@[g as int],
                        ) by {
                            crate::cliff_score::lemma_order_total(cur[i], b);
                            crate::cliff_score::lemma_order_total(cur[i], scores@[g as int]);
                        }
                        assert(is_first_best(cur, scores@[g as int], g as int));
                    } else {
                        crate::cliff_score::lemma_order_total(b, scores@[g as int]);
                        assert(spec_le(scores@[g as int], b));
                        assert(is_first_best(cur, b, f));
                    }
                },
            }
        }
        g += 1;
    }
    match tracker.best {
        None => None,
        Some(b) => {
            proof {
                assert(scores@.take(n as int) == scores@);
            }
            Some((b, tracker.generation_found))
        },
    }
}

} // verus!
