//! Verified core of a 0/1 knapsack experiment: cliff-scored fitness
//! evaluation and the bookkeeping of a multi-run experiment sweep.
//!
//! The evolutionary engine that breeds genomes is an outside collaborator;
//! this library holds the problem instance, the scoring rule, the
//! best-of-run accumulator and the sweep plan, each with a proved contract.

pub mod cliff_score;
pub mod cliff_scorer;
pub mod item;
pub mod knapsack;
pub mod run_tracker;
pub mod source;
pub mod sweep;

pub use cliff_score::CliffScore;
pub use cliff_scorer::CliffScorer;
pub use item::Item;
pub use knapsack::Knapsack;
pub use knapsack::KnapsackError;
pub use run_tracker::RunError;
pub use run_tracker::RunResult;
pub use run_tracker::RunTracker;
pub use sweep::SweepEntry;
pub use sweep::SweepGroup;
