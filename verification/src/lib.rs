//! A combat-encounter simulator: many independent trials of a turn-based
//! encounter are run and aggregated into a deduplicated probabilistic graph
//! (the state tree), from which outcome probabilities can be queried.
//!
//! The simulation state may only be mutated through the closed set of
//! deterministic [`transition::Transition`] edits, which makes every state
//! reached by a trial reproducible by replaying the recorded transitions
//! from the tree root.

pub mod actions;
pub mod actor;
pub mod codec;
pub mod damage;
pub mod death;
pub mod decode;
pub mod dice;
pub mod error;
pub mod evaluator;
pub mod hook;
pub mod integration;
pub mod items;
pub mod pmf;
pub mod policy;
pub mod roller;
pub mod saves;
pub mod skills;
pub mod spells;
pub mod state;
pub mod state_tree;
pub mod statistics;
pub mod stats;
pub mod transition;
pub mod utils;

pub use stats::Stat;
pub use stats::Stats;
