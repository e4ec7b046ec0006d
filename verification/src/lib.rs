//! Verified simulation of a single ice-hockey game.
//!
//! The crate turns two roster descriptions into one simulated game outcome:
//! a final score and a per-player boxscore, with overtime and shootout
//! resolution when regulation ends tied.  All arithmetic is fixed-point
//! (millionths), so every rating and probability is an exact integer and the
//! contracts below pin down what each stage computes.
//!
//! Module map, in dependency order:
//! - [`fixed`]: the fixed-point scale and arithmetic helpers.
//! - [`types`]: players, line assignments, teams, play styles, results.
//! - [`rng`]: the seeded random source (the only nondeterminism).
//! - [`rating`]: pure team/line rating formulas.
//! - [`sampler`]: one stochastic play: shot attempt, quality, goal, assists.
//! - [`stats`]: the mutable per-player boxscore records.
//! - [`phase`]: periods, overtime and shootout control flow.

pub mod fixed;
pub mod types;
pub mod rng;
pub mod rating;
pub mod sampler;
pub mod stats;
pub mod phase;

