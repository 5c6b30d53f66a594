//! Tabular reinforcement learning over discrete Markov decision processes.
//!
//! The crate provides planning algorithms (policy iteration, value iteration)
//! over an [`contracts::mdp_env::MDPEnv`] model and learning algorithms
//! (Q-learning, SARSA, Monte Carlo control, Dyna-Q) over a
//! [`contracts::model_free_env::ModelFreeEnv`] environment, together with a
//! small set of concrete environments.
//!
//! All scalar quantities (rewards, probabilities, value estimates and the
//! hyperparameters gamma, epsilon, theta and the learning rate) are
//! fixed-point numbers: an `i64` that stands for `value / SCALE` with
//! `SCALE = 1_000_000`. Additions saturate at `VAL_MAX` micro-units; see
//! [`fixed`] for the exact arithmetic model.

pub mod algorithms;
pub mod contracts;
pub mod envs;
pub mod fixed;
pub mod rng;

use vstd::prelude::*;

verus! {

/// Failures that abort a learning run.
#[derive(Clone, Copy, Debug, PartialEq, Eq, Structural)]
pub enum RlError {
    /// An action outside the legal set was selected at step time: a
    /// contract violation, reported instead of stepping the environment
    /// (never silently clamped or ignored).
    ForbiddenAction,
}

} // verus!
