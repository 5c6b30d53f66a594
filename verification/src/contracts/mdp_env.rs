//! Capability contract of a discrete Markov decision process.

use vstd::prelude::*;
use crate::fixed::{SCALE, SCORE_MAX};

verus! {

/// A discrete MDP: state, action and reward-index counts, a reward value for
/// each reward index, and a joint transition probability
/// `p(next_state, reward_index | state, action)`.
///
/// Rewards are fixed-point scalars bounded by `SCORE_MAX`; probabilities are
/// fixed-point fractions in `[0, SCALE]`. The tensor is treated as an oracle:
/// nothing here demands that probabilities sum to one. `spec_valid` says that
/// the type's parameters describe a usable environment; every method assumes
/// it.
pub trait MDPEnv: Sized {
    /// The type's parameters describe a usable environment.
    spec fn spec_valid() -> bool;

    spec fn spec_num_states() -> nat;

    spec fn spec_num_actions() -> nat;

    spec fn spec_num_rewards() -> nat;

    /// Reward value for an in-range reward index.
    spec fn spec_reward(index: int) -> int;

    /// `p(next_state, reward_index | state, action)` as a fraction of `SCALE`.
    spec fn spec_transition_probability(state: int, action: int, next_state: int, reward_index: int) -> int;

    fn num_states() -> (n: usize)
        requires
            Self::spec_valid(),
        ensures
            n as nat == Self::spec_num_states(),
            n >= 1,
    ;

    fn num_actions() -> (n: usize)
        requires
            Self::spec_valid(),
        ensures
            n as nat == Self::spec_num_actions(),
            n >= 1,
    ;

    fn num_rewards() -> (n: usize)
        requires
            Self::spec_valid(),
        ensures
            n as nat == Self::spec_num_rewards(),
    ;

    /// Looking a reward up outside `0..num_rewards` is a programmer error and
    /// is ruled out by the precondition.
    fn reward(index: usize) -> (r: i64)
        requires
            Self::spec_valid(),
            (index as nat) < Self::spec_num_rewards(),
        ensures
            r as int == Self::spec_reward(index as int),
            -(SCORE_MAX as int) <= r as int <= SCORE_MAX as int,
    ;

    fn transition_probability(state: usize, action: usize, next_state: usize, reward_index: usize) -> (p: i64)
        requires
            Self::spec_valid(),
            (state as nat) < Self::spec_num_states(),
            (action as nat) < Self::spec_num_actions(),
            (next_state as nat) < Self::spec_num_states(),
            (reward_index as nat) < Self::spec_num_rewards(),
        ensures
            p as int == Self::spec_transition_probability(
                state as int,
                action as int,
                next_state as int,
                reward_index as int,
            ),
            0 <= p as int <= SCALE as int,
    ;
}

} // verus!
