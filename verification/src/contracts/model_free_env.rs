//! Capability contract of an interaction-only environment.

use vstd::prelude::*;
use crate::fixed::SCORE_MAX;

verus! {

/// An environment queried only through interaction: reset, observe, step.
///
/// Each implementing type carries an invariant `inv` that construction
/// establishes and stepping preserves, and a ghost transition function
/// `spec_step` that pins down exactly how `step` changes the state. Scores
/// are fixed-point scalars bounded by `SCORE_MAX`. Episode termination is an
/// obligation of the environment, not of the algorithms.
///
/// Taking a step with a forbidden action is a contract violation by the
/// caller; `step`'s precondition rules it out, and the algorithms either
/// prove their choices legal or check legality and abort the run with a
/// distinct error.
pub trait ModelFreeEnv: Sized {
    /// The type's parameters describe a usable environment.
    spec fn spec_valid() -> bool;

    /// Well-formedness of a constructed environment value.
    spec fn inv(&self) -> bool;

    /// The states that `new` and `reset` can produce. For a deterministic
    /// environment this pins the start state exactly; for one whose start is
    /// drawn at random it says what holds of every draw.
    spec fn spec_is_start(&self) -> bool;

    spec fn spec_num_states() -> nat;

    spec fn spec_num_actions() -> nat;

    spec fn spec_state_id(&self) -> nat;

    spec fn spec_is_game_over(&self) -> bool;

    spec fn spec_score(&self) -> int;

    spec fn spec_is_forbidden(&self, action: int) -> bool;

    /// The state reached by taking `action`; `step` realizes exactly this.
    spec fn spec_step(&self, action: int) -> Self;

    fn new() -> (e: Self)
        requires
            Self::spec_valid(),
        ensures
            e.inv(),
            e.spec_is_start(),
    ;

    /// Construction from a randomly drawn initial state.
    fn from_random_state() -> (e: Self)
        requires
            Self::spec_valid(),
        ensures
            e.inv(),
    ;

    fn num_states() -> (n: usize)
        requires
            Self::spec_valid(),
        ensures
            n as nat == Self::spec_num_states(),
            n >= 1,
    ;

    fn num_actions() -> (n: usize)
        requires
            Self::spec_valid(),
        ensures
            n as nat == Self::spec_num_actions(),
            n >= 1,
    ;

    fn reset(&mut self)
        requires
            Self::spec_valid(),
        ensures
            final(self).inv(),
            final(self).spec_is_start(),
    ;

    fn is_game_over(&self) -> (b: bool)
        requires
            Self::spec_valid(),
            self.inv(),
        ensures
            b == self.spec_is_game_over(),
    ;

    fn score(&self) -> (s: i64)
        requires
            Self::spec_valid(),
            self.inv(),
        ensures
            s as int == self.spec_score(),
            -(SCORE_MAX as int) <= s as int <= SCORE_MAX as int,
    ;

    fn state_id(&self) -> (s: usize)
        requires
            Self::spec_valid(),
            self.inv(),
        ensures
            s as nat == self.spec_state_id(),
            (s as nat) < Self::spec_num_states(),
    ;

    fn is_forbidden(&self, action: usize) -> (b: bool)
        requires
            Self::spec_valid(),
            self.inv(),
        ensures
            b == self.spec_is_forbidden(action as int),
    ;

    /// The legal actions of the current state, in strictly increasing order.
    /// Outside a terminal state the list is non-empty and holds exactly the
    /// in-range actions that are not forbidden.
    fn available_actions(&self) -> (acts: Vec<usize>)
        requires
            Self::spec_valid(),
            self.inv(),
        ensures
            forall|i: int|
                0 <= i < acts@.len() ==> (acts@[i] as nat) < Self::spec_num_actions()
                    && !self.spec_is_forbidden(acts@[i] as int),
            forall|i: int, j: int| 0 <= i < j < acts@.len() ==> acts@[i] < acts@[j],
            !self.spec_is_game_over() ==> acts@.len() >= 1,
            !self.spec_is_game_over() ==> forall|a: int|
                0 <= a < Self::spec_num_actions() && !self.spec_is_forbidden(a)
                    ==> acts@.contains(a as usize),
    ;

    fn step(&mut self, action: usize)
        requires
            Self::spec_valid(),
            old(self).inv(),
            !old(self).spec_is_game_over(),
            (action as nat) < Self::spec_num_actions(),
            !old(self).spec_is_forbidden(action as int),
        ensures
            *final(self) == old(self).spec_step(action as int),
            final(self).inv(),
    ;
}

} // verus!
