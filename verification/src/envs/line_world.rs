//! A one-dimensional world of `NB_CELLS` cells. Both end cells are terminal:
//! reaching the left one scores -1, the right one +1. Action 0 moves left,
//! action 1 moves right.

use vstd::prelude::*;
use crate::contracts::mdp_env::MDPEnv;
use crate::contracts::model_free_env::ModelFreeEnv;
use crate::fixed::SCALE;
use crate::rng;

verus! {

pub struct LineWorld<const NB_CELLS: usize> {
    current_cell: usize,
}

impl<const NB_CELLS: usize> MDPEnv for LineWorld<NB_CELLS> {
    open spec fn spec_valid() -> bool {
        NB_CELLS >= 2
    }

    open spec fn spec_num_states() -> nat {
        NB_CELLS as nat
    }

    open spec fn spec_num_actions() -> nat {
        2
    }

    open spec fn spec_num_rewards() -> nat {
        3
    }

    open spec fn spec_reward(index: int) -> int {
        if index == 0 {
            -(SCALE as int)
        } else if index == 1 {
            0
        } else {
            SCALE as int
        }
    }

    open spec fn spec_transition_probability(state: int, action: int, next_state: int, reward_index: int) -> int {
        let n = NB_CELLS as int;
        if state == 0 || state == n - 1 {
            0
        } else if action == 1 && reward_index == 1 && 1 <= state < n - 2 && next_state == state + 1 {
            SCALE as int
        } else if action == 0 && reward_index == 1 && 2 <= state < n - 1 && state == next_state + 1 {
            SCALE as int
        } else if state == 1 && action == 0 && next_state == 0 && reward_index == 0 {
            SCALE as int
        } else if action == 1 && reward_index == 2 && state == n - 2 && next_state == state + 1 {
            SCALE as int
        } else {
            0
        }
    }

    fn num_states() -> usize {
        NB_CELLS
    }

    fn num_actions() -> usize {
        2
    }

    fn num_rewards() -> usize {
        3
    }

    fn reward(index: usize) -> i64 {
        if index == 0 {
            -SCALE
        } else if index == 1 {
            0
        } else {
            SCALE
        }
    }

    fn transition_probability(state: usize, action: usize, next_state: usize, reward_index: usize) -> i64 {
        if state == 0 || state == NB_CELLS - 1 {
            0
        } else if action == 1 && reward_index == 1 && 1 <= state && state + 2 < NB_CELLS
            && next_state == state + 1 {
            SCALE
        } else if action == 0 && reward_index == 1 && 2 <= state && state < NB_CELLS - 1
            && state == next_state + 1 {
            SCALE
        } else if state == 1 && action == 0 && next_state == 0 && reward_index == 0 {
            SCALE
        } else if action == 1 && reward_index == 2 && state == NB_CELLS - 2
            && next_state == state + 1 {
            SCALE
        } else {
            0
        }
    }
}

impl<const NB_CELLS: usize> ModelFreeEnv for LineWorld<NB_CELLS> {
    open spec fn spec_valid() -> bool {
        NB_CELLS >= 2
    }

    closed spec fn inv(&self) -> bool {
        self.current_cell < NB_CELLS
    }

    closed spec fn spec_is_start(&self) -> bool {
        self.current_cell == NB_CELLS / 2
    }

    open spec fn spec_num_states() -> nat {
        NB_CELLS as nat
    }

    open spec fn spec_num_actions() -> nat {
        2
    }

    closed spec fn spec_state_id(&self) -> nat {
        self.current_cell as nat
    }

    closed spec fn spec_is_game_over(&self) -> bool {
        self.current_cell == 0 || self.current_cell == NB_CELLS - 1
    }

    closed spec fn spec_score(&self) -> int {
        if self.current_cell == 0 {
            -(SCALE as int)
        } else if self.current_cell == NB_CELLS - 1 {
            SCALE as int
        } else {
            0
        }
    }

    closed spec fn spec_is_forbidden(&self, action: int) -> bool {
        self.spec_is_game_over() && !(0 <= action <= 1)
    }

    closed spec fn spec_step(&self, action: int) -> Self {
        LineWorld {
            current_cell: if action == 0 {
                (self.current_cell - 1) as usize
            } else {
                (self.current_cell + 1) as usize
            },
        }
    }

    fn new() -> Self {
        LineWorld { current_cell: NB_CELLS / 2 }
    }

    fn from_random_state() -> Self {
        LineWorld { current_cell: rng::random_index(NB_CELLS) }
    }

    fn num_states() -> usize {
        NB_CELLS
    }

    fn num_actions() -> usize {
        2
    }

    fn reset(&mut self) {
        *self = LineWorld { current_cell: NB_CELLS / 2 };
    }

    fn is_game_over(&self) -> bool {
        self.current_cell == 0 || self.current_cell == NB_CELLS - 1
    }

    fn score(&self) -> i64 {
        if self.current_cell == 0 {
            -SCALE
        } else if self.current_cell == NB_CELLS - 1 {
            SCALE
        } else {
            0
        }
    }

    fn state_id(&self) -> usize {
        self.current_cell
    }

    fn is_forbidden(&self, action: usize) -> bool {
        (self.current_cell == 0 || self.current_cell == NB_CELLS - 1) && action > 1
    }

    fn available_actions(&self) -> (acts: Vec<usize>) {
        let mut acts: Vec<usize> = Vec::new();
        if self.current_cell == 0 || self.current_cell == NB_CELLS - 1 {
            acts
        } else {
            acts.push(0);
            acts.push(1);
            proof {
                assert(acts@[0] == 0usize);
                assert(acts@[1] == 1usize);
            }
            acts
        }
    }

    fn step(&mut self, action: usize) {
        if action == 0 {
            self.current_cell = self.current_cell - 1;
        } else {
            self.current_cell = self.current_cell + 1;
        }
    }
}

} // verus!
