//! A rectangular grid of `ROWS x COLUMNS` cells. The top-right and
//! bottom-left corners are terminal; reaching the top-right corner scores -3,
//! the bottom-left corner +1. Actions: 0 up, 1 down, 2 left, 3 right.

use vstd::prelude::*;
use crate::contracts::mdp_env::MDPEnv;
use crate::contracts::model_free_env::ModelFreeEnv;
use crate::fixed::SCALE;
use crate::rng;

verus! {

pub struct GridWorld<const ROWS: usize, const COLUMNS: usize> {
    current_row: usize,
    current_column: usize,
}

impl<const ROWS: usize, const COLUMNS: usize> MDPEnv for GridWorld<ROWS, COLUMNS> {
    open spec fn spec_valid() -> bool {
        ROWS >= 1 && COLUMNS >= 1 && (ROWS as int) * (COLUMNS as int) <= usize::MAX as int
    }

    open spec fn spec_num_states() -> nat {
        (ROWS * COLUMNS) as nat
    }

    open spec fn spec_num_actions() -> nat {
        4
    }

    open spec fn spec_num_rewards() -> nat {
        3
    }

    open spec fn spec_reward(index: int) -> int {
        if index == 0 {
            -3 * (SCALE as int)
        } else if index == 1 {
            0
        } else {
            SCALE as int
        }
    }

    open spec fn spec_transition_probability(state: int, action: int, next_state: int, reward_index: int) -> int {
        let c = COLUMNS as int;
        let r = ROWS as int;
        let row = state / c;
        let col = state % c;
        let next_row = next_state / c;
        let next_col = next_state % c;
        if state == 0 || state == (r - 1) * c + (c - 1) {
            0
        } else if action == 0 && row > 0 && next_row == row - 1 && next_col == col {
            if reward_index == 0 {
                500_000
            } else if reward_index == 1 {
                700_000
            } else if reward_index == 2 {
                900_000
            } else {
                0
            }
        } else if action == 1 && row < r - 1 && next_row == row + 1 && next_col == col {
            if reward_index == 0 {
                600_000
            } else if reward_index == 1 {
                800_000
            } else if reward_index == 2 {
                950_000
            } else {
                0
            }
        } else if action == 2 && col > 0 && next_row == row && next_col == col - 1 {
            if reward_index == 0 {
                400_000
            } else if reward_index == 1 {
                750_000
            } else if reward_index == 2 {
                850_000
            } else {
                0
            }
        } else if action == 3 && col < c - 1 && next_row == row && next_col == col + 1 {
            if reward_index == 0 {
                300_000
            } else if reward_index == 1 {
                700_000
            } else if reward_index == 2 {
                900_000
            } else {
                0
            }
        } else {
            0
        }
    }

    fn num_states() -> (n: usize) {
        proof {
            assert((ROWS as int) * (COLUMNS as int) >= 1) by (nonlinear_arith)
                requires
                    ROWS >= 1,
                    COLUMNS >= 1,
            ;
        }
        ROWS * COLUMNS
    }

    fn num_actions() -> usize {
        4
    }

    fn num_rewards() -> usize {
        3
    }

    fn reward(index: usize) -> i64 {
        if index == 0 {
            -3 * SCALE
        } else if index == 1 {
            0
        } else {
            SCALE
        }
    }

    fn transition_probability(state: usize, action: usize, next_state: usize, reward_index: usize) -> i64 {
        let row = state / COLUMNS;
        let col = state % COLUMNS;
        let next_row = next_state / COLUMNS;
        let next_col = next_state % COLUMNS;
        proof {
            assert((ROWS as int - 1) * (COLUMNS as int) + (COLUMNS as int - 1)
                == (ROWS as int) * (COLUMNS as int) - 1) by (nonlinear_arith);
            assert((ROWS as int) * (COLUMNS as int) >= 1) by (nonlinear_arith)
                requires
                    ROWS >= 1,
                    COLUMNS >= 1,
            ;
        }
        if state == 0 || state == (ROWS - 1) * COLUMNS + (COLUMNS - 1) {
            return 0;
        }
        if action == 0 && row > 0 && next_row + 1 == row && next_col == col {
            if reward_index == 0 {
                500_000
            } else if reward_index == 1 {
                700_000
            } else {
                900_000
            }
        } else if action == 1 && row + 1 < ROWS && next_row == row + 1 && next_col == col {
            if reward_index == 0 {
                600_000
            } else if reward_index == 1 {
                800_000
            } else {
                950_000
            }
        } else if action == 2 && col > 0 && next_row == row && next_col + 1 == col {
            if reward_index == 0 {
                400_000
            } else if reward_index == 1 {
                750_000
            } else {
                850_000
            }
        } else if action == 3 && col + 1 < COLUMNS && next_row == row && next_col == col + 1 {
            if reward_index == 0 {
                300_000
            } else if reward_index == 1 {
                700_000
            } else {
                900_000
            }
        } else {
            0
        }
    }
}

impl<const ROWS: usize, const COLUMNS: usize> ModelFreeEnv for GridWorld<ROWS, COLUMNS> {
    open spec fn spec_valid() -> bool {
        ROWS >= 1 && COLUMNS >= 1 && (ROWS as int) * (COLUMNS as int) <= usize::MAX as int
    }

    closed spec fn inv(&self) -> bool {
        self.current_row < ROWS && self.current_column < COLUMNS
    }

    closed spec fn spec_is_start(&self) -> bool {
        self.current_row == 0 && self.current_column == 0
    }

    open spec fn spec_num_states() -> nat {
        (ROWS * COLUMNS) as nat
    }

    open spec fn spec_num_actions() -> nat {
        4
    }

    closed spec fn spec_state_id(&self) -> nat {
        (self.current_row * COLUMNS + self.current_column) as nat
    }

    closed spec fn spec_is_game_over(&self) -> bool {
        (self.current_row == 0 && self.current_column == COLUMNS - 1) || (self.current_row
            == ROWS - 1 && self.current_column == 0)
    }

    closed spec fn spec_score(&self) -> int {
        if self.current_row == 0 && self.current_column == COLUMNS - 1 {
            -3 * (SCALE as int)
        } else if self.current_row == ROWS - 1 && self.current_column == 0 {
            SCALE as int
        } else {
            0
        }
    }

    closed spec fn spec_is_forbidden(&self, action: int) -> bool {
        if action == 0 {
            self.current_row == 0
        } else if action == 1 {
            self.current_row == ROWS - 1
        } else if action == 2 {
            self.current_column == 0
        } else if action == 3 {
            self.current_column == COLUMNS - 1
        } else {
            false
        }
    }

    closed spec fn spec_step(&self, action: int) -> Self {
        if action == 0 {
            GridWorld {
                current_row: (self.current_row - 1) as usize,
                current_column: self.current_column,
            }
        } else if action == 1 {
            GridWorld {
                current_row: (self.current_row + 1) as usize,
                current_column: self.current_column,
            }
        } else if action == 2 {
            GridWorld {
                current_row: self.current_row,
                current_column: (self.current_column - 1) as usize,
            }
        } else {
            GridWorld {
                current_row: self.current_row,
                current_column: (self.current_column + 1) as usize,
            }
        }
    }

    fn new() -> Self {
        GridWorld { current_row: 0, current_column: 0 }
    }

    fn from_random_state() -> Self {
        GridWorld {
            current_row: rng::random_index(ROWS),
            current_column: rng::random_index(COLUMNS),
        }
    }

    fn num_states() -> (n: usize) {
        proof {
            assert((ROWS as int) * (COLUMNS as int) >= 1) by (nonlinear_arith)
                requires
                    ROWS >= 1,
                    COLUMNS >= 1,
            ;
        }
        ROWS * COLUMNS
    }

    fn num_actions() -> usize {
        4
    }

    fn reset(&mut self) {
        *self = GridWorld { current_row: 0, current_column: 0 };
    }

    fn is_game_over(&self) -> bool {
        (self.current_row == 0 && self.current_column == COLUMNS - 1) || (self.current_row
            == ROWS - 1 && self.current_column == 0)
    }

    fn score(&self) -> i64 {
        if self.current_row == 0 && self.current_column == COLUMNS - 1 {
            -3 * SCALE
        } else if self.current_row == ROWS - 1 && self.current_column == 0 {
            SCALE
        } else {
            0
        }
    }

    fn state_id(&self) -> (s: usize) {
        proof {
            assert((self.current_row as int) * (COLUMNS as int) + (self.current_column as int)
                < (ROWS as int) * (COLUMNS as int)) by (nonlinear_arith)
                requires
                    self.current_row < ROWS,
                    self.current_column < COLUMNS,
            ;
        }
        self.current_row * COLUMNS + self.current_column
    }

    fn is_forbidden(&self, action: usize) -> bool {
        if action == 0 {
            self.current_row == 0
        } else if action == 1 {
            self.current_row == ROWS - 1
        } else if action == 2 {
            self.current_column == 0
        } else if action == 3 {
            self.current_column == COLUMNS - 1
        } else {
            false
        }
    }

    fn available_actions(&self) -> (acts: Vec<usize>) {
        let mut acts: Vec<usize> = Vec::new();
        let ghost mut i0: int = 0;
        let ghost mut i1: int = 0;
        let ghost mut i2: int = 0;
        let ghost mut i3: int = 0;
        if self.current_row > 0 {
            acts.push(0);
            proof {
                i0 = acts@.len() - 1;
            }
        }
        if self.current_row < ROWS - 1 {
            acts.push(1);
            proof {
                i1 = acts@.len() - 1;
            }
        }
        if self.current_column > 0 {
            acts.push(2);
            proof {
                i2 = acts@.len() - 1;
            }
        }
        if self.current_column < COLUMNS - 1 {
            acts.push(3);
            proof {
                i3 = acts@.len() - 1;
            }
        }
        proof {
            if self.current_row > 0 {
                assert(acts@[i0] == 0usize);
                assert(acts@.contains(0usize));
            }
            if self.current_row < ROWS - 1 {
                assert(acts@[i1] == 1usize);
                assert(acts@.contains(1usize));
            }
            if self.current_column > 0 {
                assert(acts@[i2] == 2usize);
                assert(acts@.contains(2usize));
            }
            if self.current_column < COLUMNS - 1 {
                assert(acts@[i3] == 3usize);
                assert(acts@.contains(3usize));
            }
        }
        acts
    }

    fn step(&mut self, action: usize) {
        if action == 0 {
            self.current_row = self.current_row - 1;
        } else if action == 1 {
            self.current_row = self.current_row + 1;
        } else if action == 2 {
            self.current_column = self.current_column - 1;
        } else {
            self.current_column = self.current_column + 1;
        }
    }
}

} // verus!
