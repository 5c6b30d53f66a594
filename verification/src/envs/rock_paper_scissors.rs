//! A single round of rock-paper-scissors against an opponent whose move is
//! drawn at construction. Actions: 0 rock, 1 paper, 2 scissors. The score is
//! +1 for a win, -1 for a loss, 0 for a draw.

use vstd::prelude::*;
use crate::contracts::model_free_env::ModelFreeEnv;
use crate::fixed::SCALE;
use crate::rng;

verus! {

pub struct RockPaperScissors {
    round: usize,
    next_move: usize,
    total: i64,
}

/// +1 when `action` beats `my_move`, -1 when it loses, 0 on a draw.
pub open spec fn spec_beats(action: int, my_move: int) -> int {
    if action == my_move {
        0
    } else if action == 0 {
        if my_move == 1 {
            -1
        } else {
            1
        }
    } else if action == 1 {
        if my_move == 0 {
            1
        } else {
            -1
        }
    } else {
        if my_move == 0 {
            -1
        } else {
            1
        }
    }
}

/// Outcome of playing `action` against the environment's move `my_move`.
pub fn beats_me(action: usize, my_move: usize) -> (r: i64)
    requires
        action < 3,
        my_move < 3,
    ensures
        r as int == spec_beats(action as int, my_move as int),
{
    if action == 0 {
        if my_move == 0 {
            0
        } else if my_move == 1 {
            -1
        } else {
            1
        }
    } else if action == 1 {
        if my_move == 0 {
            1
        } else if my_move == 1 {
            0
        } else {
            -1
        }
    } else {
        if my_move == 0 {
            -1
        } else if my_move == 1 {
            1
        } else {
            0
        }
    }
}

impl ModelFreeEnv for RockPaperScissors {
    open spec fn spec_valid() -> bool {
        true
    }

    closed spec fn inv(&self) -> bool {
        self.round <= 1 && self.next_move < 3 && -1 <= self.total <= 1 && (self.round == 0
            ==> self.total == 0)
    }

    open spec fn spec_num_states() -> nat {
        2
    }

    open spec fn spec_num_actions() -> nat {
        3
    }

    closed spec fn spec_is_start(&self) -> bool {
        self.round == 0 && self.total == 0
    }

    closed spec fn spec_state_id(&self) -> nat {
        self.round as nat
    }

    closed spec fn spec_is_game_over(&self) -> bool {
        self.round >= 1
    }

    closed spec fn spec_score(&self) -> int {
        (self.total as int) * (SCALE as int)
    }

    closed spec fn spec_is_forbidden(&self, action: int) -> bool {
        self.spec_is_game_over() && !(0 <= action <= 2)
    }

    closed spec fn spec_step(&self, action: int) -> Self {
        RockPaperScissors {
            round: (self.round + 1) as usize,
            next_move: action as usize,
            total: (self.total + spec_beats(action, self.next_move as int)) as i64,
        }
    }

    fn new() -> Self {
        RockPaperScissors { round: 0, next_move: rng::random_index(3), total: 0 }
    }

    fn from_random_state() -> Self {
        RockPaperScissors { round: 0, next_move: rng::random_index(3), total: 0 }
    }

    fn num_states() -> usize {
        2
    }

    fn num_actions() -> usize {
        3
    }

    fn reset(&mut self) {
        *self = RockPaperScissors { round: 0, next_move: rng::random_index(3), total: 0 };
    }

    fn is_game_over(&self) -> bool {
        self.round >= 1
    }

    fn score(&self) -> i64 {
        self.total * SCALE
    }

    fn state_id(&self) -> usize {
        self.round
    }

    fn is_forbidden(&self, action: usize) -> bool {
        self.round >= 1 && action > 2
    }

    fn available_actions(&self) -> (acts: Vec<usize>) {
        let mut acts: Vec<usize> = Vec::new();
        if self.round >= 1 {
            acts
        } else {
            acts.push(0);
            acts.push(1);
            acts.push(2);
            proof {
                assert(acts@[0] == 0usize);
                assert(acts@[1] == 1usize);
                assert(acts@[2] == 2usize);
            }
            acts
        }
    }

    fn step(&mut self, action: usize) {
        let delta = beats_me(action, self.next_move);
        self.total = self.total + delta;
        self.next_move = action;
        self.round = self.round + 1;
    }
}

} // verus!
