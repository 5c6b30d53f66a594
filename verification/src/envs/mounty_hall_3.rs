//! A three-door selection puzzle. A prize hides behind one door, the player
//! has picked one, and the host has opened a door that holds no prize and was
//! not picked. Action 0 keeps the picked door, action 1 switches to the
//! remaining closed door; either ends the game. Winning scores +1, losing -1.

use vstd::prelude::*;
use crate::contracts::mdp_env::MDPEnv;
use crate::contracts::model_free_env::ModelFreeEnv;
use crate::fixed::SCALE;
use crate::rng;

verus! {

pub struct MontyHall {
    current_door: usize,
    prize_door: usize,
    host_door: usize,
    game_over: bool,
}

impl MDPEnv for MontyHall {
    open spec fn spec_valid() -> bool {
        true
    }

    open spec fn spec_num_states() -> nat {
        18
    }

    open spec fn spec_num_actions() -> nat {
        2
    }

    open spec fn spec_num_rewards() -> nat {
        2
    }

    open spec fn spec_reward(index: int) -> int {
        if index == 0 {
            -(SCALE as int)
        } else {
            SCALE as int
        }
    }

    /// A deliberately coarse model, kept as the environment defines it:
    /// switching is paired with the winning reward and keeping with the
    /// losing one, for every state pair.
    open spec fn spec_transition_probability(state: int, action: int, next_state: int, reward_index: int) -> int {
        if reward_index == 1 && action == 1 {
            SCALE as int
        } else if reward_index == 0 && action == 0 {
            SCALE as int
        } else {
            0
        }
    }

    fn num_states() -> usize {
        18
    }

    fn num_actions() -> usize {
        2
    }

    fn num_rewards() -> usize {
        2
    }

    fn reward(index: usize) -> i64 {
        if index == 0 {
            -SCALE
        } else {
            SCALE
        }
    }

    fn transition_probability(state: usize, action: usize, next_state: usize, reward_index: usize) -> i64 {
        if reward_index == 1 && action == 1 {
            SCALE
        } else if reward_index == 0 && action == 0 {
            SCALE
        } else {
            0
        }
    }
}

impl ModelFreeEnv for MontyHall {
    open spec fn spec_valid() -> bool {
        true
    }

    closed spec fn inv(&self) -> bool {
        self.current_door < 3 && self.prize_door < 3 && self.host_door < 3 && self.host_door
            != self.prize_door && self.host_door != self.current_door
    }

    open spec fn spec_num_states() -> nat {
        18
    }

    open spec fn spec_num_actions() -> nat {
        2
    }

    closed spec fn spec_is_start(&self) -> bool {
        !self.game_over
    }

    closed spec fn spec_state_id(&self) -> nat {
        (self.current_door + self.prize_door * 3 + if self.game_over {
            9int
        } else {
            0int
        }) as nat
    }

    closed spec fn spec_is_game_over(&self) -> bool {
        self.game_over
    }

    closed spec fn spec_score(&self) -> int {
        if self.game_over {
            if self.current_door == self.prize_door {
                SCALE as int
            } else {
                -(SCALE as int)
            }
        } else {
            0
        }
    }

    closed spec fn spec_is_forbidden(&self, action: int) -> bool {
        !(0 <= action <= 1) || self.game_over
    }

    closed spec fn spec_step(&self, action: int) -> Self {
        MontyHall {
            current_door: if action == 0 {
                self.current_door
            } else {
                (3 - self.current_door - self.host_door) as usize
            },
            prize_door: self.prize_door,
            host_door: self.host_door,
            game_over: true,
        }
    }

    fn new() -> Self {
        let prize_door = rng::random_index(3);
        let current_door = rng::random_index(3);
        let host_door = if 0 != prize_door && 0 != current_door {
            0
        } else if 1 != prize_door && 1 != current_door {
            1
        } else {
            2
        };
        MontyHall { current_door, prize_door, host_door, game_over: false }
    }

    fn from_random_state() -> Self {
        let prize_door = rng::random_index(3);
        let current_door = rng::random_index(3);
        let host_door = if 0 != prize_door && 0 != current_door {
            0
        } else if 1 != prize_door && 1 != current_door {
            1
        } else {
            2
        };
        MontyHall { current_door, prize_door, host_door, game_over: false }
    }

    fn num_states() -> usize {
        18
    }

    fn num_actions() -> usize {
        2
    }

    fn reset(&mut self) {
        let prize_door = rng::random_index(3);
        let current_door = rng::random_index(3);
        let host_door = if 0 != prize_door && 0 != current_door {
            0
        } else if 1 != prize_door && 1 != current_door {
            1
        } else {
            2
        };
        *self = MontyHall { current_door, prize_door, host_door, game_over: false };
    }

    fn is_game_over(&self) -> bool {
        self.game_over
    }

    fn score(&self) -> i64 {
        if self.game_over {
            if self.current_door == self.prize_door {
                SCALE
            } else {
                -SCALE
            }
        } else {
            0
        }
    }

    fn state_id(&self) -> usize {
        self.current_door + self.prize_door * 3 + if self.game_over {
            9
        } else {
            0
        }
    }

    fn is_forbidden(&self, action: usize) -> bool {
        action > 1 || self.game_over
    }

    fn available_actions(&self) -> (acts: Vec<usize>) {
        let mut acts: Vec<usize> = Vec::new();
        if self.game_over {
            acts
        } else {
            acts.push(0);
            acts.push(1);
            proof {
                assert(acts@[0] == 0usize);
                assert(acts@[1] == 1usize);
            }
            acts
        }
    }

    fn step(&mut self, action: usize) {
        if action == 1 {
            self.current_door = 3 - self.current_door - self.host_door;
        }
        self.game_over = true;
    }
}

} // verus!
