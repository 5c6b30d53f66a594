//! Concrete behaviour of the bundled environments.

use tabular_rl::contracts::mdp_env::MDPEnv;
use tabular_rl::contracts::model_free_env::ModelFreeEnv;
use tabular_rl::envs::grid_world::GridWorld;
use tabular_rl::envs::line_world::LineWorld;
use tabular_rl::envs::mounty_hall_3::MontyHall;
use tabular_rl::envs::rock_paper_scissors::{RockPaperScissors, beats_me};
use tabular_rl::fixed::SCALE;

#[test]
fn line_world_walk_to_the_right_terminal() {
    let mut env = LineWorld::<5>::new();
    assert_eq!(env.state_id(), 2);
    assert!(!env.is_game_over());
    assert_eq!(env.score(), 0);
    assert_eq!(env.available_actions(), vec![0, 1]);
    env.step(1);
    assert_eq!(env.state_id(), 3);
    env.step(1);
    assert_eq!(env.state_id(), 4);
    assert!(env.is_game_over());
    assert_eq!(env.score(), SCALE);
    assert!(env.available_actions().is_empty());
}

#[test]
fn line_world_left_terminal_scores_minus_one() {
    let mut env = LineWorld::<5>::new();
    env.step(0);
    env.step(0);
    assert_eq!(env.state_id(), 0);
    assert!(env.is_game_over());
    assert_eq!(env.score(), -SCALE);
}

#[test]
fn line_world_mdp_model() {
    type L = LineWorld<5>;
    assert_eq!(<L as MDPEnv>::num_states(), 5);
    assert_eq!(<L as MDPEnv>::num_actions(), 2);
    assert_eq!(<L as MDPEnv>::num_rewards(), 3);
    assert_eq!(<L as MDPEnv>::reward(0), -SCALE);
    assert_eq!(<L as MDPEnv>::reward(1), 0);
    assert_eq!(<L as MDPEnv>::reward(2), SCALE);
    // moving right in the middle: neutral reward, probability one
    assert_eq!(<L as MDPEnv>::transition_probability(2, 1, 3, 1), SCALE);
    // stepping into the right terminal earns the +1 reward
    assert_eq!(<L as MDPEnv>::transition_probability(3, 1, 4, 2), SCALE);
    // stepping into the left terminal earns the -1 reward
    assert_eq!(<L as MDPEnv>::transition_probability(1, 0, 0, 0), SCALE);
    // no transitions out of terminals
    assert_eq!(<L as MDPEnv>::transition_probability(0, 1, 1, 1), 0);
    assert_eq!(<L as MDPEnv>::transition_probability(4, 0, 3, 1), 0);
}

#[test]
fn grid_world_moves_and_terminals() {
    let mut env = GridWorld::<4, 4>::new();
    assert_eq!(env.state_id(), 0);
    // at the top-left corner, up and left are forbidden
    assert!(env.is_forbidden(0));
    assert!(!env.is_forbidden(1));
    assert!(env.is_forbidden(2));
    assert!(!env.is_forbidden(3));
    assert_eq!(env.available_actions(), vec![1, 3]);
    // walk down to the bottom-left corner: the winning terminal
    env.step(1);
    env.step(1);
    env.step(1);
    assert_eq!(env.state_id(), 12);
    assert!(env.is_game_over());
    assert_eq!(env.score(), SCALE);
}

#[test]
fn grid_world_losing_corner() {
    let mut env = GridWorld::<4, 4>::new();
    env.step(3);
    env.step(3);
    env.step(3);
    assert_eq!(env.state_id(), 3);
    assert!(env.is_game_over());
    assert_eq!(env.score(), -3 * SCALE);
}

#[test]
fn grid_world_transition_probabilities() {
    type G = GridWorld<4, 4>;
    assert_eq!(<G as MDPEnv>::num_states(), 16);
    assert_eq!(<G as MDPEnv>::num_rewards(), 3);
    assert_eq!(<G as MDPEnv>::reward(0), -3 * SCALE);
    // from (1,1) = state 5, moving up to (0,1) = state 1
    assert_eq!(<G as MDPEnv>::transition_probability(5, 0, 1, 0), 500_000);
    assert_eq!(<G as MDPEnv>::transition_probability(5, 0, 1, 1), 700_000);
    assert_eq!(<G as MDPEnv>::transition_probability(5, 0, 1, 2), 900_000);
    // moving right from (1,1) to (1,2) = state 6
    assert_eq!(<G as MDPEnv>::transition_probability(5, 3, 6, 1), 700_000);
    // no transition out of the terminal state 0
    assert_eq!(<G as MDPEnv>::transition_probability(0, 1, 4, 1), 0);
    // mismatched target cell
    assert_eq!(<G as MDPEnv>::transition_probability(5, 0, 2, 1), 0);
}

#[test]
fn beats_me_full_table() {
    // 0 rock, 1 paper, 2 scissors; +1 when the first beats the second
    assert_eq!(beats_me(0, 0), 0);
    assert_eq!(beats_me(0, 1), -1);
    assert_eq!(beats_me(0, 2), 1);
    assert_eq!(beats_me(1, 0), 1);
    assert_eq!(beats_me(1, 1), 0);
    assert_eq!(beats_me(1, 2), -1);
    assert_eq!(beats_me(2, 0), -1);
    assert_eq!(beats_me(2, 1), 1);
    assert_eq!(beats_me(2, 2), 0);
}

#[test]
fn rock_paper_scissors_one_round() {
    let mut env = RockPaperScissors::new();
    assert_eq!(env.state_id(), 0);
    assert!(!env.is_game_over());
    assert_eq!(env.score(), 0);
    assert_eq!(env.available_actions(), vec![0, 1, 2]);
    env.step(0);
    assert!(env.is_game_over());
    assert_eq!(env.state_id(), 1);
    // against an unknown opponent move, the score is one of the three outcomes
    assert!([-SCALE, 0, SCALE].contains(&env.score()));
}

#[test]
fn monty_hall_single_decision() {
    assert_eq!(<MontyHall as ModelFreeEnv>::num_states(), 18);
    assert_eq!(<MontyHall as ModelFreeEnv>::num_actions(), 2);
    for action in [0usize, 1] {
        let mut env = MontyHall::new();
        assert!(!env.is_game_over());
        assert!(env.state_id() < 9);
        assert_eq!(env.score(), 0);
        assert_eq!(env.available_actions(), vec![0, 1]);
        env.step(action);
        assert!(env.is_game_over());
        assert!(env.state_id() >= 9 && env.state_id() < 18);
        assert!(env.score() == SCALE || env.score() == -SCALE);
        assert!(env.available_actions().is_empty());
    }
}

#[test]
fn monty_hall_mdp_model() {
    assert_eq!(<MontyHall as MDPEnv>::num_rewards(), 2);
    assert_eq!(<MontyHall as MDPEnv>::reward(0), -SCALE);
    assert_eq!(<MontyHall as MDPEnv>::reward(1), SCALE);
    assert_eq!(<MontyHall as MDPEnv>::transition_probability(0, 1, 9, 1), SCALE);
    assert_eq!(<MontyHall as MDPEnv>::transition_probability(0, 0, 9, 0), SCALE);
    assert_eq!(<MontyHall as MDPEnv>::transition_probability(0, 0, 9, 1), 0);
}
