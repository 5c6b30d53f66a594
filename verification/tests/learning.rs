//! Learning algorithms on the line world, the first-visit bookkeeping, and
//! the Dyna-Q model store.

use tabular_rl::algorithms::backup::Transition;
use tabular_rl::algorithms::dyna_q::{DynaModel, dyna_q};
use tabular_rl::algorithms::first_visit::{Step, first_visit_update};
use tabular_rl::algorithms::monte_carlo_exploring_starts::monte_carlo_exploring_starts;
use tabular_rl::algorithms::on_policy_monte_carlos::on_policy_monte_carlos;
use tabular_rl::algorithms::q_learning::q_learning;
use tabular_rl::algorithms::sarsa::sarsa;
use tabular_rl::envs::grid_world::GridWorld;
use tabular_rl::envs::line_world::LineWorld;
use tabular_rl::fixed::{SCALE, mean};

const ALPHA: i64 = 100_000; // 0.1
const GAMMA: i64 = 999_000; // 0.999

#[test]
fn q_learning_line_world_learns_to_move_right() {
    let q = q_learning::<LineWorld<5>>(10_000, ALPHA, GAMMA, SCALE).unwrap();
    assert_eq!(q.len(), 5);
    for row in &q {
        assert_eq!(row.len(), 2);
    }
    // in every non-terminal cell, moving right beats moving left
    for s in 1..4 {
        assert!(q[s][1] > q[s][0], "state {}: {:?}", s, q[s]);
    }
}

#[test]
fn sarsa_line_world_learns_to_move_right() {
    let q = sarsa::<LineWorld<5>>(10_000, ALPHA, GAMMA, 500_000);
    assert_eq!(q.len(), 5);
    for s in 2..4 {
        assert!(q[s][1] > q[s][0], "state {}: {:?}", s, q[s]);
    }
    // walking into the left terminal is clearly punished
    assert!(q[1][0] < 0);
}

#[test]
fn monte_carlo_exploring_starts_prefers_right_near_the_goal() {
    let (q, pi) = monte_carlo_exploring_starts::<LineWorld<5>>(20_000, GAMMA);
    assert_eq!(q.len(), 5);
    assert_eq!(pi.len(), 5);
    // next to the goal, the mean return of moving right is the +1 reward
    assert!(q[3][1] > q[3][0], "{:?}", q);
    assert_eq!(pi[3], 1);
}

#[test]
fn on_policy_monte_carlo_prefers_right_near_the_goal() {
    let (q, pi) = on_policy_monte_carlos::<LineWorld<5>>(20_000, GAMMA, 400_000);
    assert_eq!(q.len(), 5);
    assert_eq!(pi.len(), 5);
    assert!(q[3][1] > q[3][0], "{:?}", q);
    assert_eq!(pi[3], 1);
}

#[test]
fn first_visit_returns_and_means_are_exact() {
    let mut q = vec![vec![0i64; 2]; 5];
    let mut logs = vec![vec![Vec::new(), Vec::new()]; 5];
    // one episode: from cell 2 right to 3 (reward 0), then right into the
    // goal (reward +1); gamma 0.5 for easily checked discounting
    let trace = vec![
        Step { s: 2, a: 1, r: 0 },
        Step { s: 3, a: 1, r: 1_000_000 },
    ];
    first_visit_update(&trace, 500_000, &mut q, &mut logs, 5, 2);
    assert_eq!(logs[3][1], vec![1_000_000]);
    assert_eq!(logs[2][1], vec![500_000]); // 0 + 0.5 * 1.0
    assert_eq!(q[3][1], 1_000_000);
    assert_eq!(q[2][1], 500_000);
    // pairs that did not occur stay untouched
    assert!(logs[2][0].is_empty());
    assert_eq!(q[2][0], 0);
}

#[test]
fn first_visit_uses_only_the_first_occurrence_and_keeps_means() {
    let mut q = vec![vec![0i64; 2]; 3];
    let mut logs = vec![vec![Vec::new(), Vec::new()]; 3];
    // the pair (1, 0) occurs twice; only its first occurrence may log
    let trace = vec![
        Step { s: 1, a: 0, r: 2_000_000 },
        Step { s: 1, a: 0, r: 0 },
    ];
    first_visit_update(&trace, 500_000, &mut q, &mut logs, 3, 2);
    assert_eq!(logs[1][0], vec![2_000_000]);
    assert_eq!(q[1][0], 2_000_000);
    // a second episode for the same pair: the estimate becomes the mean of
    // the full log, not an incremental average
    let trace2 = vec![Step { s: 1, a: 0, r: 500_000 }];
    first_visit_update(&trace2, 500_000, &mut q, &mut logs, 3, 2);
    assert_eq!(logs[1][0], vec![2_000_000, 500_000]);
    assert_eq!(q[1][0], mean(&logs[1][0]));
    assert_eq!(q[1][0], 1_250_000);
}

#[test]
fn dyna_q_with_no_planning_equals_q_learning_under_greedy_selection() {
    // epsilon 0 makes both runs fully deterministic on a three-cell line
    // world (every greedy episode ends in a terminal), so with no simulated
    // updates their Q-tables agree exactly
    let a = q_learning::<LineWorld<3>>(50, ALPHA, GAMMA, 0).unwrap();
    let b = dyna_q::<LineWorld<3>>(0, 50, ALPHA, GAMMA, 0).unwrap();
    assert_eq!(a, b);
}

#[test]
fn epsilon_zero_runs_are_deterministic() {
    let a = q_learning::<LineWorld<3>>(25, ALPHA, GAMMA, 0).unwrap();
    let b = q_learning::<LineWorld<3>>(25, ALPHA, GAMMA, 0).unwrap();
    assert_eq!(a, b);
}

#[test]
fn dyna_q_learns_the_line_world_too() {
    let q = dyna_q::<LineWorld<5>>(5, 3_000, ALPHA, GAMMA, SCALE).unwrap();
    for s in 1..4 {
        assert!(q[s][1] > q[s][0], "state {}: {:?}", s, q[s]);
    }
}

#[test]
fn zero_episodes_return_the_zero_table() {
    let zero = vec![vec![0i64; 2]; 5];
    assert_eq!(q_learning::<LineWorld<5>>(0, ALPHA, GAMMA, 0).unwrap(), zero);
    assert_eq!(dyna_q::<LineWorld<5>>(3, 0, ALPHA, GAMMA, 0).unwrap(), zero);
    assert_eq!(sarsa::<LineWorld<5>>(0, ALPHA, GAMMA, 0), zero);
    let (q, pi) = monte_carlo_exploring_starts::<LineWorld<5>>(0, GAMMA);
    assert_eq!(q, zero);
    assert_eq!(pi, vec![0usize; 5]);
    let (q, pi) = on_policy_monte_carlos::<LineWorld<5>>(0, GAMMA, 500_000);
    assert_eq!(q, zero);
    assert_eq!(pi, vec![0usize; 5]);
}

#[test]
fn full_exploration_never_aborts() {
    // at epsilon one every selection explores among the legal actions, so
    // even on the grid (where a greedy choice could be illegal at an edge)
    // the run is guaranteed to succeed
    assert!(q_learning::<GridWorld<4, 4>>(200, ALPHA, GAMMA, SCALE).is_ok());
    assert!(dyna_q::<GridWorld<4, 4>>(2, 200, ALPHA, GAMMA, SCALE).is_ok());
}

#[test]
fn model_store_after_one_real_step_holds_exactly_one_pair() {
    let mut model = DynaModel::new(5, 2);
    assert_eq!(model.visited.len(), 0);
    model.record(Transition { s: 2, a: 1, r: 0, s_next: 3 }, 5, 2);
    assert_eq!(model.visited, vec![(2, 1)]);
    assert_eq!(model.entries[2][1], (0, 3, true));
    // the only possible sample is the recorded pair with its own reward
    let sim = model.sample(5, 2);
    assert_eq!((sim.s, sim.a, sim.r, sim.s_next), (2, 1, 0, 3));
}

#[test]
fn model_store_does_not_grow_on_a_revisited_pair() {
    let mut model = DynaModel::new(5, 2);
    model.record(Transition { s: 2, a: 1, r: 0, s_next: 3 }, 5, 2);
    model.record(Transition { s: 2, a: 1, r: 1_000_000, s_next: 1 }, 5, 2);
    assert_eq!(model.visited.len(), 1);
    // the cell keeps the latest observation
    assert_eq!(model.entries[2][1], (1_000_000, 1, true));
    model.record(Transition { s: 1, a: 0, r: 0, s_next: 0 }, 5, 2);
    assert_eq!(model.visited.len(), 2);
}
