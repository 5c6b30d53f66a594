//! Planning algorithms on the line world: the monotone value scenario, and
//! the agreement of policy iteration with value iteration.

use tabular_rl::algorithms::policy_iteration::policy_iteration;
use tabular_rl::algorithms::value_iteration::value_iteration;
use tabular_rl::envs::grid_world::GridWorld;
use tabular_rl::envs::line_world::LineWorld;

const GAMMA: i64 = 999_000; // 0.999
const THETA: i64 = 1_000; // 0.001

#[test]
fn value_iteration_line_world_monotone_values_and_move_right() {
    let (pi, v) = value_iteration::<LineWorld<5>>(GAMMA, THETA);
    assert_eq!(v.len(), 5);
    assert_eq!(pi.len(), 5);
    // terminal cells have no outgoing transitions, so their value stays zero
    assert_eq!(v[0], 0);
    assert_eq!(v[4], 0);
    // from the left terminal through the non-terminal cells the value rises
    assert!(v[0] < v[1]);
    assert!(v[1] < v[2]);
    assert!(v[2] < v[3]);
    // the optimal policy moves right from every non-terminal cell
    assert_eq!(pi[1], 1);
    assert_eq!(pi[2], 1);
    assert_eq!(pi[3], 1);
}

#[test]
fn value_iteration_line_world_exact_fixed_point() {
    let (_, v) = value_iteration::<LineWorld<5>>(GAMMA, THETA);
    // V(3) = 1; each step left discounts by 0.999 with truncation
    assert_eq!(v[3], 1_000_000);
    assert_eq!(v[2], 999_000);
    assert_eq!(v[1], 998_001);
}

#[test]
fn policy_iteration_agrees_with_value_iteration_on_line_world() {
    let (pi_p, v_p) = policy_iteration::<LineWorld<5>>(GAMMA, THETA);
    let (pi_v, v_v) = value_iteration::<LineWorld<5>>(GAMMA, THETA);
    assert_eq!(pi_p, pi_v);
    for s in 0..5 {
        assert!((v_p[s] - v_v[s]).abs() <= THETA);
    }
}

#[test]
fn policy_iteration_agrees_with_value_iteration_on_a_longer_line() {
    let (pi_p, v_p) = policy_iteration::<LineWorld<7>>(GAMMA, THETA);
    let (pi_v, v_v) = value_iteration::<LineWorld<7>>(GAMMA, THETA);
    assert_eq!(pi_p, pi_v);
    for s in 0..7 {
        assert!((v_p[s] - v_v[s]).abs() <= THETA);
    }
}

#[test]
fn planning_on_grid_world_returns_full_tables() {
    let (pi, v) = policy_iteration::<GridWorld<4, 4>>(GAMMA, THETA);
    assert_eq!(pi.len(), 16);
    assert_eq!(v.len(), 16);
    for s in 0..16 {
        assert!(pi[s] < 4);
    }
}
