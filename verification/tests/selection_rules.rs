//! Deterministic action-selection rules: lowest-index tie-breaking, and the
//! two epsilon extremes (fully greedy at 0, uniform over the legal set at 1).

use tabular_rl::algorithms::selection::{epsilon_greedy_action, greedy_action, select_action};
use tabular_rl::fixed::SCALE;

#[test]
fn greedy_breaks_ties_toward_lowest_index() {
    assert_eq!(greedy_action(&vec![5, 7, 7]), 1);
    assert_eq!(greedy_action(&vec![7, 7, 7]), 0);
    assert_eq!(greedy_action(&vec![1, 2, 3]), 2);
    assert_eq!(greedy_action(&vec![0]), 0);
}

#[test]
fn epsilon_zero_is_greedy_for_every_draw() {
    let q_row = vec![1, 9, 9, 2];
    let avail = vec![0usize, 1, 2, 3];
    // whatever the draws, epsilon 0 never explores
    for u in [0i64, 1, 500_000, 999_999] {
        for k in 0..avail.len() {
            assert_eq!(select_action(&q_row, &avail, 0, u, k), 1);
        }
    }
    // and the drawing wrapper is deterministic too
    assert_eq!(epsilon_greedy_action(&q_row, &avail, 0), 1);
}

#[test]
fn epsilon_zero_respects_the_available_set() {
    // the best unrestricted action (index 1) is not available
    let q_row = vec![1, 9, 3, 2];
    let avail = vec![0usize, 2, 3];
    assert_eq!(epsilon_greedy_action(&q_row, &avail, 0), 2);
}

#[test]
fn epsilon_one_takes_the_uniform_draw() {
    let q_row = vec![1, 9, 9, 2];
    let avail = vec![0usize, 2, 3];
    for (k, expected) in [(0usize, 0usize), (1, 2), (2, 3)] {
        for u in [0i64, 500_000, SCALE - 1] {
            assert_eq!(select_action(&q_row, &avail, SCALE, u, k), expected);
        }
    }
    // the drawing wrapper always lands inside the available set
    for _ in 0..50 {
        let a = epsilon_greedy_action(&q_row, &avail, SCALE);
        assert!(avail.contains(&a));
    }
}
