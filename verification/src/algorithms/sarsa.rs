//! SARSA: on-policy temporal-difference control. The backup target uses the
//! next action actually sampled by the same epsilon-greedy policy restricted
//! to the actions available in the reached state, not the greedy maximum.
//! When the reached state is terminal there is no next action; the backup
//! then bootstraps with zero and the episode ends.

use vstd::prelude::*;
use vstd::pervasive::VecAdditionalExecFns;
use crate::RlError;
use crate::algorithms::backup::{STEP_LIMIT, q_wf, spec_td_next, td_update, zero_table};
use crate::algorithms::selection::{epsilon_greedy_action, lemma_sorted_lists_unique, lists_legal_actions, spec_greedy_in};
use crate::contracts::model_free_env::ModelFreeEnv;
use crate::fixed::SCALE;

verus! {

/// What one SARSA step leaves behind: the environment took `a` from `s`, the
/// reward `r` is the score difference, and the Q-table changed by exactly
/// one temporal-difference backup at `(s, a)` with bootstrap `boot`.
pub open spec fn sarsa_step_taken<E: ModelFreeEnv>(
    env0: E,
    env1: E,
    q0: Seq<Vec<i64>>,
    q1: Seq<Vec<i64>>,
    s: int,
    a: int,
    boot: int,
    alpha: int,
    gamma: int,
) -> bool {
    &&& env1 == env0.spec_step(a)
    &&& q1.len() == q0.len()
    &&& q1[s]@[a] as int == spec_td_next(
        q0[s]@[a] as int,
        env1.spec_score() - env0.spec_score(),
        boot,
        alpha,
        gamma,
    )
    &&& forall|i: int, j: int|
        0 <= i < q0.len() && 0 <= j < q0[i]@.len() && !(i == s && j == a) ==> #[trigger] q1[i]@[j]
            == q0[i]@[j]
}

/// One SARSA step: take `a` from the current state, observe the reward and
/// reached state, sample the next action epsilon-greedily among the actions
/// available there, and back up against its Q-value. Returns the next
/// (state, action) pair, or `None` when the reached state is terminal (the
/// backup then bootstraps with zero).
pub fn sarsa_step<E: ModelFreeEnv>(
    env: &mut E,
    q: &mut Vec<Vec<i64>>,
    s: usize,
    a: usize,
    learning_rate: i64,
    gamma: i64,
    epsilon: i64,
) -> (res: Option<(usize, usize)>)
    requires
        E::spec_valid(),
        old(env).inv(),
        !old(env).spec_is_game_over(),
        s as nat == old(env).spec_state_id(),
        (s as nat) < E::spec_num_states(),
        (a as nat) < E::spec_num_actions(),
        !old(env).spec_is_forbidden(a as int),
        q_wf(old(q)@, E::spec_num_states(), E::spec_num_actions()),
        0 <= learning_rate <= SCALE,
        0 <= gamma <= SCALE,
    ensures
        final(env).inv(),
        q_wf(final(q)@, E::spec_num_states(), E::spec_num_actions()),
        match res {
            Some(next) => {
                &&& !final(env).spec_is_game_over()
                &&& next.0 as nat == final(env).spec_state_id()
                &&& (next.0 as nat) < E::spec_num_states()
                &&& (next.1 as nat) < E::spec_num_actions()
                &&& !final(env).spec_is_forbidden(next.1 as int)
                &&& (epsilon <= 0 ==> forall|l: Seq<usize>|
                    #[trigger] lists_legal_actions::<E>(*final(env), l) ==> next.1
                        == spec_greedy_in(old(q)@[next.0 as int]@, l))
                &&& sarsa_step_taken::<E>(
                    *old(env),
                    *final(env),
                    old(q)@,
                    final(q)@,
                    s as int,
                    a as int,
                    old(q)@[next.0 as int]@[next.1 as int] as int,
                    learning_rate as int,
                    gamma as int,
                )
            },
            None => {
                &&& final(env).spec_is_game_over()
                &&& sarsa_step_taken::<E>(
                    *old(env),
                    *final(env),
                    old(q)@,
                    final(q)@,
                    s as int,
                    a as int,
                    0,
                    learning_rate as int,
                    gamma as int,
                )
            },
        },
{
    let prev_score = env.score();
    env.step(a);
    let r = env.score() - prev_score;
    if env.is_game_over() {
        let nq = td_update(q[s][a], r, 0, learning_rate, gamma);
        q[s].set(a, nq);
        None
    } else {
        let s_next = env.state_id();
        let avail = env.available_actions();
        let a_next = epsilon_greedy_action(&q[s_next], &avail, epsilon);
        proof {
            if epsilon <= 0 {
                assert forall|x: usize|
                    avail@.contains(x) implies ((x as nat) < E::spec_num_actions()
                    && !env.spec_is_forbidden(x as int)) by {
                    let i = choose|i: int| 0 <= i < avail@.len() && avail@[i] == x;
                }
                assert(lists_legal_actions::<E>(*env, avail@));
                assert forall|l: Seq<usize>|
                    #[trigger] lists_legal_actions::<E>(*env, l) implies a_next
                    == spec_greedy_in(q@[s_next as int]@, l) by {
                    lemma_sorted_lists_unique(l, avail@);
                }
            }
        }
        let boot = q[s_next][a_next];
        let nq = td_update(q[s][a], r, boot, learning_rate, gamma);
        q[s].set(a, nq);
        Some((s_next, a_next))
    }
}

/// One episode: sample the initial pair, then step until the terminal
/// signal (or the step counter's range is exhausted); the number of steps
/// taken is returned, and the episode ended in a terminal state or used the
/// whole budget. An episode that starts in a terminal state takes no step
/// and changes nothing.
#[verifier::loop_isolation(false)]
pub fn sarsa_episode<E: ModelFreeEnv>(
    env: &mut E,
    q: &mut Vec<Vec<i64>>,
    learning_rate: i64,
    gamma: i64,
    epsilon: i64,
) -> (steps: u64)
    requires
        E::spec_valid(),
        old(env).inv(),
        q_wf(old(q)@, E::spec_num_states(), E::spec_num_actions()),
        0 <= learning_rate <= SCALE,
        0 <= gamma <= SCALE,
    ensures
        final(env).inv(),
        q_wf(final(q)@, E::spec_num_states(), E::spec_num_actions()),
        final(env).spec_is_game_over() || steps == STEP_LIMIT,
        old(env).spec_is_game_over() ==> steps == 0 && final(q)@ == old(q)@ && *final(env)
            == *old(env),
{
    if env.is_game_over() {
        return 0;
    }
    let mut s = env.state_id();
    let avail = env.available_actions();
    let mut a = epsilon_greedy_action(&q[s], &avail, epsilon);
    let mut done: bool = false;
    let mut steps: u64 = 0;
    while !done && steps < STEP_LIMIT
        invariant
            env.inv(),
            q_wf(q@, E::spec_num_states(), E::spec_num_actions()),
            steps <= STEP_LIMIT,
            done ==> env.spec_is_game_over(),
            !done ==> {
                &&& !env.spec_is_game_over()
                &&& s as nat == env.spec_state_id()
                &&& (s as nat) < E::spec_num_states()
                &&& (a as nat) < E::spec_num_actions()
                &&& !env.spec_is_forbidden(a as int)
            },
        decreases STEP_LIMIT - steps,
    {
        let step_res = sarsa_step(env, q, s, a, learning_rate, gamma, epsilon);
        match step_res {
            Some(next) => {
                s = next.0;
                a = next.1;
            },
            None => {
                done = true;
            },
        }
        steps = steps + 1;
    }
    steps
}

/// SARSA over `num_episodes` episodes of `E`, from an all-zero Q-table;
/// with no episodes the table stays all zero. Every action, initial ones
/// included, is sampled epsilon-greedily among the available actions, so no
/// illegal action can be selected and no run aborts.
#[verifier::loop_isolation(false)]
pub fn sarsa<E: ModelFreeEnv>(
    num_episodes: usize,
    learning_rate: i64,
    gamma: i64,
    epsilon: i64,
) -> (qt: Vec<Vec<i64>>)
    requires
        E::spec_valid(),
        0 <= learning_rate <= SCALE,
        0 <= gamma <= SCALE,
    ensures
        q_wf(qt@, E::spec_num_states(), E::spec_num_actions()),
        num_episodes == 0 ==> forall|i: int, j: int|
            0 <= i < qt@.len() && 0 <= j < qt@[i]@.len() ==> (#[trigger] qt@[i]@[j]) == 0i64,
{
    let ns = E::num_states();
    let na = E::num_actions();
    let mut q = zero_table(ns, na);
    let mut env = E::new();
    let mut ep: usize = 0;
    while ep < num_episodes
        invariant
            env.inv(),
            q_wf(q@, E::spec_num_states(), E::spec_num_actions()),
            num_episodes == 0 ==> forall|i: int, j: int|
                0 <= i < q@.len() && 0 <= j < q@[i]@.len() ==> (#[trigger] q@[i]@[j]) == 0i64,
        decreases num_episodes - ep,
    {
        env.reset();
        sarsa_episode(&mut env, &mut q, learning_rate, gamma, epsilon);
        ep = ep + 1;
    }
    q
}

} // verus!
