//! Q-learning: off-policy temporal-difference control. Each step picks an
//! action epsilon-greedily over the full action space (exploration draws
//! uniformly among the available actions), steps the environment, reads the
//! reward off the score difference and backs up against the greedy value of
//! the reached state.

use vstd::prelude::*;
use vstd::pervasive::VecAdditionalExecFns;
use crate::RlError;
use crate::algorithms::backup::{STEP_LIMIT, Transition, q_wf, reward_ok, row_max, spec_row_max, spec_td_next, td_update, zero_table};
use crate::algorithms::selection::{greedy_action, spec_greedy};
use crate::contracts::model_free_env::ModelFreeEnv;
use crate::fixed::SCALE;
use crate::rng;

verus! {

/// What one real Q-learning step leaves behind: the transition `t` was legal
/// in the old state and was taken, the reward is the score difference, and
/// the Q-table changed by exactly one temporal-difference backup at
/// `(t.s, t.a)` against the greedy value of the reached state's old row.
pub open spec fn q_step_taken<E: ModelFreeEnv>(
    env0: E,
    env1: E,
    q0: Seq<Vec<i64>>,
    q1: Seq<Vec<i64>>,
    t: Transition,
    alpha: int,
    gamma: int,
) -> bool {
    &&& t.s as nat == env0.spec_state_id()
    &&& (t.s as nat) < E::spec_num_states()
    &&& (t.a as nat) < E::spec_num_actions()
    &&& !env0.spec_is_forbidden(t.a as int)
    &&& env1 == env0.spec_step(t.a as int)
    &&& t.r as int == env1.spec_score() - env0.spec_score()
    &&& t.s_next as nat == env1.spec_state_id()
    &&& (t.s_next as nat) < E::spec_num_states()
    &&& reward_ok(t.r as int)
    &&& q1.len() == q0.len()
    &&& q1[t.s as int]@[t.a as int] as int == spec_td_next(
        q0[t.s as int]@[t.a as int] as int,
        t.r as int,
        spec_row_max(q0[t.s_next as int]@),
        alpha,
        gamma,
    )
    &&& forall|i: int, j: int|
        0 <= i < q0.len() && 0 <= j < q0[i]@.len() && !(i == t.s as int && j == t.a as int)
            ==> #[trigger] q1[i]@[j] == q0[i]@[j]
}

/// One real step from a non-terminal state: select, step, back up. When the
/// exploitation draw lands on a greedy action that is illegal in the current
/// state, the run is aborted with `ForbiddenAction` before anything changes.
pub fn q_learning_step<E: ModelFreeEnv>(
    env: &mut E,
    q: &mut Vec<Vec<i64>>,
    learning_rate: i64,
    gamma: i64,
    epsilon: i64,
) -> (res: Result<Transition, RlError>)
    requires
        E::spec_valid(),
        old(env).inv(),
        !old(env).spec_is_game_over(),
        q_wf(old(q)@, E::spec_num_states(), E::spec_num_actions()),
        E::spec_num_actions() >= 1,
        0 <= learning_rate <= SCALE,
        0 <= gamma <= SCALE,
    ensures
        final(env).inv(),
        q_wf(final(q)@, E::spec_num_states(), E::spec_num_actions()),
        epsilon >= SCALE ==> res is Ok,
        match res {
            Ok(t) => q_step_taken::<E>(
                *old(env),
                *final(env),
                old(q)@,
                final(q)@,
                t,
                learning_rate as int,
                gamma as int,
            ) && (epsilon <= 0 ==> t.a as int == spec_greedy(
                old(q)@[old(env).spec_state_id() as int]@,
            )),
            Err(e) => {
                &&& e == RlError::ForbiddenAction
                &&& *final(env) == *old(env)
                &&& final(q)@ == old(q)@
                &&& old(env).spec_is_forbidden(
                    spec_greedy(old(q)@[old(env).spec_state_id() as int]@),
                )
            },
        },
{
    let s = env.state_id();
    let u = rng::random_frac();
    let a: usize = if u < epsilon {
        let avail = env.available_actions();
        let k = rng::random_index(avail.len());
        avail[k]
    } else {
        greedy_action(&q[s])
    };
    if env.is_forbidden(a) {
        proof {
            assert(!(u < epsilon));
        }
        return Err(RlError::ForbiddenAction);
    }
    let prev_score = env.score();
    env.step(a);
    let r = env.score() - prev_score;
    let s_next = env.state_id();
    let boot = row_max(&q[s_next]);
    let nq = td_update(q[s][a], r, boot, learning_rate, gamma);
    q[s].set(a, nq);
    Ok(Transition { s, a, r, s_next })
}

/// One episode: real steps until the terminal signal (or the step counter's
/// range is exhausted). On success the number of steps taken is returned,
/// and the episode ended in a terminal state or used the whole budget; an
/// episode that starts in a terminal state takes no step and changes
/// nothing.
#[verifier::loop_isolation(false)]
pub fn q_learning_episode<E: ModelFreeEnv>(
    env: &mut E,
    q: &mut Vec<Vec<i64>>,
    learning_rate: i64,
    gamma: i64,
    epsilon: i64,
) -> (res: Result<u64, RlError>)
    requires
        E::spec_valid(),
        old(env).inv(),
        q_wf(old(q)@, E::spec_num_states(), E::spec_num_actions()),
        E::spec_num_actions() >= 1,
        0 <= learning_rate <= SCALE,
        0 <= gamma <= SCALE,
    ensures
        final(env).inv(),
        q_wf(final(q)@, E::spec_num_states(), E::spec_num_actions()),
        epsilon >= SCALE ==> res is Ok,
        match res {
            Ok(steps) => final(env).spec_is_game_over() || steps == STEP_LIMIT,
            Err(e) => e == RlError::ForbiddenAction,
        },
        old(env).spec_is_game_over() ==> res == Ok::<u64, RlError>(0) && final(q)@ == old(q)@
            && *final(env) == *old(env),
{
    let mut steps: u64 = 0;
    while !env.is_game_over() && steps < STEP_LIMIT
        invariant
            env.inv(),
            q_wf(q@, E::spec_num_states(), E::spec_num_actions()),
            steps <= STEP_LIMIT,
            old(env).spec_is_game_over() ==> steps == 0 && q@ == old(q)@ && *env == *old(env),
        decreases STEP_LIMIT - steps,
    {
        let step_res = q_learning_step(env, q, learning_rate, gamma, epsilon);
        if let Err(e) = step_res {
            return Err(e);
        }
        steps = steps + 1;
    }
    Ok(steps)
}

/// Q-learning over `num_episodes` episodes of `E`, from an all-zero Q-table.
/// On success the returned table has one in-range row per state; with no
/// episodes it is still the all-zero table. The run is aborted with
/// `ForbiddenAction` as soon as a greedy selection is illegal, which needs
/// at least one episode and an epsilon below one (at epsilon one and above
/// every selection explores among the legal actions).
#[verifier::loop_isolation(false)]
pub fn q_learning<E: ModelFreeEnv>(
    num_episodes: usize,
    learning_rate: i64,
    gamma: i64,
    epsilon: i64,
) -> (res: Result<Vec<Vec<i64>>, RlError>)
    requires
        E::spec_valid(),
        0 <= learning_rate <= SCALE,
        0 <= gamma <= SCALE,
    ensures
        match res {
            Ok(qt) => {
                &&& q_wf(qt@, E::spec_num_states(), E::spec_num_actions())
                &&& (num_episodes == 0 ==> forall|i: int, j: int|
                    0 <= i < qt@.len() && 0 <= j < qt@[i]@.len() ==> (#[trigger] qt@[i]@[j])
                        == 0i64)
            },
            Err(e) => {
                &&& e == RlError::ForbiddenAction
                &&& num_episodes >= 1
                &&& epsilon < SCALE
            },
        },
{
    let ns = E::num_states();
    let na = E::num_actions();
    let mut q = zero_table(ns, na);
    let mut env = E::new();
    let mut ep: usize = 0;
    while ep < num_episodes
        invariant
            env.inv(),
            q_wf(q@, E::spec_num_states(), E::spec_num_actions()),
            num_episodes == 0 ==> forall|i: int, j: int|
                0 <= i < q@.len() && 0 <= j < q@[i]@.len() ==> (#[trigger] q@[i]@[j]) == 0i64,
        decreases num_episodes - ep,
    {
        env.reset();
        let ep_res = q_learning_episode(&mut env, &mut q, learning_rate, gamma, epsilon);
        if let Err(e) = ep_res {
            return Err(e);
        }
        ep = ep + 1;
    }
    Ok(q)
}

} // verus!
