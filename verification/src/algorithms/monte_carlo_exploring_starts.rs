//! Monte Carlo control with exploring starts: every action of every episode
//! is drawn uniformly among the available actions, the full trace is
//! recorded with each transition's own reward (not the score re-read at walk
//! time), and the backward first-visit walk keeps each pair's estimate equal
//! to the arithmetic mean of its logged returns. The greedy policy is
//! extracted once, after all episodes.

use vstd::prelude::*;
use crate::algorithms::backup::{STEP_LIMIT, q_wf, zero_table};
use crate::algorithms::first_visit::{Step, empty_logs, first_visit_update, logs_wf, q_is_mean_of_logs, trace_records_run, trace_wf};
use crate::algorithms::selection::{greedy_action, spec_greedy};
use crate::contracts::model_free_env::ModelFreeEnv;
use crate::fixed::SCALE;
use crate::rng;

verus! {

/// Roll one episode with uniformly random legal actions, recording each
/// transition and its one-step reward, until the terminal signal (or the
/// step counter's range is exhausted). The trace records exactly the
/// executed run: there is a state chain from the entry state to the final
/// one along which every recorded step was taken.
#[verifier::loop_isolation(false)]
pub fn rollout_uniform<E: ModelFreeEnv>(env: &mut E) -> (trace: Vec<Step>)
    requires
        E::spec_valid(),
        old(env).inv(),
    ensures
        final(env).inv(),
        trace_wf(trace@, E::spec_num_states(), E::spec_num_actions()),
        final(env).spec_is_game_over() || trace@.len() == STEP_LIMIT as nat,
        exists|chain: Seq<E>|
            {
                &&& #[trigger] trace_records_run::<E>(trace@, chain)
                &&& chain[0] == *old(env)
                &&& chain[chain.len() - 1] == *final(env)
            },
{
    let mut trace: Vec<Step> = Vec::new();
    let ghost mut chain: Seq<E> = seq![*env];
    let mut steps: u64 = 0;
    while !env.is_game_over() && steps < STEP_LIMIT
        invariant
            env.inv(),
            trace_wf(trace@, E::spec_num_states(), E::spec_num_actions()),
            steps <= STEP_LIMIT,
            steps == trace@.len(),
            chain.len() == trace@.len() + 1,
            chain[0] == *old(env),
            chain[chain.len() - 1] == *env,
            trace_records_run::<E>(trace@, chain),
        decreases STEP_LIMIT - steps,
    {
        let ghost prev = *env;
        let s = env.state_id();
        let avail = env.available_actions();
        let k = rng::random_index(avail.len());
        let a = avail[k];
        let prev_score = env.score();
        env.step(a);
        let r = env.score() - prev_score;
        trace.push(Step { s, a, r });
        proof {
            chain = chain.push(*env);
            assert(trace@[trace@.len() - 1] == Step { s, a, r });
            assert(chain[chain.len() - 2] == prev);
            assert(trace_records_run::<E>(trace@, chain));
        }
        steps = steps + 1;
    }
    proof {
        assert(exists|c: Seq<E>|
            {
                &&& #[trigger] trace_records_run::<E>(trace@, c)
                &&& c[0] == *old(env)
                &&& c[c.len() - 1] == *env
            }) by {
            assert(trace_records_run::<E>(trace@, chain) && chain[0] == *old(env)
                && chain[chain.len() - 1] == *env);
        }
    }
    trace
}

/// The greedy policy extracted row by row, lowest action index on ties.
#[verifier::loop_isolation(false)]
pub fn extract_greedy_policy(q: &Vec<Vec<i64>>, ns: usize, na: usize) -> (pi: Vec<usize>)
    requires
        q_wf(q@, ns as nat, na as nat),
        na >= 1,
    ensures
        pi@.len() == ns,
        forall|s: int| 0 <= s < ns ==> (#[trigger] pi@[s]) as int == spec_greedy(q@[s]@),
{
    let mut pi: Vec<usize> = Vec::new();
    let mut s: usize = 0;
    while s < ns
        invariant
            0 <= s <= ns,
            pi@.len() == s,
            forall|t: int| 0 <= t < s ==> (#[trigger] pi@[t]) as int == spec_greedy(q@[t]@),
        decreases ns - s,
    {
        pi.push(greedy_action(&q[s]));
        s = s + 1;
    }
    pi
}

/// Monte Carlo control with exploring starts over `num_episodes` episodes.
/// Returns the Q-table, in which every estimate is the arithmetic mean of
/// the first-visit returns logged for its pair, and the greedy policy
/// extracted from it at the end of training.
#[verifier::loop_isolation(false)]
pub fn monte_carlo_exploring_starts<E: ModelFreeEnv>(num_episodes: usize, gamma: i64) -> (res: (
    Vec<Vec<i64>>,
    Vec<usize>,
))
    requires
        E::spec_valid(),
        0 <= gamma <= SCALE,
    ensures
        q_wf(res.0@, E::spec_num_states(), E::spec_num_actions()),
        res.1@.len() == E::spec_num_states(),
        forall|s: int|
            0 <= s < res.0@.len() ==> (#[trigger] res.1@[s]) as int == spec_greedy(res.0@[s]@),
        exists|logs: Seq<Vec<Vec<i64>>>|
            #[trigger] logs_wf(logs, E::spec_num_states(), E::spec_num_actions())
                && q_is_mean_of_logs(res.0@, logs),
        num_episodes == 0 ==> forall|i: int, j: int|
            0 <= i < res.0@.len() && 0 <= j < res.0@[i]@.len() ==> (#[trigger] res.0@[i]@[j])
                == 0i64,
{
    let ns = E::num_states();
    let na = E::num_actions();
    let mut q = zero_table(ns, na);
    let mut logs = empty_logs(ns, na);
    let mut env = E::new();
    let mut ep: usize = 0;
    while ep < num_episodes
        invariant
            env.inv(),
            q_wf(q@, E::spec_num_states(), E::spec_num_actions()),
            logs_wf(logs@, E::spec_num_states(), E::spec_num_actions()),
            q_is_mean_of_logs(q@, logs@),
            num_episodes == 0 ==> forall|i: int, j: int|
                0 <= i < q@.len() && 0 <= j < q@[i]@.len() ==> (#[trigger] q@[i]@[j]) == 0i64,
        decreases num_episodes - ep,
    {
        env.reset();
        let trace = rollout_uniform(&mut env);
        first_visit_update(&trace, gamma, &mut q, &mut logs, ns, na);
        ep = ep + 1;
    }
    let pi = extract_greedy_policy(&q, ns, na);
    proof {
        assert(exists|l: Seq<Vec<Vec<i64>>>|
            #[trigger] logs_wf(l, E::spec_num_states(), E::spec_num_actions())
                && q_is_mean_of_logs(q@, l)) by {
            assert(logs_wf(logs@, E::spec_num_states(), E::spec_num_actions())
                && q_is_mean_of_logs(q@, logs@));
        }
    }
    (q, pi)
}

} // verus!
