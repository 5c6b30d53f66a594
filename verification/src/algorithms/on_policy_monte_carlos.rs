//! On-policy first-visit Monte Carlo control: every action of every episode
//! is drawn epsilon-greedily from the live Q-table, so the behaviour policy
//! is refreshed from the updated estimates at each step of each episode; a
//! final greedy extraction also returns the learned policy. The trace
//! records each transition's own reward, and the backward first-visit walk
//! keeps each pair's estimate equal to the arithmetic mean of its logged
//! returns.

use vstd::prelude::*;
use crate::algorithms::backup::{STEP_LIMIT, q_wf, zero_table};
use crate::algorithms::first_visit::{Step, empty_logs, first_visit_update, logs_wf, q_is_mean_of_logs, trace_records_run, trace_wf};
use crate::algorithms::monte_carlo_exploring_starts::extract_greedy_policy;
use crate::algorithms::selection::{epsilon_greedy_action, lemma_sorted_lists_unique, lists_legal_actions, spec_greedy, spec_greedy_in};
use crate::contracts::model_free_env::ModelFreeEnv;
use crate::fixed::SCALE;

verus! {

/// Every recorded action was an epsilon-greedy choice from the live Q-row
/// of its state: with epsilon at most zero each one is the greedy action
/// among the legal actions of its state (lowest index on ties).
pub open spec fn trace_greedy_at_epsilon_zero<E: ModelFreeEnv>(
    trace: Seq<Step>,
    chain: Seq<E>,
    q: Seq<Vec<i64>>,
    eps: int,
) -> bool {
    eps <= 0 ==> forall|i: int, l: Seq<usize>|
        0 <= i < trace.len() && #[trigger] lists_legal_actions::<E>(chain[i], l) ==> trace[i].a
            == spec_greedy_in(q[chain[i].spec_state_id() as int]@, l)
}

/// Roll one episode with epsilon-greedy actions over the live Q-table,
/// restricted to the available actions, recording each transition and its
/// one-step reward, until the terminal signal (or the step counter's range
/// is exhausted). The trace records exactly the executed run, and each
/// recorded action was selected epsilon-greedily from the Q-row of the
/// state it was taken in.
#[verifier::loop_isolation(false)]
fn rollout_epsilon_greedy<E: ModelFreeEnv>(env: &mut E, q: &Vec<Vec<i64>>, epsilon: i64) -> (trace: Vec<Step>)
    requires
        E::spec_valid(),
        old(env).inv(),
        q_wf(q@, E::spec_num_states(), E::spec_num_actions()),
    ensures
        final(env).inv(),
        trace_wf(trace@, E::spec_num_states(), E::spec_num_actions()),
        final(env).spec_is_game_over() || trace@.len() == STEP_LIMIT as nat,
        exists|chain: Seq<E>|
            {
                &&& #[trigger] trace_records_run::<E>(trace@, chain)
                &&& chain[0] == *old(env)
                &&& chain[chain.len() - 1] == *final(env)
                &&& trace_greedy_at_epsilon_zero::<E>(trace@, chain, q@, epsilon as int)
            },
{
    let mut trace: Vec<Step> = Vec::new();
    let ghost mut chain: Seq<E> = seq![*env];
    let mut steps: u64 = 0;
    while !env.is_game_over() && steps < STEP_LIMIT
        invariant
            env.inv(),
            trace_wf(trace@, E::spec_num_states(), E::spec_num_actions()),
            steps <= STEP_LIMIT,
            steps == trace@.len(),
            chain.len() == trace@.len() + 1,
            chain[0] == *old(env),
            chain[chain.len() - 1] == *env,
            trace_records_run::<E>(trace@, chain),
            trace_greedy_at_epsilon_zero::<E>(trace@, chain, q@, epsilon as int),
        decreases STEP_LIMIT - steps,
    {
        let ghost prev = *env;
        let s = env.state_id();
        let avail = env.available_actions();
        let a = epsilon_greedy_action(&q[s], &avail, epsilon);
        proof {
            if epsilon <= 0 {
                assert forall|x: usize|
                    avail@.contains(x) implies ((x as nat) < E::spec_num_actions()
                    && !prev.spec_is_forbidden(x as int)) by {
                    let i = choose|i: int| 0 <= i < avail@.len() && avail@[i] == x;
                }
                assert(lists_legal_actions::<E>(prev, avail@));
                assert forall|l: Seq<usize>|
                    #[trigger] lists_legal_actions::<E>(prev, l) implies a == spec_greedy_in(
                    q@[s as int]@,
                    l,
                ) by {
                    lemma_sorted_lists_unique(l, avail@);
                }
            }
        }
        let prev_score = env.score();
        env.step(a);
        let r = env.score() - prev_score;
        trace.push(Step { s, a, r });
        proof {
            chain = chain.push(*env);
            assert(trace@[trace@.len() - 1] == Step { s, a, r });
            assert(chain[chain.len() - 2] == prev);
            assert(trace_records_run::<E>(trace@, chain));
        }
        steps = steps + 1;
    }
    proof {
        assert(exists|c: Seq<E>|
            {
                &&& #[trigger] trace_records_run::<E>(trace@, c)
                &&& c[0] == *old(env)
                &&& c[c.len() - 1] == *env
                &&& trace_greedy_at_epsilon_zero::<E>(trace@, c, q@, epsilon as int)
            }) by {
            assert(trace_records_run::<E>(trace@, chain) && chain[0] == *old(env)
                && chain[chain.len() - 1] == *env && trace_greedy_at_epsilon_zero::<E>(
                trace@,
                chain,
                q@,
                epsilon as int,
            ));
        }
    }
    trace
}

/// On-policy first-visit Monte Carlo control over `num_episodes` episodes.
/// Returns the Q-table, in which every estimate is the arithmetic mean of
/// the first-visit returns logged for its pair, and the greedy policy
/// extracted from it at the end of training.
#[verifier::loop_isolation(false)]
pub fn on_policy_monte_carlos<E: ModelFreeEnv>(
    num_episodes: usize,
    gamma: i64,
    epsilon: i64,
) -> (res: (Vec<Vec<i64>>, Vec<usize>))
    requires
        E::spec_valid(),
        0 <= gamma <= SCALE,
    ensures
        q_wf(res.0@, E::spec_num_states(), E::spec_num_actions()),
        res.1@.len() == E::spec_num_states(),
        forall|s: int|
            0 <= s < res.0@.len() ==> (#[trigger] res.1@[s]) as int == spec_greedy(res.0@[s]@),
        exists|logs: Seq<Vec<Vec<i64>>>|
            #[trigger] logs_wf(logs, E::spec_num_states(), E::spec_num_actions())
                && q_is_mean_of_logs(res.0@, logs),
        num_episodes == 0 ==> forall|i: int, j: int|
            0 <= i < res.0@.len() && 0 <= j < res.0@[i]@.len() ==> (#[trigger] res.0@[i]@[j])
                == 0i64,
{
    let ns = E::num_states();
    let na = E::num_actions();
    let mut q = zero_table(ns, na);
    let mut logs = empty_logs(ns, na);
    let mut env = E::new();
    let mut ep: usize = 0;
    while ep < num_episodes
        invariant
            env.inv(),
            q_wf(q@, E::spec_num_states(), E::spec_num_actions()),
            logs_wf(logs@, E::spec_num_states(), E::spec_num_actions()),
            q_is_mean_of_logs(q@, logs@),
            num_episodes == 0 ==> forall|i: int, j: int|
                0 <= i < q@.len() && 0 <= j < q@[i]@.len() ==> (#[trigger] q@[i]@[j]) == 0i64,
        decreases num_episodes - ep,
    {
        env.reset();
        let trace = rollout_epsilon_greedy(&mut env, &q, epsilon);
        first_visit_update(&trace, gamma, &mut q, &mut logs, ns, na);
        ep = ep + 1;
    }
    let pi = extract_greedy_policy(&q, ns, na);
    proof {
        assert(exists|l: Seq<Vec<Vec<i64>>>|
            #[trigger] logs_wf(l, E::spec_num_states(), E::spec_num_actions())
                && q_is_mean_of_logs(q@, l)) by {
            assert(logs_wf(logs@, E::spec_num_states(), E::spec_num_actions())
                && q_is_mean_of_logs(q@, logs@));
        }
    }
    (q, pi)
}

} // verus!
