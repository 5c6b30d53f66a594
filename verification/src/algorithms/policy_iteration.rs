//! Policy iteration: evaluate the current policy by in-place sweeps until
//! the largest change falls below `theta`, then improve it greedily (lowest
//! action index on ties); stop as soon as an improvement leaves the policy
//! unchanged.

use vstd::prelude::*;
use vstd::pervasive::VecAdditionalExecFns;
use crate::algorithms::cached_mdp::{CachedMdp, ITER_LIMIT, spec_best_action, spec_q_value};
use crate::algorithms::value_iteration::{spec_greedy_policy, spec_zero_values};
use crate::contracts::mdp_env::MDPEnv;
use crate::fixed::{SCALE, abs_val, max_val, val_ok};
use crate::fixed::{abs_diff, max_i64};

verus! {

/// One in-place evaluation sweep over states `[0, ns)` for policy `pi`:
/// position `s` is replaced by the backup value of action `pi[s]` against
/// the partially updated function; the second component is the largest
/// absolute change seen so far.
pub open spec fn spec_pe_sweep<E: MDPEnv>(pi: Seq<usize>, v: Seq<i64>, gamma: int, ns: int) -> (
    Seq<i64>,
    int,
)
    decreases ns,
{
    if ns <= 0 {
        (v, 0)
    } else {
        let prev = spec_pe_sweep::<E>(pi, v, gamma, ns - 1);
        let nv = spec_q_value::<E>(prev.0, ns - 1, pi[ns - 1] as int, gamma);
        (
            prev.0.update(ns - 1, nv as i64),
            max_val(prev.1, abs_val(prev.0[ns - 1] as int - nv)),
        )
    }
}

/// Evaluation sweeps applied repeatedly, at most `fuel` of them, stopping
/// after the first sweep whose largest change falls below `theta`.
pub open spec fn spec_pe_iter<E: MDPEnv>(
    pi: Seq<usize>,
    v: Seq<i64>,
    gamma: int,
    theta: int,
    fuel: nat,
) -> Seq<i64>
    decreases fuel,
{
    if fuel == 0 {
        v
    } else {
        let sw = spec_pe_sweep::<E>(pi, v, gamma, E::spec_num_states() as int);
        if sw.1 < theta {
            sw.0
        } else {
            spec_pe_iter::<E>(pi, sw.0, gamma, theta, (fuel - 1) as nat)
        }
    }
}

/// Alternation of evaluation and greedy improvement, at most `fuel` rounds,
/// stopping as soon as the improved policy equals the evaluated one.
pub open spec fn spec_pi_iter<E: MDPEnv>(
    pi: Seq<usize>,
    v: Seq<i64>,
    gamma: int,
    theta: int,
    fuel: nat,
) -> (Seq<usize>, Seq<i64>)
    decreases fuel,
{
    if fuel == 0 {
        (pi, v)
    } else {
        let v1 = spec_pe_iter::<E>(pi, v, gamma, theta, ITER_LIMIT as nat);
        let pi1 = spec_greedy_policy::<E>(v1, gamma);
        if pi1 == pi {
            (pi1, v1)
        } else {
            spec_pi_iter::<E>(pi1, v1, gamma, theta, (fuel - 1) as nat)
        }
    }
}

/// The all-zero initial policy.
pub open spec fn spec_zero_policy<E: MDPEnv>() -> Seq<usize> {
    Seq::new(E::spec_num_states(), |s: int| 0usize)
}

/// The policy and value function that policy iteration converges to on
/// `E`'s model.
pub open spec fn spec_pi_result<E: MDPEnv>(gamma: int, theta: int) -> (Seq<usize>, Seq<i64>) {
    spec_pi_iter::<E>(
        spec_zero_policy::<E>(),
        spec_zero_values::<E>(),
        gamma,
        theta,
        ITER_LIMIT as nat,
    )
}

/// One in-place evaluation sweep; returns the largest absolute change.
#[verifier::loop_isolation(false)]
fn pe_sweep<E: MDPEnv>(m: &CachedMdp, pi: &Vec<usize>, v: &mut Vec<i64>, gamma: i64) -> (delta: i64)
    requires
        m.wf(),
        m.matches::<E>(),
        pi@.len() == m.num_states,
        forall|i: int| 0 <= i < pi@.len() ==> (#[trigger] pi@[i]) < m.num_actions,
        old(v)@.len() == m.num_states,
        forall|i: int| 0 <= i < old(v)@.len() ==> val_ok(#[trigger] old(v)@[i] as int),
        0 <= gamma <= SCALE,
    ensures
        final(v)@ == spec_pe_sweep::<E>(pi@, old(v)@, gamma as int, m.num_states as int).0,
        delta as int == spec_pe_sweep::<E>(pi@, old(v)@, gamma as int, m.num_states as int).1,
        final(v)@.len() == m.num_states,
        forall|i: int| 0 <= i < final(v)@.len() ==> val_ok(#[trigger] final(v)@[i] as int),
{
    let ghost v0 = v@;
    let mut delta: i64 = 0;
    let mut s: usize = 0;
    while s < m.num_states
        invariant
            0 <= s <= m.num_states,
            v@.len() == m.num_states,
            forall|i: int| 0 <= i < v@.len() ==> val_ok(#[trigger] v@[i] as int),
            v@ == spec_pe_sweep::<E>(pi@, v0, gamma as int, s as int).0,
            delta as int == spec_pe_sweep::<E>(pi@, v0, gamma as int, s as int).1,
        decreases m.num_states - s,
    {
        let old_val = v[s];
        let nv = m.q_value::<E>(v, s, pi[s], gamma);
        let d = abs_diff(old_val, nv);
        delta = max_i64(delta, d);
        v.set(s, nv);
        s = s + 1;
    }
    delta
}

/// Greedy improvement in place; returns whether the policy was left
/// unchanged.
#[verifier::loop_isolation(false)]
fn improve_policy<E: MDPEnv>(m: &CachedMdp, v: &Vec<i64>, pi: &mut Vec<usize>, gamma: i64) -> (stable: bool)
    requires
        m.wf(),
        m.matches::<E>(),
        old(pi)@.len() == m.num_states,
        v@.len() == m.num_states,
        forall|i: int| 0 <= i < v@.len() ==> val_ok(#[trigger] v@[i] as int),
        0 <= gamma <= SCALE,
    ensures
        final(pi)@ == spec_greedy_policy::<E>(v@, gamma as int),
        stable <==> final(pi)@ == old(pi)@,
        final(pi)@.len() == m.num_states,
        forall|i: int| 0 <= i < final(pi)@.len() ==> (#[trigger] final(pi)@[i]) < m.num_actions,
{
    let ghost pi0 = pi@;
    let mut stable: bool = true;
    let mut s: usize = 0;
    while s < m.num_states
        invariant
            0 <= s <= m.num_states,
            pi@.len() == m.num_states,
            forall|t: int|
                0 <= t < s ==> (#[trigger] pi@[t]) as int == spec_best_action::<E>(
                    v@,
                    t,
                    gamma as int,
                ) && pi@[t] < m.num_actions,
            forall|t: int| s <= t < pi@.len() ==> (#[trigger] pi@[t]) == pi0[t],
            stable <==> (forall|t: int| 0 <= t < s ==> (#[trigger] pi@[t]) == pi0[t]),
        decreases m.num_states - s,
    {
        let res = m.best_action_value::<E>(v, s, gamma);
        let cur = pi[s];
        let ghost pi_before = pi@;
        let ghost stable_before = stable;
        if res.0 != cur {
            stable = false;
        }
        pi.set(s, res.0);
        proof {
            if stable_before && res.0 == cur {
                assert forall|t: int| 0 <= t < s + 1 implies (#[trigger] pi@[t]) == pi0[t] by {
                    if t < s {
                        assert(pi@[t] == pi_before[t]);
                    } else {
                        assert(pi@[t] == res.0);
                    }
                }
            } else if !stable_before {
                assert(exists|t: int| 0 <= t < s && #[trigger] pi_before[t] != pi0[t]);
                let t0 = choose|t: int| 0 <= t < s && #[trigger] pi_before[t] != pi0[t];
                assert(pi@[t0] != pi0[t0]);
            } else {
                assert(pi@[s as int] != pi0[s as int]);
            }
        }
        s = s + 1;
    }
    proof {
        assert(pi@ =~= spec_greedy_policy::<E>(v@, gamma as int));
        if stable {
            assert(pi@ =~= pi0);
        } else {
            assert(pi@ != pi0);
        }
    }
    stable
}

/// Policy iteration on the MDP model of `E`, with discount `gamma` and
/// evaluation tolerance `theta`, from the all-zero policy and value
/// function. Returns the stable policy and its value function, pinned
/// exactly by the spec-level alternation, which runs until the policy is
/// stable within the range of the round counter.
#[verifier::loop_isolation(false)]
pub fn policy_iteration<E: MDPEnv>(gamma: i64, theta: i64) -> (res: (Vec<usize>, Vec<i64>))
    requires
        E::spec_valid(),
        0 <= gamma <= SCALE,
    ensures
        res.0@ == spec_pi_result::<E>(gamma as int, theta as int).0,
        res.1@ == spec_pi_result::<E>(gamma as int, theta as int).1,
        res.0@.len() == E::spec_num_states(),
        res.1@.len() == E::spec_num_states(),
{
    let m = CachedMdp::build::<E>();
    let mut v: Vec<i64> = Vec::new();
    let mut pi: Vec<usize> = Vec::new();
    let mut i: usize = 0;
    while i < m.num_states
        invariant
            0 <= i <= m.num_states,
            v@.len() == i,
            pi@.len() == i,
            forall|t: int| 0 <= t < i ==> (#[trigger] v@[t]) == 0i64,
            forall|t: int| 0 <= t < i ==> (#[trigger] pi@[t]) == 0usize,
        decreases m.num_states - i,
    {
        v.push(0);
        pi.push(0);
        i = i + 1;
    }
    proof {
        assert(v@ =~= spec_zero_values::<E>());
        assert(pi@ =~= spec_zero_policy::<E>());
    }
    let ghost target = spec_pi_result::<E>(gamma as int, theta as int);
    let mut fuel: u64 = ITER_LIMIT;
    let mut done: bool = false;
    while !done && fuel > 0
        invariant
            v@.len() == m.num_states,
            forall|t: int| 0 <= t < v@.len() ==> val_ok(#[trigger] v@[t] as int),
            pi@.len() == m.num_states,
            forall|t: int| 0 <= t < pi@.len() ==> (#[trigger] pi@[t]) < m.num_actions,
            done ==> (pi@, v@) == target,
            !done ==> spec_pi_iter::<E>(pi@, v@, gamma as int, theta as int, fuel as nat)
                == target,
        decreases fuel,
    {
        let ghost pi_entry = pi@;
        let ghost v_entry = v@;
        let mut eval_fuel: u64 = ITER_LIMIT;
        let mut eval_done: bool = false;
        while !eval_done && eval_fuel > 0
            invariant
                v@.len() == m.num_states,
                forall|t: int| 0 <= t < v@.len() ==> val_ok(#[trigger] v@[t] as int),
                pi@ == pi_entry,
                eval_done ==> v@ == spec_pe_iter::<E>(
                    pi_entry,
                    v_entry,
                    gamma as int,
                    theta as int,
                    ITER_LIMIT as nat,
                ),
                !eval_done ==> spec_pe_iter::<E>(
                    pi_entry,
                    v@,
                    gamma as int,
                    theta as int,
                    eval_fuel as nat,
                ) == spec_pe_iter::<E>(
                    pi_entry,
                    v_entry,
                    gamma as int,
                    theta as int,
                    ITER_LIMIT as nat,
                ),
            decreases eval_fuel,
        {
            let delta = pe_sweep::<E>(&m, &pi, &mut v, gamma);
            eval_fuel = eval_fuel - 1;
            if delta < theta {
                eval_done = true;
            }
        }
        let stable = improve_policy::<E>(&m, &v, &mut pi, gamma);
        fuel = fuel - 1;
        if stable {
            done = true;
        }
    }
    (pi, v)
}

} // verus!
