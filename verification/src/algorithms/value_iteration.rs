//! Value iteration: sweep the state space in place, replacing each V(s) by
//! the best backup value, until the largest change of a sweep falls below
//! `theta`; then extract the greedy policy from the converged value function
//! so the returned policy is never a default array.

use vstd::prelude::*;
use vstd::pervasive::VecAdditionalExecFns;
use crate::algorithms::cached_mdp::{CachedMdp, ITER_LIMIT, spec_best_action, spec_best_value};
use crate::contracts::mdp_env::MDPEnv;
use crate::fixed::{SCALE, abs_val, max_val, val_ok};
use crate::fixed::{abs_diff, max_i64};

verus! {

/// One in-place sweep over states `[0, ns)`: position `s` is replaced by the
/// best backup value against the partially updated function; the second
/// component is the largest absolute change seen so far.
pub open spec fn spec_vi_sweep<E: MDPEnv>(v: Seq<i64>, gamma: int, ns: int) -> (Seq<i64>, int)
    decreases ns,
{
    if ns <= 0 {
        (v, 0)
    } else {
        let prev = spec_vi_sweep::<E>(v, gamma, ns - 1);
        let nv = spec_best_value::<E>(prev.0, ns - 1, gamma);
        (
            prev.0.update(ns - 1, nv as i64),
            max_val(prev.1, abs_val(prev.0[ns - 1] as int - nv)),
        )
    }
}

/// Sweeps applied repeatedly, at most `fuel` of them, stopping after the
/// first sweep whose largest change falls below `theta`.
pub open spec fn spec_vi_iter<E: MDPEnv>(v: Seq<i64>, gamma: int, theta: int, fuel: nat) -> Seq<i64>
    decreases fuel,
{
    if fuel == 0 {
        v
    } else {
        let sw = spec_vi_sweep::<E>(v, gamma, E::spec_num_states() as int);
        if sw.1 < theta {
            sw.0
        } else {
            spec_vi_iter::<E>(sw.0, gamma, theta, (fuel - 1) as nat)
        }
    }
}

/// The greedy policy read off a value function, lowest action index on ties.
pub open spec fn spec_greedy_policy<E: MDPEnv>(v: Seq<i64>, gamma: int) -> Seq<usize> {
    Seq::new(E::spec_num_states(), |s: int| spec_best_action::<E>(v, s, gamma) as usize)
}

/// The all-zero initial value function.
pub open spec fn spec_zero_values<E: MDPEnv>() -> Seq<i64> {
    Seq::new(E::spec_num_states(), |s: int| 0i64)
}

/// The value function that value iteration converges to on `E`'s model.
pub open spec fn spec_vi_result<E: MDPEnv>(gamma: int, theta: int) -> Seq<i64> {
    spec_vi_iter::<E>(spec_zero_values::<E>(), gamma, theta, ITER_LIMIT as nat)
}

/// One in-place sweep; returns the largest absolute change.
#[verifier::loop_isolation(false)]
fn vi_sweep<E: MDPEnv>(m: &CachedMdp, v: &mut Vec<i64>, gamma: i64) -> (delta: i64)
    requires
        m.wf(),
        m.matches::<E>(),
        old(v)@.len() == m.num_states,
        forall|i: int| 0 <= i < old(v)@.len() ==> val_ok(#[trigger] old(v)@[i] as int),
        0 <= gamma <= SCALE,
    ensures
        final(v)@ == spec_vi_sweep::<E>(old(v)@, gamma as int, m.num_states as int).0,
        delta as int == spec_vi_sweep::<E>(old(v)@, gamma as int, m.num_states as int).1,
        final(v)@.len() == m.num_states,
        forall|i: int| 0 <= i < final(v)@.len() ==> val_ok(#[trigger] final(v)@[i] as int),
{
    let ghost v0 = v@;
    let mut delta: i64 = 0;
    let mut s: usize = 0;
    while s < m.num_states
        invariant
            0 <= s <= m.num_states,
            v@.len() == m.num_states,
            forall|i: int| 0 <= i < v@.len() ==> val_ok(#[trigger] v@[i] as int),
            v@ == spec_vi_sweep::<E>(v0, gamma as int, s as int).0,
            delta as int == spec_vi_sweep::<E>(v0, gamma as int, s as int).1,
        decreases m.num_states - s,
    {
        let old_val = v[s];
        let res = m.best_action_value::<E>(v, s, gamma);
        let nv = res.1;
        let d = abs_diff(old_val, nv);
        delta = max_i64(delta, d);
        v.set(s, nv);
        s = s + 1;
    }
    delta
}

/// Value iteration on the MDP model of `E`, with discount `gamma` and
/// convergence tolerance `theta`, from the all-zero value function. Returns
/// the greedy policy extracted from the final value function, and that value
/// function; both are pinned exactly by the spec-level iteration, which runs
/// until convergence within the range of the sweep counter.
#[verifier::loop_isolation(false)]
pub fn value_iteration<E: MDPEnv>(gamma: i64, theta: i64) -> (res: (Vec<usize>, Vec<i64>))
    requires
        E::spec_valid(),
        0 <= gamma <= SCALE,
    ensures
        res.1@ == spec_vi_result::<E>(gamma as int, theta as int),
        res.0@ == spec_greedy_policy::<E>(spec_vi_result::<E>(gamma as int, theta as int), gamma as int),
        res.0@.len() == E::spec_num_states(),
        res.1@.len() == E::spec_num_states(),
{
    let m = CachedMdp::build::<E>();
    let mut v: Vec<i64> = Vec::new();
    let mut i: usize = 0;
    while i < m.num_states
        invariant
            0 <= i <= m.num_states,
            v@.len() == i,
            forall|t: int| 0 <= t < i ==> (#[trigger] v@[t]) == 0i64,
        decreases m.num_states - i,
    {
        v.push(0);
        i = i + 1;
    }
    proof {
        assert(v@ =~= spec_zero_values::<E>());
    }
    let ghost target = spec_vi_result::<E>(gamma as int, theta as int);
    let mut fuel: u64 = ITER_LIMIT;
    let mut done: bool = false;
    while !done && fuel > 0
        invariant
            v@.len() == m.num_states,
            forall|t: int| 0 <= t < v@.len() ==> val_ok(#[trigger] v@[t] as int),
            done ==> v@ == target,
            !done ==> spec_vi_iter::<E>(v@, gamma as int, theta as int, fuel as nat) == target,
        decreases fuel,
    {
        let delta = vi_sweep::<E>(&m, &mut v, gamma);
        fuel = fuel - 1;
        if delta < theta {
            done = true;
        }
    }
    let mut pi: Vec<usize> = Vec::new();
    let mut s: usize = 0;
    while s < m.num_states
        invariant
            0 <= s <= m.num_states,
            pi@.len() == s,
            forall|t: int|
                0 <= t < s ==> (#[trigger] pi@[t]) as int == spec_best_action::<E>(
                    v@,
                    t,
                    gamma as int,
                ),
        decreases m.num_states - s,
    {
        let res = m.best_action_value::<E>(&v, s, gamma);
        pi.push(res.0);
        s = s + 1;
    }
    proof {
        assert(pi@ =~= spec_greedy_policy::<E>(v@, gamma as int));
    }
    (pi, v)
}

} // verus!
