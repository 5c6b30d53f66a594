//! A dense cache of an MDP's transition tensor and reward values, built once
//! before the iterative planning loops so no probability is recomputed inside
//! them, together with the state-action backup computed from the cache.
//!
//! The ghost layer speaks directly of the environment type's model: every
//! spec function here is a function of `E`'s spec-level counts, rewards and
//! transition probabilities alone, and the cache is proved to agree with them
//! pointwise.

use vstd::prelude::*;
use crate::contracts::mdp_env::MDPEnv;
use crate::fixed::{SCALE, SCORE_MAX, clamp_val, max_val, scale_down, val_ok};
use crate::fixed::{add_sat, mul_frac};

verus! {

/// Iteration budget of the convergence loops: the full range of the sweep
/// counter, so within it a run stops only at convergence.
pub const ITER_LIMIT: u64 = 0xffff_ffff_ffff_ffff;

/// The cached model: `probs[s][a][s'][r]` and `rewards[r]`.
pub struct CachedMdp {
    pub num_states: usize,
    pub num_actions: usize,
    pub num_rewards: usize,
    pub probs: Vec<Vec<Vec<Vec<i64>>>>,
    pub rewards: Vec<i64>,
}

/// One term of the backup sum:
/// `p(s', r | s, a) * (reward(r) + gamma * v[s'])`.
pub open spec fn spec_backup_term<E: MDPEnv>(v: Seq<i64>, s: int, a: int, sp: int, r: int, gamma: int) -> int {
    scale_down(
        E::spec_reward(r) + scale_down(v[sp] as int, gamma),
        E::spec_transition_probability(s, a, sp, r),
    )
}

/// Accumulation of the terms for next state `sp` over reward indices
/// `[0, nr)`, starting from `acc0`; each addition saturates.
pub open spec fn spec_acc_rewards<E: MDPEnv>(
    v: Seq<i64>,
    s: int,
    a: int,
    sp: int,
    gamma: int,
    nr: int,
    acc0: int,
) -> int
    decreases nr,
{
    if nr <= 0 {
        acc0
    } else {
        clamp_val(
            spec_acc_rewards::<E>(v, s, a, sp, gamma, nr - 1, acc0) + spec_backup_term::<E>(
                v,
                s,
                a,
                sp,
                nr - 1,
                gamma,
            ),
        )
    }
}

/// Accumulation over next states `[0, nsp)`, all reward indices each.
pub open spec fn spec_acc_states<E: MDPEnv>(v: Seq<i64>, s: int, a: int, gamma: int, nsp: int) -> int
    decreases nsp,
{
    if nsp <= 0 {
        0
    } else {
        spec_acc_rewards::<E>(
            v,
            s,
            a,
            nsp - 1,
            gamma,
            E::spec_num_rewards() as int,
            spec_acc_states::<E>(v, s, a, gamma, nsp - 1),
        )
    }
}

/// The state-action value `sum_{s', r} p(s', r | s, a) *
/// (reward(r) + gamma * v[s'])` under saturating accumulation.
pub open spec fn spec_q_value<E: MDPEnv>(v: Seq<i64>, s: int, a: int, gamma: int) -> int {
    spec_acc_states::<E>(v, s, a, gamma, E::spec_num_states() as int)
}

/// Largest backup value of state `s` over actions `[0, na)`.
pub open spec fn spec_best_value_upto<E: MDPEnv>(v: Seq<i64>, s: int, gamma: int, na: int) -> int
    decreases na,
{
    if na <= 1 {
        spec_q_value::<E>(v, s, 0, gamma)
    } else {
        max_val(
            spec_best_value_upto::<E>(v, s, gamma, na - 1),
            spec_q_value::<E>(v, s, na - 1, gamma),
        )
    }
}

/// Largest backup value of state `s` over all actions.
pub open spec fn spec_best_value<E: MDPEnv>(v: Seq<i64>, s: int, gamma: int) -> int {
    spec_best_value_upto::<E>(v, s, gamma, E::spec_num_actions() as int)
}

/// The action attaining the largest backup value of state `s` among
/// `[0, na)`, lowest action index on ties.
pub open spec fn spec_best_action_upto<E: MDPEnv>(v: Seq<i64>, s: int, gamma: int, na: int) -> int
    decreases na,
{
    if na <= 1 {
        0
    } else {
        let prev = spec_best_action_upto::<E>(v, s, gamma, na - 1);
        if spec_q_value::<E>(v, s, na - 1, gamma) > spec_q_value::<E>(v, s, prev, gamma) {
            na - 1
        } else {
            prev
        }
    }
}

/// The greedy action of state `s`, lowest action index on ties.
pub open spec fn spec_best_action<E: MDPEnv>(v: Seq<i64>, s: int, gamma: int) -> int {
    spec_best_action_upto::<E>(v, s, gamma, E::spec_num_actions() as int)
}

/// The greedy action attains the best value and no lower action does.
pub proof fn lemma_best_action_attains<E: MDPEnv>(v: Seq<i64>, s: int, gamma: int, na: int)
    requires
        na >= 1,
    ensures
        0 <= spec_best_action_upto::<E>(v, s, gamma, na) < na,
        spec_q_value::<E>(v, s, spec_best_action_upto::<E>(v, s, gamma, na), gamma)
            == spec_best_value_upto::<E>(v, s, gamma, na),
        forall|a: int|
            0 <= a < na ==> #[trigger] spec_q_value::<E>(v, s, a, gamma) <= spec_best_value_upto::<
                E,
            >(v, s, gamma, na),
        forall|a: int|
            0 <= a < spec_best_action_upto::<E>(v, s, gamma, na)
                ==> #[trigger] spec_q_value::<E>(v, s, a, gamma) < spec_best_value_upto::<E>(
                v,
                s,
                gamma,
                na,
            ),
    decreases na,
{
    if na > 1 {
        lemma_best_action_attains::<E>(v, s, gamma, na - 1);
    }
}

impl CachedMdp {
    pub open spec fn wf(&self) -> bool {
        &&& self.num_states >= 1
        &&& self.num_actions >= 1
        &&& self.probs@.len() == self.num_states
        &&& forall|s: int|
            0 <= s < self.num_states ==> (#[trigger] self.probs@[s])@.len() == self.num_actions
        &&& forall|s: int, a: int|
            0 <= s < self.num_states && 0 <= a < self.num_actions ==> (#[trigger] self.probs@[s]@[a])@.len()
                == self.num_states
        &&& forall|s: int, a: int, sp: int|
            0 <= s < self.num_states && 0 <= a < self.num_actions && 0 <= sp < self.num_states
                ==> (#[trigger] self.probs@[s]@[a]@[sp])@.len() == self.num_rewards
        &&& self.rewards@.len() == self.num_rewards
    }

    /// The cache holds exactly the model of environment `E`.
    pub open spec fn matches<E: MDPEnv>(&self) -> bool {
        &&& self.num_states as nat == E::spec_num_states()
        &&& self.num_actions as nat == E::spec_num_actions()
        &&& self.num_rewards as nat == E::spec_num_rewards()
        &&& forall|r: int|
            0 <= r < self.num_rewards ==> (#[trigger] self.rewards@[r]) as int == E::spec_reward(r)
                && -(SCORE_MAX as int) <= self.rewards@[r] as int <= SCORE_MAX as int
        &&& forall|s: int, a: int, sp: int, r: int|
            0 <= s < self.num_states && 0 <= a < self.num_actions && 0 <= sp < self.num_states
                && 0 <= r < self.num_rewards ==> (#[trigger] self.probs@[s]@[a]@[sp]@[r]) as int
                == E::spec_transition_probability(s, a, sp, r) && 0 <= self.probs@[s]@[a]@[sp]@[r]
                <= SCALE
    }

    /// Query every model entry of `E` once and cache it.
    #[verifier::loop_isolation(false)]
    pub fn build<E: MDPEnv>() -> (m: CachedMdp)
        requires
            E::spec_valid(),
        ensures
            m.wf(),
            m.matches::<E>(),
    {
        let ns = E::num_states();
        let na = E::num_actions();
        let nr = E::num_rewards();
        let mut rewards: Vec<i64> = Vec::new();
        let mut r: usize = 0;
        while r < nr
            invariant
                0 <= r <= nr,
                rewards@.len() == r,
                forall|t: int| 0 <= t < r ==> (#[trigger] rewards@[t]) as int == E::spec_reward(t),
                forall|t: int|
                    0 <= t < r ==> -(SCORE_MAX as int) <= (#[trigger] rewards@[t]) as int
                        <= SCORE_MAX as int,
            decreases nr - r,
        {
            rewards.push(E::reward(r));
            r = r + 1;
        }
        let mut probs: Vec<Vec<Vec<Vec<i64>>>> = Vec::new();
        let mut s: usize = 0;
        while s < ns
            invariant
                0 <= s <= ns,
                probs@.len() == s,
                forall|s0: int| 0 <= s0 < s ==> (#[trigger] probs@[s0])@.len() == na,
                forall|s0: int, a0: int|
                    0 <= s0 < s && 0 <= a0 < na ==> (#[trigger] probs@[s0]@[a0])@.len() == ns,
                forall|s0: int, a0: int, sp0: int|
                    0 <= s0 < s && 0 <= a0 < na && 0 <= sp0 < ns
                        ==> (#[trigger] probs@[s0]@[a0]@[sp0])@.len() == nr,
                forall|s0: int, a0: int, sp0: int, r0: int|
                    0 <= s0 < s && 0 <= a0 < na && 0 <= sp0 < ns && 0 <= r0 < nr
                        ==> (#[trigger] probs@[s0]@[a0]@[sp0]@[r0]) as int
                            == E::spec_transition_probability(s0, a0, sp0, r0)
                            && 0 <= probs@[s0]@[a0]@[sp0]@[r0] as int <= SCALE as int,
            decreases ns - s,
        {
            let mut row_a: Vec<Vec<Vec<i64>>> = Vec::new();
            let mut a: usize = 0;
            while a < na
                invariant
                    0 <= a <= na,
                    row_a@.len() == a,
                    forall|a0: int| 0 <= a0 < a ==> (#[trigger] row_a@[a0])@.len() == ns,
                    forall|a0: int, sp0: int|
                        0 <= a0 < a && 0 <= sp0 < ns ==> (#[trigger] row_a@[a0]@[sp0])@.len() == nr,
                    forall|a0: int, sp0: int, r0: int|
                        0 <= a0 < a && 0 <= sp0 < ns && 0 <= r0 < nr
                            ==> (#[trigger] row_a@[a0]@[sp0]@[r0]) as int
                                == E::spec_transition_probability(s as int, a0, sp0, r0)
                                && 0 <= row_a@[a0]@[sp0]@[r0] as int <= SCALE as int,
                decreases na - a,
            {
                let mut row_sp: Vec<Vec<i64>> = Vec::new();
                let mut sp: usize = 0;
                while sp < ns
                    invariant
                        0 <= sp <= ns,
                        row_sp@.len() == sp,
                        forall|sp0: int| 0 <= sp0 < sp ==> (#[trigger] row_sp@[sp0])@.len() == nr,
                        forall|sp0: int, r0: int|
                            0 <= sp0 < sp && 0 <= r0 < nr ==> (#[trigger] row_sp@[sp0]@[r0]) as int
                                == E::spec_transition_probability(s as int, a as int, sp0, r0)
                                && 0 <= row_sp@[sp0]@[r0] as int <= SCALE as int,
                    decreases ns - sp,
                {
                    let mut row_r: Vec<i64> = Vec::new();
                    let mut ri: usize = 0;
                    while ri < nr
                        invariant
                            0 <= ri <= nr,
                            row_r@.len() == ri,
                            forall|r0: int|
                                0 <= r0 < ri ==> (#[trigger] row_r@[r0]) as int
                                    == E::spec_transition_probability(
                                    s as int,
                                    a as int,
                                    sp as int,
                                    r0,
                                ) && 0 <= row_r@[r0] as int <= SCALE as int,
                        decreases nr - ri,
                    {
                        row_r.push(E::transition_probability(s, a, sp, ri));
                        ri = ri + 1;
                    }
                    row_sp.push(row_r);
                    proof {
                        assert(row_sp@[sp as int] == row_r);
                    }
                    sp = sp + 1;
                }
                row_a.push(row_sp);
                proof {
                    assert(row_a@[a as int] == row_sp);
                }
                a = a + 1;
            }
            probs.push(row_a);
            proof {
                assert(probs@[s as int] == row_a);
            }
            s = s + 1;
        }
        CachedMdp { num_states: ns, num_actions: na, num_rewards: nr, probs, rewards }
    }

    /// The backup value of `(s, a)` against the value function `v`.
    #[verifier::loop_isolation(false)]
    pub fn q_value<E: MDPEnv>(&self, v: &Vec<i64>, s: usize, a: usize, gamma: i64) -> (qv: i64)
        requires
            self.wf(),
            self.matches::<E>(),
            v@.len() == self.num_states,
            forall|i: int| 0 <= i < v@.len() ==> val_ok(#[trigger] v@[i] as int),
            s < self.num_states,
            a < self.num_actions,
            0 <= gamma <= SCALE,
        ensures
            qv as int == spec_q_value::<E>(v@, s as int, a as int, gamma as int),
            val_ok(qv as int),
    {
        let mut total: i64 = 0;
        let mut sp: usize = 0;
        while sp < self.num_states
            invariant
                0 <= sp <= self.num_states,
                total as int == spec_acc_states::<E>(v@, s as int, a as int, gamma as int, sp as int),
                val_ok(total as int),
            decreases self.num_states - sp,
        {
            let mut ri: usize = 0;
            let ghost entry = total as int;
            while ri < self.num_rewards
                invariant
                    0 <= ri <= self.num_rewards,
                    val_ok(entry),
                    total as int == spec_acc_rewards::<E>(
                        v@,
                        s as int,
                        a as int,
                        sp as int,
                        gamma as int,
                        ri as int,
                        entry,
                    ),
                    val_ok(total as int),
                decreases self.num_rewards - ri,
            {
                proof {
                    assert(0 <= self.probs@[s as int]@[a as int]@[sp as int]@[ri as int] <= SCALE);
                    assert(-(SCORE_MAX as int) <= (self.rewards@[ri as int]) as int
                        <= SCORE_MAX as int);
                    assert(val_ok(v@[sp as int] as int));
                }
                let p = self.probs[s][a][sp][ri];
                let disc = mul_frac(v[sp], gamma);
                let inner = self.rewards[ri] + disc;
                let c = mul_frac(inner, p);
                proof {
                    crate::fixed::lemma_scale_down_bound(inner as int, p as int);
                }
                total = add_sat(total, c);
                ri = ri + 1;
            }
            sp = sp + 1;
        }
        total
    }

    /// The greedy action of state `s` and its backup value.
    #[verifier::loop_isolation(false)]
    pub fn best_action_value<E: MDPEnv>(&self, v: &Vec<i64>, s: usize, gamma: i64) -> (res: (
        usize,
        i64,
    ))
        requires
            self.wf(),
            self.matches::<E>(),
            v@.len() == self.num_states,
            forall|i: int| 0 <= i < v@.len() ==> val_ok(#[trigger] v@[i] as int),
            s < self.num_states,
            0 <= gamma <= SCALE,
        ensures
            res.0 as int == spec_best_action::<E>(v@, s as int, gamma as int),
            res.1 as int == spec_best_value::<E>(v@, s as int, gamma as int),
            res.0 < self.num_actions,
            val_ok(res.1 as int),
    {
        let mut best_a: usize = 0;
        let mut best_v: i64 = self.q_value::<E>(v, s, 0, gamma);
        let mut a: usize = 1;
        while a < self.num_actions
            invariant
                1 <= a <= self.num_actions,
                best_a < a,
                best_a as int == spec_best_action_upto::<E>(v@, s as int, gamma as int, a as int),
                best_v as int == spec_best_value_upto::<E>(v@, s as int, gamma as int, a as int),
                best_v as int == spec_q_value::<E>(v@, s as int, best_a as int, gamma as int),
                val_ok(best_v as int),
            decreases self.num_actions - a,
        {
            let qv = self.q_value::<E>(v, s, a, gamma);
            if qv > best_v {
                best_a = a;
                best_v = qv;
            }
            a = a + 1;
        }
        (best_a, best_v)
    }
}

} // verus!
