//! First-visit return bookkeeping shared by the Monte Carlo variants.
//!
//! An episode trace records each transition's own reward, and the backward
//! walk accumulates `G = r + gamma * G` from it; only the first chronological
//! occurrence of each (state, action) pair appends its return to the pair's
//! log, and the pair's stored estimate is always the arithmetic mean of its
//! full log (not an incremental average).

use vstd::prelude::*;
use vstd::pervasive::VecAdditionalExecFns;
use crate::algorithms::backup::{q_wf, reward_ok};
use crate::contracts::model_free_env::ModelFreeEnv;
use crate::fixed::{SCALE, clamp_val, mean_val, scale_down, val_ok};
use crate::fixed::{add_sat, mean, mul_frac};

verus! {

/// One recorded transition of an episode: the state acted in, the action
/// taken and the reward it earned (the score difference of the step).
#[derive(Clone, Copy, Debug, PartialEq, Eq, Structural)]
pub struct Step {
    pub s: usize,
    pub a: usize,
    pub r: i64,
}

/// The trace records an executed run of the environment along the state
/// chain `chain`: each step was taken in a non-terminal state, from the
/// state id the trace records, with a legal action, and its reward is the
/// score difference of that step.
pub open spec fn trace_records_run<E: ModelFreeEnv>(trace: Seq<Step>, chain: Seq<E>) -> bool {
    &&& chain.len() == trace.len() + 1
    &&& forall|i: int|
        0 <= i < trace.len() ==> {
            &&& !(#[trigger] chain[i]).spec_is_game_over()
            &&& trace[i].s as nat == chain[i].spec_state_id()
            &&& (trace[i].a as nat) < E::spec_num_actions()
            &&& !chain[i].spec_is_forbidden(trace[i].a as int)
            &&& chain[i + 1] == chain[i].spec_step(trace[i].a as int)
            &&& trace[i].r as int == chain[i + 1].spec_score() - chain[i].spec_score()
        }
}

/// Every recorded step indexes into an `s` by `a` table and carries a
/// one-step reward.
pub open spec fn trace_wf(trace: Seq<Step>, s: nat, a: nat) -> bool {
    forall|t: int|
        0 <= t < trace.len() ==> (#[trigger] trace[t]).s < s && trace[t].a < a && reward_ok(
            trace[t].r as int,
        )
}

/// The discounted return earned from time `t` on:
/// `G_t = r_t + gamma * G_{t+1}`, zero beyond the end, saturating.
pub open spec fn spec_return_at(trace: Seq<Step>, gamma: int, t: int) -> int
    decreases trace.len() - t,
{
    if t < 0 || t >= trace.len() {
        0
    } else {
        clamp_val(trace[t].r + scale_down(spec_return_at(trace, gamma, t + 1), gamma))
    }
}

/// Index of the first occurrence of the pair `(s, a)` at or after `t`;
/// `trace.len()` when the pair does not occur there.
pub open spec fn spec_first_occ_from(trace: Seq<Step>, s: int, a: int, t: int) -> int
    decreases trace.len() - t,
{
    if t < 0 || t >= trace.len() {
        trace.len() as int
    } else if trace[t].s == s && trace[t].a == a {
        t
    } else {
        spec_first_occ_from(trace, s, a, t + 1)
    }
}

/// Index of the first chronological occurrence of the pair `(s, a)`;
/// `trace.len()` when the pair never occurs.
pub open spec fn spec_first_occ(trace: Seq<Step>, s: int, a: int) -> int {
    spec_first_occ_from(trace, s, a, 0)
}

/// The first occurrence is an occurrence, nothing earlier is one, and an
/// occurrence at `t` puts the first one at or before `t`.
pub proof fn lemma_first_occ_from(trace: Seq<Step>, s: int, a: int, t: int)
    requires
        0 <= t <= trace.len(),
    ensures
        t <= spec_first_occ_from(trace, s, a, t) <= trace.len(),
        spec_first_occ_from(trace, s, a, t) < trace.len() ==> {
            let fi = spec_first_occ_from(trace, s, a, t);
            trace[fi].s == s && trace[fi].a == a
        },
        forall|u: int|
            t <= u < spec_first_occ_from(trace, s, a, t) ==> !((#[trigger] trace[u]).s == s
                && trace[u].a == a),
        forall|u: int|
            t <= u < trace.len() && (#[trigger] trace[u]).s == s && trace[u].a == a
                ==> spec_first_occ_from(trace, s, a, t) <= u,
    decreases trace.len() - t,
{
    if t < trace.len() && !(trace[t].s == s && trace[t].a == a) {
        lemma_first_occ_from(trace, s, a, t + 1);
    }
}

/// A per-pair log of every first-visit return recorded so far: one list of
/// in-range values for each (state, action) pair.
pub open spec fn logs_wf(logs: Seq<Vec<Vec<i64>>>, s: nat, a: nat) -> bool {
    &&& logs.len() == s
    &&& forall|i: int| 0 <= i < logs.len() ==> (#[trigger] logs[i])@.len() == a
    &&& forall|i: int, j: int, k: int|
        0 <= i < logs.len() && 0 <= j < logs[i]@.len() && 0 <= k < logs[i]@[j]@.len() ==> val_ok(
            #[trigger] logs[i]@[j]@[k] as int,
        )
}

/// Every stored estimate is the arithmetic mean of the pair's return log
/// (zero for an empty log).
pub open spec fn q_is_mean_of_logs(q: Seq<Vec<i64>>, logs: Seq<Vec<Vec<i64>>>) -> bool {
    &&& q.len() == logs.len()
    &&& forall|i: int| 0 <= i < q.len() ==> (#[trigger] q[i])@.len() == logs[i]@.len()
    &&& forall|i: int, j: int|
        0 <= i < q.len() && 0 <= j < q[i]@.len() ==> (#[trigger] q[i]@[j]) as int == mean_val(
            logs[i]@[j]@,
        )
}

/// An `s` by `a` table of empty return logs.
pub fn empty_logs(s: usize, a: usize) -> (logs: Vec<Vec<Vec<i64>>>)
    ensures
        logs_wf(logs@, s as nat, a as nat),
        forall|i: int, j: int|
            0 <= i < s && 0 <= j < a ==> (#[trigger] logs@[i]@[j])@.len() == 0,
{
    let mut logs: Vec<Vec<Vec<i64>>> = Vec::new();
    let mut i: usize = 0;
    while i < s
        invariant
            0 <= i <= s,
            logs@.len() == i,
            forall|k: int| 0 <= k < i ==> (#[trigger] logs@[k])@.len() == a,
            forall|k: int, j: int|
                0 <= k < i && 0 <= j < a ==> (#[trigger] logs@[k]@[j])@.len() == 0,
        decreases s - i,
    {
        let mut row: Vec<Vec<i64>> = Vec::new();
        let mut j: usize = 0;
        while j < a
            invariant
                0 <= j <= a,
                row@.len() == j,
                forall|t: int| 0 <= t < j ==> (#[trigger] row@[t])@.len() == 0,
            decreases a - j,
        {
            row.push(Vec::new());
            j = j + 1;
        }
        logs.push(row);
        proof {
            assert(logs@[i as int] == row);
        }
        i = i + 1;
    }
    logs
}

/// Walk an episode trace, append the return of each pair's first
/// chronological occurrence to the pair's log, and replace the pair's
/// estimate by the arithmetic mean of its updated log. Pairs that do not
/// occur in the trace are left untouched, in the log and in the table.
#[verifier::loop_isolation(false)]
pub fn first_visit_update(
    trace: &Vec<Step>,
    gamma: i64,
    q: &mut Vec<Vec<i64>>,
    logs: &mut Vec<Vec<Vec<i64>>>,
    ns: usize,
    na: usize,
)
    requires
        q_wf(old(q)@, ns as nat, na as nat),
        logs_wf(old(logs)@, ns as nat, na as nat),
        q_is_mean_of_logs(old(q)@, old(logs)@),
        trace_wf(trace@, ns as nat, na as nat),
        0 <= gamma <= SCALE,
    ensures
        q_wf(final(q)@, ns as nat, na as nat),
        logs_wf(final(logs)@, ns as nat, na as nat),
        q_is_mean_of_logs(final(q)@, final(logs)@),
        forall|ss: int, aa: int|
            0 <= ss < ns && 0 <= aa < na && #[trigger] spec_first_occ(trace@, ss, aa)
                < trace@.len() ==> final(logs)@[ss]@[aa]@ == old(logs)@[ss]@[aa]@.push(
                spec_return_at(trace@, gamma as int, spec_first_occ(trace@, ss, aa)) as i64,
            ),
        forall|ss: int, aa: int|
            0 <= ss < ns && 0 <= aa < na && #[trigger] spec_first_occ(trace@, ss, aa)
                >= trace@.len() ==> final(logs)@[ss]@[aa]@ == old(logs)@[ss]@[aa]@
                && final(q)@[ss]@[aa] == old(q)@[ss]@[aa],
{
    let len = trace.len();
    let mut rets: Vec<i64> = Vec::new();
    let mut i: usize = 0;
    while i < len
        invariant
            0 <= i <= len,
            rets@.len() == i,
        decreases len - i,
    {
        rets.push(0);
        i = i + 1;
    }
    let mut g: i64 = 0;
    let mut t: usize = len;
    while t > 0
        invariant
            0 <= t <= len,
            len == trace@.len(),
            rets@.len() == len,
            g as int == spec_return_at(trace@, gamma as int, t as int),
            val_ok(g as int),
            forall|u: int|
                t <= u < len ==> (#[trigger] rets@[u]) as int == spec_return_at(
                    trace@,
                    gamma as int,
                    u,
                ) && val_ok(rets@[u] as int),
        decreases t,
    {
        t = t - 1;
        let gd = mul_frac(g, gamma);
        g = add_sat(trace[t].r, gd);
        rets.set(t, g);
    }
    let mut seen: Vec<Vec<bool>> = Vec::new();
    let mut si: usize = 0;
    while si < ns
        invariant
            0 <= si <= ns,
            seen@.len() == si,
            forall|k: int| 0 <= k < si ==> (#[trigger] seen@[k])@.len() == na,
            forall|k: int, j: int| 0 <= k < si && 0 <= j < na ==> !(#[trigger] seen@[k]@[j]),
        decreases ns - si,
    {
        let mut row: Vec<bool> = Vec::new();
        let mut j: usize = 0;
        while j < na
            invariant
                0 <= j <= na,
                row@.len() == j,
                forall|u: int| 0 <= u < j ==> !(#[trigger] row@[u]),
            decreases na - j,
        {
            row.push(false);
            j = j + 1;
        }
        seen.push(row);
        proof {
            assert(seen@[si as int] == row);
        }
        si = si + 1;
    }
    let ghost q0 = q@;
    let ghost logs0 = logs@;
    let mut t: usize = 0;
    proof {
        assert forall|ss: int, aa: int|
            0 <= ss < ns && 0 <= aa < na implies #[trigger] spec_first_occ(trace@, ss, aa)
            >= 0 by {
            lemma_first_occ_from(trace@, ss, aa, 0);
        }
    }
    while t < len
        invariant
            0 <= t <= len,
            len == trace@.len(),
            rets@.len() == len,
            forall|u: int|
                0 <= u < len ==> (#[trigger] rets@[u]) as int == spec_return_at(
                    trace@,
                    gamma as int,
                    u,
                ) && val_ok(rets@[u] as int),
            q_wf(q@, ns as nat, na as nat),
            logs_wf(logs@, ns as nat, na as nat),
            q_is_mean_of_logs(q@, logs@),
            seen@.len() == ns,
            forall|k: int| 0 <= k < ns ==> (#[trigger] seen@[k])@.len() == na,
            forall|ss: int, aa: int|
                0 <= ss < ns && 0 <= aa < na ==> ((#[trigger] seen@[ss]@[aa]) <==> spec_first_occ(
                    trace@,
                    ss,
                    aa,
                ) < t),
            forall|ss: int, aa: int|
                0 <= ss < ns && 0 <= aa < na && #[trigger] spec_first_occ(trace@, ss, aa) < t
                    ==> logs@[ss]@[aa]@ == logs0[ss]@[aa]@.push(
                    spec_return_at(trace@, gamma as int, spec_first_occ(trace@, ss, aa)) as i64,
                ),
            forall|ss: int, aa: int|
                0 <= ss < ns && 0 <= aa < na && #[trigger] spec_first_occ(trace@, ss, aa) >= t
                    ==> logs@[ss]@[aa]@ == logs0[ss]@[aa]@ && q@[ss]@[aa] == q0[ss]@[aa],
        decreases len - t,
    {
        let st = trace[t];
        let ghost seen_before = seen@;
        let ghost q_before = q@;
        let ghost logs_before = logs@;
        proof {
            lemma_first_occ_from(trace@, st.s as int, st.a as int, 0);
        }
        if !seen[st.s][st.a] {
            seen[st.s].set(st.a, true);
            logs[st.s][st.a].push(rets[t]);
            let mv = mean(&logs[st.s][st.a]);
            q[st.s].set(st.a, mv);
            proof {
                assert(spec_first_occ(trace@, st.s as int, st.a as int) == t);
            }
        }
        proof {
            assert forall|ss: int, aa: int|
                0 <= ss < ns && 0 <= aa < na && !(ss == st.s as int && aa == st.a as int) implies !(
            #[trigger] spec_first_occ(trace@, ss, aa) == t) by {
                lemma_first_occ_from(trace@, ss, aa, 0);
            }
        }
        t = t + 1;
    }
}

} // verus!
