//! The temporal-difference backup rule and the Q-table it acts on.

use vstd::prelude::*;
use crate::fixed::{SCALE, SCORE_MAX, clamp_val, max_val, scale_down, val_ok};
use crate::fixed::{add_sat, mul_frac};

verus! {

/// Step budget of an episode rollout: the full range of the step counter,
/// so within it an episode runs to the environment's terminal signal.
pub const STEP_LIMIT: u64 = 0xffff_ffff_ffff_ffff;

/// One observed transition: the state acted in, the action taken, the score
/// difference it earned, and the state reached.
#[derive(Clone, Copy, Debug, PartialEq, Eq, Structural)]
pub struct Transition {
    pub s: usize,
    pub a: usize,
    pub r: i64,
    pub s_next: usize,
}

/// Well-formedness of a dense Q-table: `s` rows of `a` in-range entries.
pub open spec fn q_wf(q: Seq<Vec<i64>>, s: nat, a: nat) -> bool {
    &&& q.len() == s
    &&& forall|i: int| 0 <= i < q.len() ==> (#[trigger] q[i])@.len() == a
    &&& forall|i: int, j: int|
        0 <= i < q.len() && 0 <= j < q[i]@.len() ==> val_ok(#[trigger] q[i]@[j] as int)
}

/// A reward observed in one step: the difference of two bounded scores.
pub open spec fn reward_ok(r: int) -> bool {
    -2 * (SCORE_MAX as int) <= r <= 2 * (SCORE_MAX as int)
}

/// The next Q(s,a) after one temporal-difference backup with step size
/// `alpha`, discount `gamma`, observed reward `r` and bootstrap value `boot`:
/// `Q + alpha * (r + gamma * boot - Q)`, saturating at the value range.
pub open spec fn spec_td_next(q_sa: int, r: int, boot: int, alpha: int, gamma: int) -> int {
    clamp_val(q_sa + scale_down(r + scale_down(boot, gamma) - q_sa, alpha))
}

/// One temporal-difference backup.
pub fn td_update(q_sa: i64, r: i64, boot: i64, alpha: i64, gamma: i64) -> (nq: i64)
    requires
        0 <= alpha <= SCALE,
        0 <= gamma <= SCALE,
        val_ok(q_sa as int),
        val_ok(boot as int),
        reward_ok(r as int),
    ensures
        nq as int == spec_td_next(q_sa as int, r as int, boot as int, alpha as int, gamma as int),
        val_ok(nq as int),
{
    let disc = mul_frac(boot, gamma);
    let target = r + disc;
    let delta = target - q_sa;
    let adj = mul_frac(delta, alpha);
    add_sat(q_sa, adj)
}

/// Largest entry of the prefix `[0, n)` of a Q-row.
pub open spec fn spec_row_max_upto(q_row: Seq<i64>, n: int) -> int
    decreases n,
{
    if n <= 1 {
        q_row[0] as int
    } else {
        max_val(spec_row_max_upto(q_row, n - 1), q_row[n - 1] as int)
    }
}

/// Largest entry of a non-empty Q-row.
pub open spec fn spec_row_max(q_row: Seq<i64>) -> int {
    spec_row_max_upto(q_row, q_row.len() as int)
}

/// The row maximum bounds every entry and is attained.
pub proof fn lemma_row_max_is_max(q_row: Seq<i64>, n: int)
    requires
        1 <= n <= q_row.len(),
    ensures
        forall|i: int| 0 <= i < n ==> #[trigger] q_row[i] as int <= spec_row_max_upto(q_row, n),
        exists|i: int| 0 <= i < n && #[trigger] q_row[i] as int == spec_row_max_upto(q_row, n),
    decreases n,
{
    if n <= 1 {
        assert(q_row[0] as int == spec_row_max_upto(q_row, n));
    } else {
        lemma_row_max_is_max(q_row, n - 1);
        if q_row[n - 1] as int >= spec_row_max_upto(q_row, n - 1) {
            assert(q_row[n - 1] as int == spec_row_max_upto(q_row, n));
        } else {
            let i = choose|i: int|
                0 <= i < n - 1 && #[trigger] q_row[i] as int == spec_row_max_upto(q_row, n - 1);
            assert(q_row[i] as int == spec_row_max_upto(q_row, n));
        }
    }
}

/// Maximum over a non-empty Q-row, for the off-policy bootstrap.
pub fn row_max(q_row: &Vec<i64>) -> (m: i64)
    requires
        q_row@.len() >= 1,
        forall|i: int| 0 <= i < q_row@.len() ==> val_ok(#[trigger] q_row@[i] as int),
    ensures
        m as int == spec_row_max(q_row@),
        val_ok(m as int),
{
    proof {
        lemma_row_max_is_max(q_row@, q_row@.len() as int);
    }
    let mut m: i64 = q_row[0];
    let mut i: usize = 1;
    while i < q_row.len()
        invariant
            1 <= i <= q_row@.len(),
            m as int == spec_row_max_upto(q_row@, i as int),
        decreases q_row@.len() - i,
    {
        if q_row[i] > m {
            m = q_row[i];
        }
        i = i + 1;
    }
    m
}

/// A fresh `s` by `a` Q-table with every estimate zero.
pub fn zero_table(s: usize, a: usize) -> (q: Vec<Vec<i64>>)
    ensures
        q_wf(q@, s as nat, a as nat),
        forall|i: int, j: int| 0 <= i < s && 0 <= j < a ==> #[trigger] q@[i]@[j] == 0i64,
{
    let mut q: Vec<Vec<i64>> = Vec::new();
    let mut i: usize = 0;
    while i < s
        invariant
            0 <= i <= s,
            q@.len() == i as nat,
            forall|k: int| 0 <= k < i ==> (#[trigger] q@[k])@.len() == a as nat,
            forall|k: int, j: int| 0 <= k < i && 0 <= j < a ==> #[trigger] q@[k]@[j] == 0i64,
        decreases s - i,
    {
        let mut row: Vec<i64> = Vec::new();
        let mut j: usize = 0;
        while j < a
            invariant
                0 <= j <= a,
                row@.len() == j as nat,
                forall|t: int| 0 <= t < j ==> row@[t] == 0i64,
            decreases a - j,
        {
            row.push(0);
            j = j + 1;
        }
        q.push(row);
        i = i + 1;
    }
    q
}

} // verus!
