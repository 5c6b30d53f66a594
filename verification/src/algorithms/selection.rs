//! Action selection: deterministic argmax with lowest-index tie-breaking and
//! the epsilon-greedy rule built on it.

use vstd::prelude::*;
use crate::contracts::model_free_env::ModelFreeEnv;
use crate::fixed::SCALE;
use crate::rng;

verus! {

/// The list `l` is strictly increasing and holds exactly the in-range
/// actions that are legal in the current state of `env`. By
/// `lemma_sorted_lists_unique` there is at most one such list.
pub open spec fn lists_legal_actions<E: ModelFreeEnv>(env: E, l: Seq<usize>) -> bool {
    &&& forall|i: int, j: int| 0 <= i < j < l.len() ==> l[i] < l[j]
    &&& forall|x: usize|
        l.contains(x) <==> ((x as nat) < E::spec_num_actions() && !env.spec_is_forbidden(x as int))
}

/// Index of the largest entry among the first `n` entries of a Q-row,
/// scanning left to right and keeping the first maximum encountered.
pub open spec fn spec_greedy_upto(q_row: Seq<i64>, n: int) -> int
    decreases n,
{
    if n <= 1 {
        0
    } else {
        let prev = spec_greedy_upto(q_row, n - 1);
        if q_row[n - 1] > q_row[prev] {
            n - 1
        } else {
            prev
        }
    }
}

/// Greedy action over a whole Q-row: the lowest index attaining the maximum.
pub open spec fn spec_greedy(q_row: Seq<i64>) -> int {
    spec_greedy_upto(q_row, q_row.len() as int)
}

/// The greedy choice attains the row maximum and no earlier index does.
pub proof fn lemma_greedy_lowest_index(q_row: Seq<i64>, n: int)
    requires
        1 <= n <= q_row.len(),
    ensures
        0 <= spec_greedy_upto(q_row, n) < n,
        forall|i: int| 0 <= i < n ==> #[trigger] q_row[i] <= q_row[spec_greedy_upto(q_row, n)],
        forall|i: int|
            0 <= i < spec_greedy_upto(q_row, n) ==> #[trigger] q_row[i] < q_row[
                spec_greedy_upto(q_row, n)
            ],
    decreases n,
{
    if n > 1 {
        lemma_greedy_lowest_index(q_row, n - 1);
    }
}

/// Greedy action over the whole action space (lowest index wins ties).
pub fn greedy_action(q_row: &Vec<i64>) -> (a: usize)
    requires
        q_row@.len() >= 1,
    ensures
        a as int == spec_greedy(q_row@),
        a < q_row@.len(),
{
    let mut best: usize = 0;
    let mut i: usize = 1;
    while i < q_row.len()
        invariant
            1 <= i <= q_row@.len(),
            best as int == spec_greedy_upto(q_row@, i as int),
            best < i,
        decreases q_row@.len() - i,
    {
        if q_row[i] > q_row[best] {
            best = i;
        }
        i = i + 1;
    }
    best
}

/// Among the actions listed in `avail` (each an in-range index into the
/// Q-row), the earliest-listed one whose Q-value is largest, scanning the
/// first `n` entries.
pub open spec fn spec_greedy_in_upto(q_row: Seq<i64>, avail: Seq<usize>, n: int) -> usize
    decreases n,
{
    if n <= 1 {
        avail[0]
    } else {
        let prev = spec_greedy_in_upto(q_row, avail, n - 1);
        if q_row[avail[n - 1] as int] > q_row[prev as int] {
            avail[n - 1]
        } else {
            prev
        }
    }
}

/// Greedy action restricted to the available list (earliest listed wins
/// ties; with the list in increasing order that is the lowest action index).
pub open spec fn spec_greedy_in(q_row: Seq<i64>, avail: Seq<usize>) -> usize {
    spec_greedy_in_upto(q_row, avail, avail.len() as int)
}

/// The restricted greedy choice is taken from the list and maximizes the
/// Q-value over it.
pub proof fn lemma_greedy_in_is_max(q_row: Seq<i64>, avail: Seq<usize>, n: int)
    requires
        1 <= n <= avail.len(),
        forall|i: int| 0 <= i < avail.len() ==> (#[trigger] avail[i] as int) < q_row.len(),
    ensures
        avail.contains(spec_greedy_in_upto(q_row, avail, n)),
        forall|i: int|
            0 <= i < n ==> q_row[#[trigger] avail[i] as int]
                <= q_row[spec_greedy_in_upto(q_row, avail, n) as int],
    decreases n,
{
    assert(avail[0] == avail.index(0));
    if n > 1 {
        lemma_greedy_in_is_max(q_row, avail, n - 1);
    }
}

/// The action epsilon-greedy selects, given a uniform fraction draw `u` in
/// `[0, SCALE)` and a uniform index draw `k` into the available list:
/// explore with the drawn available action when `u < eps`, otherwise exploit
/// greedily over the available actions.
pub open spec fn spec_epsilon_greedy(q_row: Seq<i64>, avail: Seq<usize>, eps: int, u: int, k: int) -> usize {
    if u < eps {
        avail[k]
    } else {
        spec_greedy_in(q_row, avail)
    }
}

/// With epsilon 0 no draw can fall below it: selection is fully greedy and
/// deterministic, ties broken toward the earliest listed action.
pub proof fn lemma_epsilon_zero_is_greedy(q_row: Seq<i64>, avail: Seq<usize>, u: int, k: int)
    requires
        u >= 0,
    ensures
        spec_epsilon_greedy(q_row, avail, 0, u, k) == spec_greedy_in(q_row, avail),
{
}

/// With epsilon 1 every draw falls below it: selection is the uniform draw
/// among the available actions.
pub proof fn lemma_epsilon_one_is_uniform(q_row: Seq<i64>, avail: Seq<usize>, u: int, k: int)
    requires
        u < SCALE as int,
    ensures
        spec_epsilon_greedy(q_row, avail, SCALE as int, u, k) == avail[k],
{
}

/// Two strictly increasing lists with the same members are equal. The
/// available-action list of a state is strictly increasing and holds exactly
/// the legal actions, so it is the unique such list.
pub proof fn lemma_sorted_lists_unique(a: Seq<usize>, b: Seq<usize>)
    requires
        forall|i: int, j: int| 0 <= i < j < a.len() ==> a[i] < a[j],
        forall|i: int, j: int| 0 <= i < j < b.len() ==> b[i] < b[j],
        forall|x: usize| a.contains(x) <==> b.contains(x),
    ensures
        a == b,
    decreases a.len(),
{
    if a.len() == 0 {
        if b.len() > 0 {
            assert(b.contains(b[0]));
        }
        assert(a =~= b);
    } else {
        assert(a.contains(a[0]));
        assert(b.contains(a[0]));
        let ja = choose|j: int| 0 <= j < b.len() && b[j] == a[0];
        let jb = choose|j: int| 0 <= j < a.len() && a[j] == b[0];
        assert(a.contains(b[0]));
        assert(b[0] <= b[ja] && a[0] <= a[jb]);
        assert(a[0] == b[0]);
        let at = a.subrange(1, a.len() as int);
        let bt = b.subrange(1, b.len() as int);
        assert forall|x: usize| at.contains(x) <==> bt.contains(x) by {
            if at.contains(x) {
                let i = choose|i: int| 0 <= i < at.len() && at[i] == x;
                assert(a[i + 1] == x);
                assert(a.contains(x));
                assert(x > a[0]);
                let j = choose|j: int| 0 <= j < b.len() && b[j] == x;
                assert(j >= 1);
                assert(bt[j - 1] == x);
            }
            if bt.contains(x) {
                let i = choose|i: int| 0 <= i < bt.len() && bt[i] == x;
                assert(b[i + 1] == x);
                assert(b.contains(x));
                assert(x > b[0]);
                let j = choose|j: int| 0 <= j < a.len() && a[j] == x;
                assert(j >= 1);
                assert(at[j - 1] == x);
            }
        }
        lemma_sorted_lists_unique(at, bt);
        assert forall|i: int| 0 <= i < a.len() implies a[i] == b[i] by {
            if i > 0 {
                assert(a[i] == at[i - 1]);
                assert(b[i] == bt[i - 1]);
            }
        }
        assert(a =~= b);
    }
}

/// With epsilon 0, the selection depends only on the Q-row and the set of
/// legal actions: any two conforming availability lists and any draws give
/// the same choice.
pub proof fn lemma_epsilon_zero_deterministic(
    q_row: Seq<i64>,
    a: Seq<usize>,
    b: Seq<usize>,
    u1: int,
    u2: int,
    k1: int,
    k2: int,
)
    requires
        forall|i: int, j: int| 0 <= i < j < a.len() ==> a[i] < a[j],
        forall|i: int, j: int| 0 <= i < j < b.len() ==> b[i] < b[j],
        forall|x: usize| a.contains(x) <==> b.contains(x),
        u1 >= 0,
        u2 >= 0,
    ensures
        spec_epsilon_greedy(q_row, a, 0, u1, k1) == spec_epsilon_greedy(q_row, b, 0, u2, k2),
{
    lemma_sorted_lists_unique(a, b);
}

/// Deterministic core of epsilon-greedy selection: both random draws are
/// taken as arguments, so the result is pinned exactly.
pub fn select_action(q_row: &Vec<i64>, avail: &Vec<usize>, eps: i64, u: i64, k: usize) -> (a: usize)
    requires
        avail@.len() >= 1,
        k < avail@.len(),
        forall|i: int| 0 <= i < avail@.len() ==> (#[trigger] avail@[i] as int) < q_row@.len(),
    ensures
        a == spec_epsilon_greedy(q_row@, avail@, eps as int, u as int, k as int),
        avail@.contains(a),
{
    if u < eps {
        proof {
            assert(avail@[k as int] == avail@.index(k as int));
        }
        avail[k]
    } else {
        let mut best: usize = avail[0];
        let mut i: usize = 1;
        while i < avail.len()
            invariant
                1 <= i <= avail@.len(),
                forall|t: int| 0 <= t < avail@.len() ==> (#[trigger] avail@[t] as int) < q_row@.len(),
                best == spec_greedy_in_upto(q_row@, avail@, i as int),
                (best as int) < q_row@.len(),
            decreases avail@.len() - i,
        {
            if q_row[avail[i]] > q_row[best] {
                best = avail[i];
            }
            i = i + 1;
        }
        proof {
            lemma_greedy_in_is_max(q_row@, avail@, avail@.len() as int);
        }
        best
    }
}

/// Epsilon-greedy selection over the available actions, drawing its own
/// randomness. With epsilon 0 the choice is the deterministic greedy one.
pub fn epsilon_greedy_action(q_row: &Vec<i64>, avail: &Vec<usize>, eps: i64) -> (a: usize)
    requires
        avail@.len() >= 1,
        forall|i: int| 0 <= i < avail@.len() ==> (#[trigger] avail@[i] as int) < q_row@.len(),
    ensures
        avail@.contains(a),
        eps <= 0 ==> a == spec_greedy_in(q_row@, avail@),
{
    let u = rng::random_frac();
    let k = rng::random_index(avail.len());
    select_action(q_row, avail, eps, u, k)
}

} // verus!
