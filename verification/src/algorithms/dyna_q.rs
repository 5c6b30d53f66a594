//! Dyna-Q: each real step applies the plain Q-learning backup and records
//! the observed transition into a model store; then `n` simulated backups
//! are applied, each against a (state, action) pair sampled uniformly among
//! the pairs visited so far, using the pair's own recorded reward and next
//! state (not the latest real reward). The store is sampled only after the
//! real step has recorded its transition, so an empty store is never drawn
//! from: `sample` demands a non-empty store outright.

use vstd::prelude::*;
use vstd::pervasive::VecAdditionalExecFns;
use crate::RlError;
use crate::algorithms::backup::{STEP_LIMIT, Transition, q_wf, reward_ok, row_max, td_update, zero_table};
use crate::algorithms::q_learning::{q_learning_step, q_step_taken};
use crate::contracts::model_free_env::ModelFreeEnv;
use crate::fixed::SCALE;
use crate::rng;

verus! {

/// The model store: a dense state-by-action table of recorded
/// (reward, next state) entries with a visited flag, beside the list of
/// visited pairs that uniform sampling draws from.
pub struct DynaModel {
    pub entries: Vec<Vec<(i64, usize, bool)>>,
    pub visited: Vec<(usize, usize)>,
}

impl DynaModel {
    /// The pair `(s, a)` appears in the visited list.
    pub open spec fn spec_visited_has(&self, s: int, a: int) -> bool {
        exists|k: int|
            0 <= k < self.visited@.len() && (#[trigger] self.visited@[k]).0 == s
                && self.visited@[k].1 == a
    }

    pub open spec fn wf(&self, ns: nat, na: nat) -> bool {
        &&& self.entries@.len() == ns
        &&& forall|s: int| 0 <= s < ns ==> (#[trigger] self.entries@[s])@.len() == na
        &&& forall|k: int|
            0 <= k < self.visited@.len() ==> (#[trigger] self.visited@[k]).0 < ns
                && self.visited@[k].1 < na
        &&& forall|k1: int, k2: int|
            0 <= k1 < k2 < self.visited@.len() ==> #[trigger] self.visited@[k1]
                != #[trigger] self.visited@[k2]
        &&& forall|s: int, a: int|
            0 <= s < ns && 0 <= a < na ==> ((#[trigger] self.entries@[s]@[a]).2
                <==> self.spec_visited_has(s, a))
        &&& forall|s: int, a: int|
            0 <= s < ns && 0 <= a < na && (#[trigger] self.entries@[s]@[a]).2 ==> reward_ok(
                self.entries@[s]@[a].0 as int,
            ) && self.entries@[s]@[a].1 < ns
    }

    /// A fresh store with no pair visited.
    pub fn new(ns: usize, na: usize) -> (m: DynaModel)
        ensures
            m.wf(ns as nat, na as nat),
            m.visited@.len() == 0,
    {
        let mut entries: Vec<Vec<(i64, usize, bool)>> = Vec::new();
        let mut s: usize = 0;
        while s < ns
            invariant
                0 <= s <= ns,
                entries@.len() == s,
                forall|i: int| 0 <= i < s ==> (#[trigger] entries@[i])@.len() == na,
                forall|i: int, j: int|
                    0 <= i < s && 0 <= j < na ==> (#[trigger] entries@[i]@[j]) == (0i64, 0usize, false),
            decreases ns - s,
        {
            let mut row: Vec<(i64, usize, bool)> = Vec::new();
            let mut a: usize = 0;
            while a < na
                invariant
                    0 <= a <= na,
                    row@.len() == a,
                    forall|j: int| 0 <= j < a ==> (#[trigger] row@[j]) == (0i64, 0usize, false),
                decreases na - a,
            {
                row.push((0, 0, false));
                a = a + 1;
            }
            entries.push(row);
            proof {
                assert(entries@[s as int] == row);
            }
            s = s + 1;
        }
        DynaModel { entries, visited: Vec::new() }
    }

    /// Record a real transition: the cell `(t.s, t.a)` now holds
    /// `(t.r, t.s_next)` and is visited; a pair visited for the first time
    /// joins the visited list, an already-visited pair does not grow it.
    #[verifier::loop_isolation(false)]
    pub fn record(&mut self, t: Transition, ns: usize, na: usize)
        requires
            old(self).wf(ns as nat, na as nat),
            t.s < ns,
            t.a < na,
            t.s_next < ns,
            reward_ok(t.r as int),
        ensures
            final(self).wf(ns as nat, na as nat),
            final(self).entries@[t.s as int]@[t.a as int] == (t.r, t.s_next, true),
            forall|s: int, a: int|
                0 <= s < ns && 0 <= a < na && !(s == t.s as int && a == t.a as int)
                    ==> #[trigger] final(self).entries@[s]@[a] == old(self).entries@[s]@[a],
            old(self).entries@[t.s as int]@[t.a as int].2 ==> final(self).visited@ == old(
                self,
            ).visited@,
            !old(self).entries@[t.s as int]@[t.a as int].2 ==> final(self).visited@ == old(
                self,
            ).visited@.push((t.s, t.a)),
            final(self).visited@.len() >= 1,
    {
        let was_visited = self.entries[t.s][t.a].2;
        self.entries[t.s].set(t.a, (t.r, t.s_next, true));
        if !was_visited {
            self.visited.push((t.s, t.a));
            proof {
                assert(self.visited@[self.visited@.len() - 1] == (t.s, t.a));
            }
        } else {
            proof {
                assert(old(self).spec_visited_has(t.s as int, t.a as int));
                let k = choose|k: int|
                    0 <= k < old(self).visited@.len() && (#[trigger] old(self).visited@[k]).0
                        == t.s as int && old(self).visited@[k].1 == t.a as int;
                assert(self.visited@[k] == (t.s, t.a));
            }
        }
        proof {
            assert forall|s: int, a: int|
                0 <= s < ns && 0 <= a < na implies ((#[trigger] self.entries@[s]@[a]).2
                <==> self.spec_visited_has(s, a)) by {
                if s == t.s as int && a == t.a as int {
                } else {
                    if old(self).spec_visited_has(s, a) {
                        let k = choose|k: int|
                            0 <= k < old(self).visited@.len() && (#[trigger] old(
                                self,
                            ).visited@[k]).0 == s && old(self).visited@[k].1 == a;
                        assert(self.visited@[k].0 == s && self.visited@[k].1 == a);
                    }
                    if self.spec_visited_has(s, a) {
                        let k = choose|k: int|
                            0 <= k < self.visited@.len() && (#[trigger] self.visited@[k]).0 == s
                                && self.visited@[k].1 == a;
                        assert(k < old(self).visited@.len());
                        assert(old(self).visited@[k].0 == s && old(self).visited@[k].1 == a);
                    }
                }
            }
        }
    }

    /// Draw a simulated transition uniformly among the visited pairs: the
    /// sampled pair is visited and carries its own recorded reward and next
    /// state. An empty store cannot be sampled.
    pub fn sample(&self, ns: usize, na: usize) -> (t: Transition)
        requires
            self.wf(ns as nat, na as nat),
            self.visited@.len() >= 1,
        ensures
            t.s < ns,
            t.a < na,
            t.s_next < ns,
            reward_ok(t.r as int),
            self.spec_visited_has(t.s as int, t.a as int),
            self.entries@[t.s as int]@[t.a as int] == (t.r, t.s_next, true),
    {
        let k = rng::random_index(self.visited.len());
        let pair = self.visited[k];
        proof {
            assert(self.visited@[k as int].0 == pair.0 && self.visited@[k as int].1 == pair.1);
        }
        let entry = self.entries[pair.0][pair.1];
        proof {
            assert(self.spec_visited_has(pair.0 as int, pair.1 as int));
            assert(self.entries@[pair.0 as int]@[pair.1 as int].2);
        }
        Transition { s: pair.0, a: pair.1, r: entry.0, s_next: entry.1 }
    }
}

/// With no simulated updates, one Dyna-Q real step is exactly one plain
/// Q-learning step: two Q-tables produced from the same table by the same
/// observed transition and rates are pointwise equal.
pub proof fn lemma_dyna_zero_matches_q_learning<E: ModelFreeEnv>(
    env0: E,
    env1: E,
    q0: Seq<Vec<i64>>,
    q1: Seq<Vec<i64>>,
    q2: Seq<Vec<i64>>,
    t: Transition,
    alpha: int,
    gamma: int,
)
    requires
        q_step_taken::<E>(env0, env1, q0, q1, t, alpha, gamma),
        q_step_taken::<E>(env0, env1, q0, q2, t, alpha, gamma),
        (t.s as int) < q0.len(),
        (t.a as int) < q0[t.s as int]@.len(),
        forall|i: int|
            0 <= i < q0.len() ==> (#[trigger] q1[i])@.len() == q0[i]@.len() && (#[trigger] q2[i])@.len()
                == q0[i]@.len(),
    ensures
        forall|i: int, j: int|
            0 <= i < q0.len() && 0 <= j < q0[i]@.len() ==> #[trigger] q1[i]@[j] == #[trigger] q2[i]@[j],
{
}

/// Dyna-Q over `num_episodes` episodes of `E`, from an all-zero Q-table and
/// an empty model store: each real step is a plain Q-learning step followed
/// by recording the transition and `n` simulated backups drawn uniformly
/// from the visited pairs. On success the returned table has one in-range
/// row per state; with no episodes it is still the all-zero table. The run
/// is aborted with `ForbiddenAction` as soon as a greedy selection is
/// illegal, which needs at least one episode and an epsilon below one.
#[verifier::loop_isolation(false)]
pub fn dyna_q<E: ModelFreeEnv>(
    n: usize,
    num_episodes: usize,
    learning_rate: i64,
    gamma: i64,
    epsilon: i64,
) -> (res: Result<Vec<Vec<i64>>, RlError>)
    requires
        E::spec_valid(),
        0 <= learning_rate <= SCALE,
        0 <= gamma <= SCALE,
    ensures
        match res {
            Ok(qt) => {
                &&& q_wf(qt@, E::spec_num_states(), E::spec_num_actions())
                &&& (num_episodes == 0 ==> forall|i: int, j: int|
                    0 <= i < qt@.len() && 0 <= j < qt@[i]@.len() ==> (#[trigger] qt@[i]@[j])
                        == 0i64)
            },
            Err(e) => {
                &&& e == RlError::ForbiddenAction
                &&& num_episodes >= 1
                &&& epsilon < SCALE
            },
        },
{
    let ns = E::num_states();
    let na = E::num_actions();
    let mut q = zero_table(ns, na);
    let mut model = DynaModel::new(ns, na);
    let mut env = E::new();
    let mut ep: usize = 0;
    while ep < num_episodes
        invariant
            env.inv(),
            q_wf(q@, E::spec_num_states(), E::spec_num_actions()),
            model.wf(ns as nat, na as nat),
            num_episodes == 0 ==> forall|i: int, j: int|
                0 <= i < q@.len() && 0 <= j < q@[i]@.len() ==> (#[trigger] q@[i]@[j]) == 0i64,
        decreases num_episodes - ep,
    {
        env.reset();
        let mut steps: u64 = 0;
        while !env.is_game_over() && steps < STEP_LIMIT
            invariant
                env.inv(),
                q_wf(q@, E::spec_num_states(), E::spec_num_actions()),
                model.wf(ns as nat, na as nat),
                steps <= STEP_LIMIT,
            decreases STEP_LIMIT - steps,
        {
            let step_res = q_learning_step(&mut env, &mut q, learning_rate, gamma, epsilon);
            match step_res {
                Ok(t) => {
                    model.record(t, ns, na);
                    let mut l: usize = 0;
                    while l < n
                        invariant
                            q_wf(q@, E::spec_num_states(), E::spec_num_actions()),
                            model.wf(ns as nat, na as nat),
                            model.visited@.len() >= 1,
                        decreases n - l,
                    {
                        let sim = model.sample(ns, na);
                        let boot = row_max(&q[sim.s_next]);
                        let nq = td_update(q[sim.s][sim.a], sim.r, boot, learning_rate, gamma);
                        q[sim.s].set(sim.a, nq);
                        l = l + 1;
                    }
                },
                Err(e) => {
                    return Err(e);
                },
            }
            steps = steps + 1;
        }
        ep = ep + 1;
    }
    Ok(q)
}

} // verus!
