//! The algorithm layer: planning over a cached MDP model and learning over a
//! model-free environment, with the shared numeric helpers they build on.

pub mod backup;
pub mod cached_mdp;
pub mod dyna_q;
pub mod first_visit;
pub mod monte_carlo_exploring_starts;
pub mod on_policy_monte_carlos;
pub mod policy_iteration;
pub mod q_learning;
pub mod sarsa;
pub mod selection;
pub mod value_iteration;
