//! The two capability contracts that environments satisfy: a full MDP model
//! for the planning algorithms, and an interaction-only environment for the
//! learning algorithms.

pub mod mdp_env;
pub mod model_free_env;
