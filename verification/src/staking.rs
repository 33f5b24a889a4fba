//! The staking hub: arithmetic, state, operations and queries.

pub mod backing;
pub mod constants;
pub mod contract;
pub mod error;
pub mod execute;
pub mod flows;
pub mod helpers;
pub mod math;
pub mod queries;
pub mod queue;
pub mod state;
pub mod types;
