//! The swap router: a registry of markets, and swaps along them.

pub mod contract;
pub mod error;
pub mod execute;
pub mod queries;
pub mod state;
