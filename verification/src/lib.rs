//! Accounting and rebalancing core of a liquid-staking hub, and the swap
//! router that it harvests through.
//!
//! Users deposit a base token, receive a stake token that is a pro-rata claim
//! on the pooled delegations, and redeem it through a batched, time-delayed
//! unbonding queue. Every operation works on an explicit state value and a
//! point-in-time view of the ledger, and returns the ordered list of effects
//! that the host is to carry out.
//!
//! * [`hub`] and [`router`] hold the records and messages of the two
//!   contracts.
//! * [`staking`] is the hub: its arithmetic ([`staking::math`]), the
//!   unbonding queue ([`staking::queue`]), the operations
//!   ([`staking::execute`], [`staking::contract`]), the queries, and what
//!   holds of every state that the operations reach ([`staking::backing`]).
//! * [`routing`] is the router.
//! * [`ratio`], [`text`] and [`names`] are what both stand on.

pub mod hub;
pub mod names;
pub mod ratio;
pub mod router;
pub mod routing;
pub mod staking;
pub mod text;
