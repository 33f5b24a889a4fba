//! The fixed parameters of the hub.

use crate::ratio::Decimal;
use vstd::prelude::*;

verus! {

/// The denom of the base token.
pub const CONTRACT_DENOM: &'static str = "ukuji";

/// The atomic units of the largest reward fee that can be set: 10%.
pub const REWARD_FEE_CAP_ATOMICS: u128 = 100_000_000_000_000_000u128;

/// The largest reward fee that can be set.
pub fn get_reward_fee_cap() -> (r: Decimal)
    ensures
        r.atomics == REWARD_FEE_CAP_ATOMICS,
{
    Decimal::raw(REWARD_FEE_CAP_ATOMICS)
}

/// The denom of the base token, as an owned string.
pub fn contract_denom() -> (r: String)
    ensures
        r@ == CONTRACT_DENOM@,
{
    CONTRACT_DENOM.to_owned()
}

} // verus!
