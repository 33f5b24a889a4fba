//! The ways an operation of the router can fail.

use crate::text::decimal_text;
use crate::text::to_decimal;
use vstd::prelude::*;
use vstd::string::StringExecFns;

verus! {

/// Every failure aborts the whole call and leaves the state as it was.
#[derive(Debug, PartialEq, Eq)]
pub enum RouterError {
    /// The sender is not the owner.
    UnauthorizedSenderNotOwner,
    /// The sender is not the account that ownership was offered to.
    UnauthorizedSenderNotNewOwner,
    /// A hop was asked for by someone other than the router itself.
    Unauthorized,
    /// No ownership transfer is pending.
    NoOwnershipProposal,
    /// No registered market trades the two denoms.
    PairNotFound,
    /// A swap without hops.
    MustProvideOperations,
    /// The hops do not end in exactly one denom.
    MultipleOutputToken,
    /// The market is still bootstrapping.
    PairNeedsToBeActive,
    /// The ledger knows no market at the address.
    PairQueryFailed(String),
    /// The receiver holds less than before the swap.
    Underflow,
    /// The receiver has gained less than the minimum.
    MinimumReceive { minimum_receive: u128, swap_amount: u128 },
}

impl RouterError {
    /// The message that goes with the error.
    pub open spec fn text(self) -> Seq<char> {
        match self {
            RouterError::UnauthorizedSenderNotOwner => "unauthorized: sender is not owner"@,
            RouterError::UnauthorizedSenderNotNewOwner => "unauthorized: sender is not new owner"@,
            RouterError::Unauthorized => "unauthorized"@,
            RouterError::NoOwnershipProposal => "no ownership transfer is pending"@,
            RouterError::PairNotFound => "pair not found"@,
            RouterError::MustProvideOperations => "must provide operations"@,
            RouterError::MultipleOutputToken => "invalid operations; multiple output token"@,
            RouterError::PairNeedsToBeActive => "pair needs to be active"@,
            RouterError::PairQueryFailed(contract) => "no pair at "@ + contract@,
            RouterError::Underflow => "cannot sub without overflow"@,
            RouterError::MinimumReceive {
                minimum_receive,
                swap_amount,
            } => "assertion failed; minimum receive amount: "@ + decimal_text(
                minimum_receive as nat,
            ) + ", swap amount: "@ + decimal_text(swap_amount as nat),
        }
    }

    /// The message that goes with the error.
    pub fn message(&self) -> (r: String)
        ensures
            r@ == self.text(),
    {
        match self {
            RouterError::UnauthorizedSenderNotOwner => String::from_str(
                "unauthorized: sender is not owner",
            ),
            RouterError::UnauthorizedSenderNotNewOwner => String::from_str(
                "unauthorized: sender is not new owner",
            ),
            RouterError::Unauthorized => String::from_str("unauthorized"),
            RouterError::NoOwnershipProposal => String::from_str(
                "no ownership transfer is pending",
            ),
            RouterError::PairNotFound => String::from_str("pair not found"),
            RouterError::MustProvideOperations => String::from_str("must provide operations"),
            RouterError::MultipleOutputToken => String::from_str(
                "invalid operations; multiple output token",
            ),
            RouterError::PairNeedsToBeActive => String::from_str("pair needs to be active"),
            RouterError::PairQueryFailed(contract) => String::from_str("no pair at ").concat(
                contract.as_str(),
            ),
            RouterError::Underflow => String::from_str("cannot sub without overflow"),
            RouterError::MinimumReceive { minimum_receive, swap_amount } => String::from_str(
                "assertion failed; minimum receive amount: ",
            ).concat(to_decimal(*minimum_receive).as_str()).concat(", swap amount: ").concat(
                to_decimal(*swap_amount).as_str(),
            ),
        }
    }
}

} // verus!
