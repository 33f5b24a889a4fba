//! The ways an operation of the hub can fail.

use crate::staking::constants::CONTRACT_DENOM;
use crate::text::decimal_text;
use crate::text::to_decimal;
use vstd::prelude::*;
use vstd::string::StringExecFns;

verus! {

/// The arithmetic step that left the range of a money field.
#[derive(Debug, PartialEq, Eq, Clone, Copy)]
pub enum OverflowOperation {
    Add,
    Sub,
    Mul,
}

/// A parameter or result that must not be zero.
#[derive(Debug, PartialEq, Eq, Clone, Copy)]
pub enum Quantity {
    EpochPeriod,
    UnbondPeriod,
    WithdrawableAmount,
}

/// Every failure aborts the whole call and leaves the state as it was.
#[derive(Debug, PartialEq, Eq)]
pub enum ContractError {
    /// The sender is not the owner.
    UnauthorizedSenderNotOwner,
    /// The sender is not the operator.
    UnauthorizedSenderNotOperator,
    /// The sender is not the account that ownership was offered to.
    UnauthorizedSenderNotNewOwner,
    /// A continuation was invoked by someone other than the hub itself.
    CallbackOnlyCalledByContract,
    /// The reward fee is above the cap.
    ProtocolRewardFeeTooHigh,
    /// A quantity that must not be zero is zero.
    CantBeZero(Quantity),
    /// The validator is already on the whitelist.
    ValidatorAlreadyWhitelisted(String),
    /// The validator is not on the whitelist.
    ValidatorNotWhitelisted(String),
    /// The ledger knows no validator of that name.
    ValidatorNotFound(String),
    /// A swap stage offers the base token or the stake token.
    SwapFromNotAllowed(String),
    /// A donation was attempted while donations are switched off.
    DonationsDisabled,
    /// The pending batch cannot be submitted before the given time.
    SubmitBatchAfter(u64),
    /// Nothing of the base token is unlocked for reinvesting.
    NoTokensAvailable,
    /// No previous batch has the given id.
    BatchNotFound(u64),
    /// No ownership transfer is pending.
    NoOwnershipProposal,
    /// The funds sent along are not exactly one coin; the payload is their number.
    MustDepositExactlyOneCoin(usize),
    /// The coin sent along is not of the expected denom; the payload is its denom.
    UnexpectedDeposit(String),
    /// The coin sent along has a zero amount.
    ZeroDeposit,
    /// The funds sent along are not exactly one coin.
    ExpectingSingleCoin,
    /// The coin sent along is not the stake token; the payload is its denom.
    ExpectingStakeToken(String),
    /// No validator is there to delegate to or to draw from.
    NoValidators,
    /// A money field would have left its range.
    Overflow(OverflowOperation),
    /// A ratio with a zero denominator.
    DivideByZero,
}

impl Quantity {
    /// The name of the quantity.
    pub open spec fn text(self) -> Seq<char> {
        match self {
            Quantity::EpochPeriod => "epoch_period"@,
            Quantity::UnbondPeriod => "unbond_period"@,
            Quantity::WithdrawableAmount => "withdrawable amount"@,
        }
    }

    /// The name of the quantity.
    pub fn name(&self) -> (r: &'static str)
        ensures
            r@ == self.text(),
    {
        match self {
            Quantity::EpochPeriod => "epoch_period",
            Quantity::UnbondPeriod => "unbond_period",
            Quantity::WithdrawableAmount => "withdrawable amount",
        }
    }
}

impl OverflowOperation {
    /// The name of the step.
    pub open spec fn text(self) -> Seq<char> {
        match self {
            OverflowOperation::Add => "add"@,
            OverflowOperation::Sub => "sub"@,
            OverflowOperation::Mul => "mul"@,
        }
    }

    /// The name of the step.
    pub fn name(&self) -> (r: &'static str)
        ensures
            r@ == self.text(),
    {
        match self {
            OverflowOperation::Add => "add",
            OverflowOperation::Sub => "sub",
            OverflowOperation::Mul => "mul",
        }
    }
}

/// `head`, then `middle`, then `tail`.
fn framed(head: &str, middle: &str, tail: &str) -> (r: String)
    ensures
        r@ == head@ + middle@ + tail@,
{
    String::from_str(head).concat(middle).concat(tail)
}

impl ContractError {
    /// The message that goes with the error.
    pub open spec fn text(self) -> Seq<char> {
        match self {
            ContractError::UnauthorizedSenderNotOwner => "unauthorized: sender is not owner"@,
            ContractError::UnauthorizedSenderNotOperator => "unauthorized: sender is not operator"@,
            ContractError::UnauthorizedSenderNotNewOwner => "unauthorized: sender is not new owner"@,
            ContractError::CallbackOnlyCalledByContract => "callbacks can only be invoked by the contract itself"@,
            ContractError::ProtocolRewardFeeTooHigh => "protocol_reward_fee greater than max"@,
            ContractError::CantBeZero(quantity) => quantity.text() + " can't be zero"@,
            ContractError::ValidatorAlreadyWhitelisted(validator) => "validator "@ + validator@
                + " is already whitelisted"@,
            ContractError::ValidatorNotWhitelisted(validator) => "validator "@ + validator@
                + " is not whitelisted"@,
            ContractError::ValidatorNotFound(validator) => "validator "@ + validator@
                + " does not exist"@,
            ContractError::SwapFromNotAllowed(denom) => "swap from "@ + denom@
                + " is not allowed"@,
            ContractError::DonationsDisabled => "donations are disabled"@,
            ContractError::SubmitBatchAfter(time) => "batch can only be submitted for unbonding after "@
                + decimal_text(time as nat),
            ContractError::NoTokensAvailable => "no "@ + CONTRACT_DENOM@
                + " available to be bonded"@,
            ContractError::BatchNotFound(id) => "batch "@ + decimal_text(id as nat)
                + " not found"@,
            ContractError::NoOwnershipProposal => "no ownership transfer is pending"@,
            ContractError::MustDepositExactlyOneCoin(count) => "must deposit exactly one coin; received "@
                + decimal_text(count as nat),
            ContractError::UnexpectedDeposit(received) => "expected "@ + CONTRACT_DENOM@
                + " deposit, received "@ + received@,
            ContractError::ZeroDeposit => "deposit amount must be non-zero"@,
            ContractError::ExpectingSingleCoin => "expecting only single coin"@,
            ContractError::ExpectingStakeToken(denom) => "expecting Stake token, received "@
                + denom@,
            ContractError::NoValidators => "no validator to delegate to"@,
            ContractError::Overflow(operation) => "cannot "@ + operation.text()
                + " without overflow"@,
            ContractError::DivideByZero => "cannot divide by zero"@,
        }
    }

    /// The message that goes with the error.
    pub fn message(&self) -> (r: String)
        ensures
            r@ == self.text(),
    {
        match self {
            ContractError::UnauthorizedSenderNotOwner => String::from_str(
                "unauthorized: sender is not owner",
            ),
            ContractError::UnauthorizedSenderNotOperator => String::from_str(
                "unauthorized: sender is not operator",
            ),
            ContractError::UnauthorizedSenderNotNewOwner => String::from_str(
                "unauthorized: sender is not new owner",
            ),
            ContractError::CallbackOnlyCalledByContract => String::from_str(
                "callbacks can only be invoked by the contract itself",
            ),
            ContractError::ProtocolRewardFeeTooHigh => String::from_str(
                "protocol_reward_fee greater than max",
            ),
            ContractError::CantBeZero(quantity) => String::from_str(quantity.name()).concat(
                " can't be zero",
            ),
            ContractError::ValidatorAlreadyWhitelisted(validator) => framed(
                "validator ",
                validator.as_str(),
                " is already whitelisted",
            ),
            ContractError::ValidatorNotWhitelisted(validator) => framed(
                "validator ",
                validator.as_str(),
                " is not whitelisted",
            ),
            ContractError::ValidatorNotFound(validator) => framed(
                "validator ",
                validator.as_str(),
                " does not exist",
            ),
            ContractError::SwapFromNotAllowed(denom) => framed(
                "swap from ",
                denom.as_str(),
                " is not allowed",
            ),
            ContractError::DonationsDisabled => String::from_str("donations are disabled"),
            ContractError::SubmitBatchAfter(time) => String::from_str(
                "batch can only be submitted for unbonding after ",
            ).concat(to_decimal(*time as u128).as_str()),
            ContractError::NoTokensAvailable => framed(
                "no ",
                CONTRACT_DENOM,
                " available to be bonded",
            ),
            ContractError::BatchNotFound(id) => framed(
                "batch ",
                to_decimal(*id as u128).as_str(),
                " not found",
            ),
            ContractError::NoOwnershipProposal => String::from_str(
                "no ownership transfer is pending",
            ),
            ContractError::MustDepositExactlyOneCoin(count) => String::from_str(
                "must deposit exactly one coin; received ",
            ).concat(to_decimal(*count as u128).as_str()),
            ContractError::UnexpectedDeposit(received) => framed(
                "expected ",
                CONTRACT_DENOM,
                " deposit, received ",
            ).concat(received.as_str()),
            ContractError::ZeroDeposit => String::from_str("deposit amount must be non-zero"),
            ContractError::ExpectingSingleCoin => String::from_str("expecting only single coin"),
            ContractError::ExpectingStakeToken(denom) => String::from_str(
                "expecting Stake token, received ",
            ).concat(denom.as_str()),
            ContractError::NoValidators => String::from_str("no validator to delegate to"),
            ContractError::Overflow(operation) => framed(
                "cannot ",
                operation.name(),
                " without overflow",
            ),
            ContractError::DivideByZero => String::from_str("cannot divide by zero"),
        }
    }
}

} // verus!
