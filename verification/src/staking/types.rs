//! Point-in-time delegation records and the moves computed from them.

use crate::hub::CallbackMsg;
use crate::hub::Coin;
use crate::hub::Stage;
use crate::hub::WithdrawType;
use vstd::prelude::*;

verus! {

/// The amount delegated to one validator, as read from the ledger.
#[derive(Debug, PartialEq, Eq)]
pub struct Delegation {
    pub validator: String,
    pub amount: u128,
}

impl Clone for Delegation {
    fn clone(&self) -> (r: Self)
        ensures
            r == *self,
    {
        Delegation { validator: self.validator.clone(), amount: self.amount }
    }
}

impl Delegation {
    pub fn new(validator: &str, amount: u128) -> (r: Self)
        ensures
            r.validator@ == validator@,
            r.amount == amount,
    {
        Delegation { validator: validator.to_owned(), amount }
    }
}

/// An instruction to draw `amount` back from `validator`.
#[derive(Debug, PartialEq, Eq)]
pub struct Undelegation {
    pub validator: String,
    pub amount: u128,
}

impl Clone for Undelegation {
    fn clone(&self) -> (r: Self)
        ensures
            r == *self,
    {
        Undelegation { validator: self.validator.clone(), amount: self.amount }
    }
}

impl Undelegation {
    pub fn new(validator: &str, amount: u128) -> (r: Self)
        ensures
            r.validator@ == validator@,
            r.amount == amount,
    {
        Undelegation { validator: validator.to_owned(), amount }
    }
}

/// An instruction to move `amount` from validator `src` to validator `dst`.
#[derive(Debug, PartialEq, Eq)]
pub struct Redelegation {
    pub src: String,
    pub dst: String,
    pub amount: u128,
}

impl Clone for Redelegation {
    fn clone(&self) -> (r: Self)
        ensures
            r == *self,
    {
        Redelegation { src: self.src.clone(), dst: self.dst.clone(), amount: self.amount }
    }
}

impl Redelegation {
    pub fn new(src: &str, dst: &str, amount: u128) -> (r: Self)
        ensures
            r.src@ == src@,
            r.dst@ == dst@,
            r.amount == amount,
    {
        Redelegation { src: src.to_owned(), dst: dst.to_owned(), amount }
    }
}

/// The protocol's cut of the rewards, on its way to the fee contract.
#[derive(Debug, PartialEq, Eq)]
pub struct SendFee {
    pub to_address: String,
    pub amount: u128,
}

/// An effect that the host carries out once the call has returned. Effects
/// run in the order in which the response lists them; if one fails, the whole
/// call is undone.
#[derive(Debug, PartialEq, Eq)]
pub enum Msg {
    /// Delegate base token to a validator.
    Delegate { validator: String, amount: u128 },
    /// Draw base token back from a validator.
    Undelegate { validator: String, amount: u128 },
    /// Move base token from one validator to another.
    Redelegate { src: String, dst: String, amount: u128 },
    /// Withdraw the rewards accrued with a validator.
    WithdrawDelegatorReward { validator: String },
    /// Transfer base token.
    Send { to_address: String, amount: u128 },
    /// Create the stake token's denom.
    CreateDenom { subdenom: String },
    /// Mint stake token.
    Mint { denom: String, amount: u128, recipient: String },
    /// Burn stake token.
    Burn { denom: String, amount: u128 },
    /// Call the hub itself with a continuation.
    Callback(CallbackMsg),
    /// Call the hub itself to submit the pending batch.
    SubmitBatch,
    /// Withdraw a yield position from an external vault.
    VaultWithdraw { kind: WithdrawType, vault: String, denom: String, amount: u128 },
    /// Swap the funds along the stages on the multi-stage swap contract.
    Swap { contract: String, stages: Vec<Stage>, funds: Vec<Coin> },
}

impl Delegation {
    /// The effect that makes this delegation.
    pub open spec fn to_msg_spec(&self) -> Msg {
        Msg::Delegate { validator: self.validator, amount: self.amount }
    }

    /// The effect that makes this delegation.
    pub fn to_msg(&self) -> (r: Msg)
        ensures
            r == self.to_msg_spec(),
    {
        Msg::Delegate { validator: self.validator.clone(), amount: self.amount }
    }
}

impl Undelegation {
    /// The effect that makes this undelegation.
    pub open spec fn to_msg_spec(&self) -> Msg {
        Msg::Undelegate { validator: self.validator, amount: self.amount }
    }

    /// The effect that makes this undelegation.
    pub fn to_msg(&self) -> (r: Msg)
        ensures
            r == self.to_msg_spec(),
    {
        Msg::Undelegate { validator: self.validator.clone(), amount: self.amount }
    }
}

impl Redelegation {
    /// The effect that makes this redelegation.
    pub open spec fn to_msg_spec(&self) -> Msg {
        Msg::Redelegate { src: self.src, dst: self.dst, amount: self.amount }
    }

    /// The effect that makes this redelegation.
    pub fn to_msg(&self) -> (r: Msg)
        ensures
            r == self.to_msg_spec(),
    {
        Msg::Redelegate { src: self.src.clone(), dst: self.dst.clone(), amount: self.amount }
    }
}

impl SendFee {
    pub fn new(to_address: String, amount: u128) -> (r: Self)
        ensures
            r == (SendFee { to_address, amount }),
    {
        SendFee { to_address, amount }
    }

    /// The effect that pays this fee.
    pub fn to_msg(&self) -> (r: Msg)
        ensures
            r == (Msg::Send { to_address: self.to_address, amount: self.amount }),
    {
        Msg::Send { to_address: self.to_address.clone(), amount: self.amount }
    }
}

/// What an operation reports of itself.
#[derive(Debug, PartialEq, Eq)]
pub enum Event {
    Bonded { receiver: String, token_bonded: u128, ustake_minted: u128 },
    Harvested { utoken_bonded: u128, utoken_protocol_fee: u128 },
    /// Balances were compared with their snapshots; the payload is the base
    /// token that arrived, if any did.
    Received { received: Option<Coin> },
    /// A request was queued; without a start time the batch is submitted at once.
    UnbondQueued {
        est_unbond_start_time: Option<u64>,
        id: u64,
        receiver: String,
        ustake_to_burn: u128,
    },
    UnbondSubmitted { id: u64, utoken_unbonded: u128, ustake_burned: u128 },
    Reconciled { ids: Vec<u64>, utoken_deducted: u128 },
    UnbondedWithdrawn { ids: Vec<u64>, user: String, receiver: String, utoken_refunded: u128 },
    Rebalanced { utoken_moved: u128 },
    ValidatorAdded { validator: String },
    ValidatorRemoved { validator: String },
    OwnershipTransferred { new_owner: String, previous_owner: String },
}

/// What an operation hands back: the effects, in order, and its report.
#[derive(Debug, PartialEq, Eq)]
pub struct Response {
    pub messages: Vec<Msg>,
    pub event: Option<Event>,
}

impl Response {
    /// The response without effects and without a report.
    pub fn new() -> (r: Self)
        ensures
            r.messages@ == Seq::<Msg>::empty(),
            r.event is None,
    {
        Response { messages: Vec::new(), event: None }
    }
}

} // verus!
