//! Everything the hub remembers between calls, and what it is told of the
//! world with each call.

use crate::hub::Batch;
use crate::hub::Coin;
use crate::hub::DelegationStrategy;
use crate::hub::FeeConfig;
use crate::hub::PendingBatch;
use crate::hub::clone_stages;
use crate::hub::stage_views;
use crate::hub::Stage;
use crate::hub::StakeToken;
use crate::hub::UnbondRequest;
use crate::names::clone_names;
use crate::staking::error::ContractError;
use crate::staking::helpers::clone_coins;
use crate::staking::queue::clone_requests;
use crate::staking::queue::copy_batches;
use crate::staking::types::Delegation;
use vstd::prelude::*;

verus! {

/// The state of the hub.
#[derive(Debug, PartialEq, Eq)]
pub struct State {
    /// Contract that runs multi-stage swaps.
    pub fin_multi: String,
    /// Account that can call the privileged operations.
    pub owner: String,
    /// Account that can harvest with routes of its own.
    pub operator: String,
    /// Swap route that everyone else harvests with.
    pub stages_preset: Vec<Stage>,
    /// Account that the ownership has been offered to, if any.
    pub new_owner: Option<String>,
    /// Denom and supply of the stake token.
    pub stake_token: StakeToken,
    /// How often the unbonding queue is executed, in seconds.
    pub epoch_period: u64,
    /// The ledger's unbonding time, in seconds.
    pub unbond_period: u64,
    /// Validators that receive the delegations: in order, none twice.
    pub validators: Vec<String>,
    /// Coins that can be reinvested.
    pub unlocked_coins: Vec<Coin>,
    /// The batch of unbonding requests that is still collecting.
    pub pending_batch: PendingBatch,
    /// The batches that have been submitted and not yet been withdrawn in
    /// full, by ascending id.
    pub previous_batches: Vec<Batch>,
    /// The users' shares in the batches, by ascending batch id and, within a
    /// batch, by ascending user.
    pub unbond_requests: Vec<UnbondRequest>,
    /// Where the protocol's cut of the rewards goes, and how large it is.
    pub fee_config: FeeConfig,
    /// Whether donations are accepted; they are where this is unset, as it is
    /// in a hub that has just been created.
    pub allow_donations: Option<bool>,
    /// How the validator that receives new stake is chosen; uniformly where
    /// this was never set.
    pub delegation_strategy: Option<DelegationStrategy>,
}

/// The state of the hub with each list as a sequence.
pub struct StateView {
    pub fin_multi: String,
    pub owner: String,
    pub operator: String,
    pub stages_preset: Seq<Seq<(String, String)>>,
    pub new_owner: Option<String>,
    pub stake_token: StakeToken,
    pub epoch_period: u64,
    pub unbond_period: u64,
    pub validators: Seq<String>,
    pub unlocked_coins: Seq<Coin>,
    pub pending_batch: PendingBatch,
    pub previous_batches: Seq<Batch>,
    pub unbond_requests: Seq<UnbondRequest>,
    pub fee_config: FeeConfig,
    pub allow_donations: Option<bool>,
    pub delegation_strategy: Option<DelegationStrategy>,
}

impl View for State {
    type V = StateView;

    open spec fn view(&self) -> StateView {
        StateView {
            fin_multi: self.fin_multi,
            owner: self.owner,
            operator: self.operator,
            stages_preset: stage_views(self.stages_preset@),
            new_owner: self.new_owner,
            stake_token: self.stake_token,
            epoch_period: self.epoch_period,
            unbond_period: self.unbond_period,
            validators: self.validators@,
            unlocked_coins: self.unlocked_coins@,
            pending_batch: self.pending_batch,
            previous_batches: self.previous_batches@,
            unbond_requests: self.unbond_requests@,
            fee_config: self.fee_config,
            allow_donations: self.allow_donations,
            delegation_strategy: self.delegation_strategy,
        }
    }
}

impl Clone for State {
    fn clone(&self) -> (r: Self)
        ensures
            r@ == self@,
    {
        State {
            fin_multi: self.fin_multi.clone(),
            owner: self.owner.clone(),
            operator: self.operator.clone(),
            stages_preset: clone_stages(&self.stages_preset),
            new_owner: match &self.new_owner {
                Some(new_owner) => Some(new_owner.clone()),
                None => None,
            },
            stake_token: self.stake_token.clone(),
            epoch_period: self.epoch_period,
            unbond_period: self.unbond_period,
            validators: clone_names(&self.validators),
            unlocked_coins: clone_coins(&self.unlocked_coins),
            pending_batch: self.pending_batch,
            previous_batches: copy_batches(&self.previous_batches),
            unbond_requests: clone_requests(&self.unbond_requests),
            fee_config: self.fee_config.clone(),
            allow_donations: self.allow_donations,
            delegation_strategy: self.delegation_strategy,
        }
    }
}

/// When and where a call runs.
#[derive(Debug, PartialEq, Eq)]
pub struct Env {
    /// The time of the block, in seconds.
    pub time: u64,
    /// The hub's own address.
    pub contract: String,
}

/// The ledger as it stands when the call begins. Nothing that the call
/// itself asks for shows in it: effects run after the call has returned.
#[derive(Debug, PartialEq, Eq)]
pub struct Ledger {
    /// The hub's delegations, one for each validator it has delegated to.
    pub delegations: Vec<Delegation>,
    /// The hub's balances, one coin for each denom it holds.
    pub balances: Vec<Coin>,
    /// The validators that the ledger knows of, among those that the call names.
    pub validators: Vec<String>,
}

impl State {
    /// Fails unless `sender` is the owner.
    pub fn assert_owner(&self, sender: &String) -> (r: Result<(), ContractError>)
        ensures
            r == if sender@ == self.owner@ {
                Ok::<(), ContractError>(())
            } else {
                Err(ContractError::UnauthorizedSenderNotOwner)
            },
    {
        if *sender == self.owner {
            Ok(())
        } else {
            Err(ContractError::UnauthorizedSenderNotOwner)
        }
    }

    /// Fails unless `sender` is the operator.
    pub fn assert_operator(&self, sender: &String) -> (r: Result<(), ContractError>)
        ensures
            r == if sender@ == self.operator@ {
                Ok::<(), ContractError>(())
            } else {
                Err(ContractError::UnauthorizedSenderNotOperator)
            },
    {
        if *sender == self.operator {
            Ok(())
        } else {
            Err(ContractError::UnauthorizedSenderNotOperator)
        }
    }
}

} // verus!
