//! The records that the staking hub keeps and hands out.

use crate::ratio::Decimal;
use vstd::prelude::*;
use vstd::std_specs::convert::FromSpecImpl;

verus! {

/// The kind of external vault that a yield position is claimed from.
#[derive(Debug, PartialEq, Eq, Clone, Copy)]
pub enum WithdrawType {
    BlackWhale,
    Bow,
}

/// The batch of unbonding requests that is still collecting.
#[derive(Debug, PartialEq, Eq, Clone, Copy)]
pub struct PendingBatch {
    /// Id of this batch.
    pub id: u64,
    /// Total amount of stake token to be burned in this batch.
    pub ustake_to_burn: u128,
    /// Time from which this batch can be submitted for unbonding.
    pub est_unbond_start_time: u64,
}

/// Denom and supply of the stake token.
#[derive(Debug, PartialEq, Eq)]
pub struct StakeToken {
    pub denom: String,
    pub total_supply: u128,
}

impl Clone for StakeToken {
    fn clone(&self) -> (r: Self)
        ensures
            r == *self,
    {
        StakeToken { denom: self.denom.clone(), total_supply: self.total_supply }
    }
}

/// A batch that has been submitted for unbonding.
#[derive(Debug, PartialEq, Eq, Clone, Copy)]
pub struct Batch {
    /// Id of this batch.
    pub id: u64,
    /// Whether this batch has been reconciled.
    pub reconciled: bool,
    /// Shares that remain in this batch; a burned unit of stake token is one share.
    pub total_shares: u128,
    /// Base token in this batch that has not been claimed.
    pub utoken_unclaimed: u128,
    /// Time at which this batch finishes unbonding.
    pub est_unbond_end_time: u64,
}

/// The share of one user in one batch.
#[derive(Debug, PartialEq, Eq)]
pub struct UnbondRequest {
    /// Id of the batch.
    pub id: u64,
    /// The user's address.
    pub user: String,
    /// The user's share in the batch.
    pub shares: u128,
}

impl Clone for UnbondRequest {
    fn clone(&self) -> (r: Self)
        ensures
            r == *self,
    {
        UnbondRequest { id: self.id, user: self.user.clone(), shares: self.shares }
    }
}

/// An amount of one denom.
#[derive(Debug, PartialEq, Eq)]
pub struct Coin {
    pub denom: String,
    pub amount: u128,
}

impl Clone for Coin {
    fn clone(&self) -> (r: Self)
        ensures
            r == *self,
    {
        Coin { denom: self.denom.clone(), amount: self.amount }
    }
}

/// Where the protocol's cut of the rewards goes, and how large it is.
#[derive(Debug, PartialEq, Eq)]
pub struct FeeConfig {
    /// Contract address where fees are sent.
    pub protocol_fee_contract: String,
    /// Fraction of the rewards that is kept as fee: 1 is 100%, 0.05 is 5%.
    pub protocol_reward_fee: Decimal,
}

impl Clone for FeeConfig {
    fn clone(&self) -> (r: Self)
        ensures
            r == *self,
    {
        FeeConfig {
            protocol_fee_contract: self.protocol_fee_contract.clone(),
            protocol_reward_fee: self.protocol_reward_fee,
        }
    }
}

/// How the validator that receives new stake is chosen.
#[derive(Debug, PartialEq, Eq, Clone, Copy)]
pub enum DelegationStrategy {
    /// All whitelisted validators are candidates.
    Uniform,
    /// Only validators that already hold a delegation are candidates.
    Defined,
}

/// One stage of a swap route: the markets to trade on, each with the denom
/// that is offered to it.
pub type Stage = Vec<(String, String)>;

/// The stages with each stage as a sequence.
pub open spec fn stage_views(stages: Seq<Stage>) -> Seq<Seq<(String, String)>> {
    Seq::new(stages.len(), |i: int| stages[i]@)
}

/// A copy of the stages.
pub fn clone_stages(stages: &Vec<Stage>) -> (r: Vec<Stage>)
    ensures
        stage_views(r@) == stage_views(stages@),
{
    let mut out: Vec<Stage> = Vec::new();
    let mut i: usize = 0;
    while i < stages.len()
        invariant
            0 <= i <= stages.len(),
            out.len() == i,
            forall|j: int| 0 <= j < i ==> (#[trigger] out[j])@ == stages[j]@,
        decreases stages.len() - i,
    {
        let stage = &stages[i];
        let mut copy: Stage = Vec::new();
        let mut k: usize = 0;
        while k < stage.len()
            invariant
                0 <= k <= stage.len(),
                copy@ == stage@.subrange(0, k as int),
            decreases stage.len() - k,
        {
            copy.push((stage[k].0.clone(), stage[k].1.clone()));
            k = k + 1;
        }
        out.push(copy);
        i = i + 1;
    }
    out
}

/// A yield position to claim: the kind of vault, its address and the denom of
/// the position.
pub type Withdrawal = (WithdrawType, String, String);

/// The continuations that the hub addresses to itself.
#[derive(Debug, PartialEq, Eq)]
pub enum CallbackMsg {
    /// Claim yield positions from external vaults.
    ClaimFunds { withdrawals: Option<Vec<Withdrawal>> },
    /// Swap what the hub holds to the base token.
    Swap { sender: String, stages: Option<Vec<Stage>> },
    /// Stake the unlocked base token.
    Reinvest,
    /// Compare the balances with the snapshots taken before the effects ran.
    CheckReceivedCoin { snapshot: Coin, snapshot_stake: Coin },
}

/// What the hub is created with.
#[derive(Debug, PartialEq, Eq)]
pub struct InstantiateMsg {
    /// Address of the contract that runs multi-stage swaps.
    pub fin_multi_contract: String,
    /// Account that can call the privileged operations.
    pub owner: String,
    /// Account that can harvest with routes of its own.
    pub operator: String,
    /// Swap route that everyone else harvests with.
    pub stages_preset: Option<Vec<Stage>>,
    /// Name of the stake token.
    pub denom: String,
    /// How often the unbonding queue is executed, in seconds.
    pub epoch_period: u64,
    /// The ledger's unbonding time, in seconds.
    pub unbond_period: u64,
    /// Validators that receive the delegations.
    pub validators: Vec<String>,
    /// Contract address where fees are sent.
    pub protocol_fee_contract: String,
    /// Fraction of the rewards that is kept as fee.
    pub protocol_reward_fee: Decimal,
    /// How the validator that receives new stake is chosen.
    pub delegation_strategy: Option<DelegationStrategy>,
}

/// The operations of the hub.
#[derive(Debug, PartialEq, Eq)]
pub enum ExecuteMsg {
    /// Bond the base token sent along.
    Bond { receiver: Option<String> },
    /// Give the base token sent along to the pool.
    Donate,
    /// Withdraw base token that has finished unbonding.
    WithdrawUnbonded { receiver: Option<String> },
    /// Add a validator to the whitelist; owner only.
    AddValidator { validator: String },
    /// Remove a validator from the whitelist; owner only.
    RemoveValidator { validator: String },
    /// Offer the ownership to another account; owner only.
    TransferOwnership { new_owner: String },
    /// Take back an offer of ownership; owner only.
    DropOwnershipProposal,
    /// Accept an offer of ownership.
    AcceptOwnership,
    /// Claim staking rewards, swap them to the base token, and restake.
    Harvest { withdrawals: Option<Vec<Withdrawal>>, stages: Option<Vec<Stage>> },
    /// Even out the delegations; owner only.
    Rebalance { min_redelegation: Option<u128> },
    /// Correct the batches that have finished unbonding for any shortfall.
    Reconcile,
    /// Submit the pending batch for unbonding.
    SubmitBatch,
    /// A continuation; the hub itself only.
    Callback(CallbackMsg),
    /// Change the configuration; owner only.
    UpdateConfig {
        protocol_fee_contract: Option<String>,
        protocol_reward_fee: Option<Decimal>,
        operator: Option<String>,
        stages_preset: Option<Vec<Stage>>,
        allow_donations: Option<bool>,
        delegation_strategy: Option<DelegationStrategy>,
    },
    /// Queue the stake token sent along for unbonding.
    QueueUnbond { receiver: Option<String> },
}

/// The configuration of the hub.
#[derive(Debug, PartialEq, Eq)]
pub struct ConfigResponse {
    pub owner: String,
    pub new_owner: Option<String>,
    pub stake_token: String,
    pub epoch_period: u64,
    pub unbond_period: u64,
    pub validators: Vec<String>,
    pub fee_config: FeeConfig,
    pub operator: String,
    pub stages_preset: Vec<Stage>,
}

/// The aggregate figures of the hub.
#[derive(Debug, PartialEq, Eq)]
pub struct StateResponse {
    /// Total supply of the stake token.
    pub total_ustake: u128,
    /// Total amount of base token bonded.
    pub total_utoken: u128,
    /// Base token per stake token.
    pub exchange_rate: Decimal,
    /// Rewards held by the hub that are ready to be reinvested.
    pub unlocked_coins: Vec<Coin>,
    /// Base token that is unbonding.
    pub unbonding: u128,
    /// Base token that the hub holds as balance.
    pub available: u128,
    /// Bonded, unbonding and available base token together.
    pub tvl_utoken: u128,
}

/// A request as listed for a batch.
#[derive(Debug, PartialEq, Eq)]
pub struct UnbondRequestsByBatchResponseItem {
    pub user: String,
    pub shares: u128,
}

impl From<UnbondRequest> for UnbondRequestsByBatchResponseItem {
    fn from(s: UnbondRequest) -> (r: Self) {
        UnbondRequestsByBatchResponseItem { user: s.user, shares: s.shares }
    }
}

impl FromSpecImpl<UnbondRequest> for UnbondRequestsByBatchResponseItem {
    open spec fn obeys_from_spec() -> bool {
        true
    }

    open spec fn from_spec(s: UnbondRequest) -> Self {
        UnbondRequestsByBatchResponseItem { user: s.user, shares: s.shares }
    }
}

/// A request as listed for a user.
#[derive(Debug, PartialEq, Eq, Clone, Copy)]
pub struct UnbondRequestsByUserResponseItem {
    pub id: u64,
    pub shares: u128,
}

impl From<UnbondRequest> for UnbondRequestsByUserResponseItem {
    fn from(s: UnbondRequest) -> (r: Self) {
        UnbondRequestsByUserResponseItem { id: s.id, shares: s.shares }
    }
}

impl FromSpecImpl<UnbondRequest> for UnbondRequestsByUserResponseItem {
    open spec fn obeys_from_spec() -> bool {
        true
    }

    open spec fn from_spec(s: UnbondRequest) -> Self {
        UnbondRequestsByUserResponseItem { id: s.id, shares: s.shares }
    }
}

/// Where a request stands.
#[derive(Debug, PartialEq, Eq, Clone, Copy)]
pub enum UnbondState {
    /// Its batch is still collecting.
    Pending,
    /// Its batch is unbonding.
    Unbonding,
    /// Its batch has finished unbonding.
    Completed,
}

/// A request as listed for a user, with the batch it belongs to.
#[derive(Debug, PartialEq, Eq, Clone, Copy)]
pub struct UnbondRequestsByUserResponseItemDetails {
    pub id: u64,
    pub shares: u128,
    pub state: UnbondState,
    /// The batch, where it has been submitted.
    pub batch: Option<Batch>,
    /// The pending batch, where the request is still in it.
    pub pending: Option<PendingBatch>,
}

/// The questions that the hub answers.
#[derive(Debug, PartialEq, Eq)]
#[allow(inconsistent_fields)]
pub enum QueryMsg {
    /// The configuration.
    Config,
    /// The aggregate figures.
    State,
    /// The batch that is still collecting.
    PendingBatch,
    /// One batch that has been submitted and has not been withdrawn in full.
    PreviousBatch(u64),
    /// The batches that have been submitted and have not been withdrawn in
    /// full.
    PreviousBatches { start_after: Option<u64>, limit: Option<u32> },
    /// The requests in a batch.
    UnbondRequestsByBatch { id: u64, start_after: Option<String>, limit: Option<u32> },
    /// The requests of a user.
    UnbondRequestsByUser { user: String, start_after: Option<u64>, limit: Option<u32> },
    /// The requests of a user, each with where it stands.
    UnbondRequestsByUserDetails { user: String, start_after: Option<u64>, limit: Option<u32> },
}

/// The answers of the hub, one kind for each question.
#[derive(Debug, PartialEq, Eq)]
pub enum QueryResponse {
    Config(ConfigResponse),
    State(StateResponse),
    PendingBatch(PendingBatch),
    PreviousBatch(Batch),
    PreviousBatches(Vec<Batch>),
    UnbondRequestsByBatch(Vec<UnbondRequestsByBatchResponseItem>),
    UnbondRequestsByUser(Vec<UnbondRequestsByUserResponseItem>),
    UnbondRequestsByUserDetails(Vec<UnbondRequestsByUserResponseItemDetails>),
}

} // verus!
