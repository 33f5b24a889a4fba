//! The one entry point that takes every operation as a message, and decides
//! who may ask for what.

use crate::hub::CallbackMsg;
use crate::hub::Coin;
use crate::hub::ExecuteMsg;
use crate::hub::QueryMsg;
use crate::hub::QueryResponse;
use crate::hub::StateResponse;
use crate::hub::UnbondRequestsByUserResponseItemDetails;
use crate::staking::constants::contract_denom;
use crate::staking::constants::CONTRACT_DENOM;
use crate::staking::error::ContractError;
use crate::staking::execute::accept_ownership;
use crate::staking::execute::accept_ownership_post;
use crate::staking::execute::add_validator;
use crate::staking::execute::add_validator_post;
use crate::staking::execute::bond;
use crate::staking::execute::bond_post;
use crate::staking::execute::callback_received_coins;
use crate::staking::execute::callback_received_coins_post;
use crate::staking::execute::claim_funds;
use crate::staking::execute::claim_funds_post;
use crate::staking::execute::drop_ownership_proposal;
use crate::staking::execute::drop_ownership_proposal_post;
use crate::staking::execute::harvest;
use crate::staking::execute::harvest_post;
use crate::staking::execute::queue_unbond;
use crate::staking::execute::queue_unbond_post;
use crate::staking::execute::rebalance;
use crate::staking::execute::rebalance_post;
use crate::staking::execute::reconcile;
use crate::staking::execute::reconcile_post;
use crate::staking::execute::reinvest;
use crate::staking::execute::reinvest_post;
use crate::staking::execute::remove_validator;
use crate::staking::execute::remove_validator_post;
use crate::staking::execute::submit_batch;
use crate::staking::execute::submit_batch_post;
use crate::staking::execute::swap;
use crate::staking::execute::swap_post;
use crate::staking::execute::transfer_ownership;
use crate::staking::execute::transfer_ownership_post;
use crate::staking::execute::update_config;
use crate::staking::execute::update_config_post;
use crate::staking::execute::updated;
use crate::staking::execute::withdraw_unbonded;
use crate::staking::execute::withdraw_unbonded_post;
use crate::staking::helpers::parse_received_fund;
use crate::staking::queries;
use crate::staking::queries::are_details;
use crate::staking::queries::batch_with_id;
use crate::staking::queries::batches_page;
use crate::staking::queries::by_batch_page;
use crate::staking::queries::by_user_page;
use crate::staking::queries::is_config;
use crate::staking::queries::is_state;
use crate::staking::helpers::received_fund;
use crate::staking::state::Env;
use crate::staking::state::Ledger;
use crate::staking::state::State;
use crate::staking::state::StateView;
use crate::staking::types::Response;
use vstd::prelude::*;

verus! {

/// Who calls, and what they send along.
#[derive(Debug, PartialEq, Eq)]
pub struct MessageInfo {
    pub sender: String,
    pub funds: Vec<Coin>,
}

/// A call that is refused before anything is done.
pub open spec fn refused(
    pre: StateView,
    post: StateView,
    r: Result<Response, ContractError>,
    e: ContractError,
) -> bool {
    r == Err::<Response, ContractError>(e) && post == pre
}

/// What a continuation leaves behind and hands back. Only the hub itself
/// may call one: a continuation is a step of a call that is under way.
pub open spec fn callback_post(
    pre: StateView,
    env: Env,
    info: MessageInfo,
    ledger: Ledger,
    callback_msg: CallbackMsg,
    post: StateView,
    r: Result<Response, ContractError>,
) -> bool {
    if env.contract@ != info.sender@ {
        refused(pre, post, r, ContractError::CallbackOnlyCalledByContract)
    } else {
        match callback_msg {
            CallbackMsg::ClaimFunds { withdrawals } => {
                &&& claim_funds_post(ledger, withdrawals, r)
                &&& post == pre
            },
            CallbackMsg::Swap { sender, stages } => {
                &&& swap_post(pre, ledger, stages, sender, r)
                &&& post == pre
            },
            CallbackMsg::Reinvest => reinvest_post(pre, ledger, post, r),
            CallbackMsg::CheckReceivedCoin {
                snapshot,
                snapshot_stake,
            } => callback_received_coins_post(pre, ledger, snapshot, snapshot_stake, post, r),
        }
    }
}

/// What a call leaves behind and hands back.
///
/// Anyone may bond, donate, queue, withdraw, harvest, reconcile and submit
/// the pending batch. The whitelist, the rebalancing, the configuration and
/// the offer of ownership are the owner's. An offer of ownership is accepted
/// by the account it was made to.
pub open spec fn execute_post(
    pre: StateView,
    env: Env,
    info: MessageInfo,
    ledger: Ledger,
    msg: ExecuteMsg,
    post: StateView,
    r: Result<Response, ContractError>,
) -> bool {
    match msg {
        ExecuteMsg::Bond { receiver } => match received_fund(info.funds@, CONTRACT_DENOM@) {
            Ok(amount) => bond_post(
                pre,
                ledger,
                updated(receiver, info.sender),
                amount,
                false,
                post,
                r,
            ),
            Err(e) => refused(pre, post, r, e),
        },
        ExecuteMsg::Donate => match received_fund(info.funds@, CONTRACT_DENOM@) {
            Ok(amount) => bond_post(pre, ledger, info.sender, amount, true, post, r),
            Err(e) => refused(pre, post, r, e),
        },
        ExecuteMsg::WithdrawUnbonded { receiver } => withdraw_unbonded_post(
            pre,
            env,
            info.sender,
            updated(receiver, info.sender),
            post,
            r,
        ),
        ExecuteMsg::AddValidator { validator } => add_validator_post(
            pre,
            ledger,
            info.sender,
            validator,
            post,
            r,
        ),
        ExecuteMsg::RemoveValidator { validator } => remove_validator_post(
            pre,
            ledger,
            info.sender,
            validator,
            post,
            r,
        ),
        ExecuteMsg::TransferOwnership { new_owner } => transfer_ownership_post(
            pre,
            info.sender,
            new_owner,
            post,
            r,
        ),
        ExecuteMsg::DropOwnershipProposal => drop_ownership_proposal_post(
            pre,
            info.sender,
            post,
            r,
        ),
        ExecuteMsg::AcceptOwnership => accept_ownership_post(pre, info.sender, post, r),
        ExecuteMsg::Harvest { withdrawals, stages } => {
            &&& harvest_post(pre, ledger, withdrawals, stages, info.sender, r)
            &&& post == pre
        },
        ExecuteMsg::Rebalance { min_redelegation } => {
            &&& rebalance_post(pre, ledger, info.sender, min_redelegation, r)
            &&& post == pre
        },
        ExecuteMsg::Reconcile => reconcile_post(pre, env, ledger, post, r),
        ExecuteMsg::SubmitBatch => submit_batch_post(pre, env, ledger, post, r),
        ExecuteMsg::Callback(callback_msg) => callback_post(
            pre,
            env,
            info,
            ledger,
            callback_msg,
            post,
            r,
        ),
        ExecuteMsg::UpdateConfig {
            protocol_fee_contract,
            protocol_reward_fee,
            operator,
            stages_preset,
            allow_donations,
            delegation_strategy,
        } => update_config_post(
            pre,
            info.sender,
            protocol_fee_contract,
            protocol_reward_fee,
            operator,
            stages_preset,
            allow_donations,
            delegation_strategy,
            post,
            r,
        ),
        ExecuteMsg::QueueUnbond { receiver } => if info.funds.len() != 1 {
            refused(pre, post, r, ContractError::ExpectingSingleCoin)
        } else if info.funds[0].denom@ != pre.stake_token.denom@ {
            refused(pre, post, r, ContractError::ExpectingStakeToken(info.funds[0].denom))
        } else {
            queue_unbond_post(
                pre,
                env,
                updated(receiver, info.sender),
                info.funds[0].amount,
                post,
                r,
            )
        },
    }
}

/// Carries out one operation of the hub.
pub fn execute(state: &mut State, env: &Env, info: &MessageInfo, ledger: &Ledger, msg: ExecuteMsg) -> (r:
    Result<Response, ContractError>)
    ensures
        execute_post(old(state)@, *env, *info, *ledger, msg, final(state)@, r),
{
    match msg {
        ExecuteMsg::Bond { receiver } => {
            let amount: u128 = match parse_received_fund(&info.funds, &contract_denom()) {
                Ok(amount) => amount,
                Err(e) => {
                    return Err(e);
                },
            };
            let receiver = match receiver {
                Some(receiver) => receiver,
                None => info.sender.clone(),
            };
            bond(state, ledger, receiver, amount, false)
        },
        ExecuteMsg::Donate => {
            let amount: u128 = match parse_received_fund(&info.funds, &contract_denom()) {
                Ok(amount) => amount,
                Err(e) => {
                    return Err(e);
                },
            };
            bond(state, ledger, info.sender.clone(), amount, true)
        },
        ExecuteMsg::WithdrawUnbonded { receiver } => {
            let receiver = match receiver {
                Some(receiver) => receiver,
                None => info.sender.clone(),
            };
            withdraw_unbonded(state, env, info.sender.clone(), receiver)
        },
        ExecuteMsg::AddValidator { validator } => add_validator(
            state,
            ledger,
            &info.sender,
            validator,
        ),
        ExecuteMsg::RemoveValidator { validator } => remove_validator(
            state,
            ledger,
            &info.sender,
            validator,
        ),
        ExecuteMsg::TransferOwnership { new_owner } => transfer_ownership(
            state,
            &info.sender,
            new_owner,
        ),
        ExecuteMsg::DropOwnershipProposal => drop_ownership_proposal(state, &info.sender),
        ExecuteMsg::AcceptOwnership => accept_ownership(state, info.sender.clone()),
        ExecuteMsg::Harvest { withdrawals, stages } => harvest(
            state,
            ledger,
            withdrawals,
            stages,
            info.sender.clone(),
        ),
        ExecuteMsg::Rebalance { min_redelegation } => rebalance(
            state,
            ledger,
            &info.sender,
            min_redelegation,
        ),
        ExecuteMsg::Reconcile => reconcile(state, env, ledger),
        ExecuteMsg::SubmitBatch => submit_batch(state, env, ledger),
        ExecuteMsg::Callback(callback_msg) => callback(state, env, info, ledger, callback_msg),
        ExecuteMsg::UpdateConfig {
            protocol_fee_contract,
            protocol_reward_fee,
            operator,
            stages_preset,
            allow_donations,
            delegation_strategy,
        } => update_config(
            state,
            &info.sender,
            protocol_fee_contract,
            protocol_reward_fee,
            operator,
            stages_preset,
            allow_donations,
            delegation_strategy,
        ),
        ExecuteMsg::QueueUnbond { receiver } => {
            if info.funds.len() != 1 {
                return Err(ContractError::ExpectingSingleCoin);
            }
            if info.funds[0].denom != state.stake_token.denom {
                return Err(ContractError::ExpectingStakeToken(info.funds[0].denom.clone()));
            }
            let receiver = match receiver {
                Some(receiver) => receiver,
                None => info.sender.clone(),
            };
            queue_unbond(state, env, receiver, info.funds[0].amount)
        },
    }
}

/// Carries out one continuation, for the hub itself only.
pub fn callback(
    state: &mut State,
    env: &Env,
    info: &MessageInfo,
    ledger: &Ledger,
    callback_msg: CallbackMsg,
) -> (r: Result<Response, ContractError>)
    ensures
        callback_post(old(state)@, *env, *info, *ledger, callback_msg, final(state)@, r),
{
    if env.contract != info.sender {
        return Err(ContractError::CallbackOnlyCalledByContract);
    }
    match callback_msg {
        CallbackMsg::ClaimFunds { withdrawals } => claim_funds(ledger, withdrawals),
        CallbackMsg::Swap { sender, stages } => swap(state, ledger, stages, &sender),
        CallbackMsg::Reinvest => reinvest(state, ledger),
        CallbackMsg::CheckReceivedCoin { snapshot, snapshot_stake } => callback_received_coins(
            state,
            ledger,
            snapshot,
            snapshot_stake,
        ),
    }
}

/// What a question is answered with. No answer changes anything.
pub open spec fn query_post(
    state: StateView,
    env: Env,
    ledger: Ledger,
    msg: QueryMsg,
    r: Result<QueryResponse, ContractError>,
) -> bool {
    match msg {
        QueryMsg::Config => r matches Ok(QueryResponse::Config(res)) && is_config(state, res),
        QueryMsg::State => match r {
            Ok(QueryResponse::State(res)) => is_state(
                state,
                env,
                ledger,
                Ok::<StateResponse, ContractError>(res),
            ),
            Ok(_) => false,
            Err(e) => is_state(state, env, ledger, Err::<StateResponse, ContractError>(e)),
        },
        QueryMsg::PendingBatch => r == Ok::<QueryResponse, ContractError>(
            QueryResponse::PendingBatch(state.pending_batch),
        ),
        QueryMsg::PreviousBatch(id) => r == match batch_with_id(state, id) {
            Ok(batch) => Ok::<QueryResponse, ContractError>(QueryResponse::PreviousBatch(batch)),
            Err(e) => Err(e),
        },
        QueryMsg::PreviousBatches { start_after, limit } => {
            &&& r matches Ok(QueryResponse::PreviousBatches(res))
            &&& res@ == batches_page(state, start_after, limit)
        },
        QueryMsg::UnbondRequestsByBatch { id, start_after, limit } => {
            &&& r matches Ok(QueryResponse::UnbondRequestsByBatch(res))
            &&& res@ == by_batch_page(state, id, start_after, limit)
        },
        QueryMsg::UnbondRequestsByUser { user, start_after, limit } => {
            &&& r matches Ok(QueryResponse::UnbondRequestsByUser(res))
            &&& res@ == by_user_page(state, user@, start_after, limit)
        },
        QueryMsg::UnbondRequestsByUserDetails { user, start_after, limit } => match r {
            Ok(QueryResponse::UnbondRequestsByUserDetails(res)) => are_details(
                state,
                env,
                user@,
                start_after,
                limit,
                Ok::<Vec<UnbondRequestsByUserResponseItemDetails>, ContractError>(res),
            ),
            Ok(_) => false,
            Err(e) => are_details(
                state,
                env,
                user@,
                start_after,
                limit,
                Err::<Vec<UnbondRequestsByUserResponseItemDetails>, ContractError>(e),
            ),
        },
    }
}

/// Answers one question about the hub.
pub fn query(state: &State, env: &Env, ledger: &Ledger, msg: QueryMsg) -> (r: Result<
    QueryResponse,
    ContractError,
>)
    ensures
        query_post(state@, *env, *ledger, msg, r),
{
    match msg {
        QueryMsg::Config => Ok(QueryResponse::Config(queries::config(state))),
        QueryMsg::State => match queries::state(state, env, ledger) {
            Ok(res) => Ok(QueryResponse::State(res)),
            Err(e) => Err(e),
        },
        QueryMsg::PendingBatch => Ok(QueryResponse::PendingBatch(queries::pending_batch(state))),
        QueryMsg::PreviousBatch(id) => match queries::previous_batch(state, id) {
            Ok(batch) => Ok(QueryResponse::PreviousBatch(batch)),
            Err(e) => Err(e),
        },
        QueryMsg::PreviousBatches { start_after, limit } => Ok(
            QueryResponse::PreviousBatches(queries::previous_batches(state, start_after, limit)),
        ),
        QueryMsg::UnbondRequestsByBatch { id, start_after, limit } => Ok(
            QueryResponse::UnbondRequestsByBatch(
                queries::unbond_requests_by_batch(state, id, start_after, limit),
            ),
        ),
        QueryMsg::UnbondRequestsByUser { user, start_after, limit } => Ok(
            QueryResponse::UnbondRequestsByUser(
                queries::unbond_requests_by_user(state, user, start_after, limit),
            ),
        ),
        QueryMsg::UnbondRequestsByUserDetails {
            user,
            start_after,
            limit,
        } => match queries::unbond_requests_by_user_details(state, env, user, start_after, limit) {
            Ok(res) => Ok(QueryResponse::UnbondRequestsByUserDetails(res)),
            Err(e) => Err(e),
        },
    }
}

} // verus!
