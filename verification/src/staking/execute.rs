//! The operations of the hub. Each reads the state and the ledger snapshot,
//! works out the new state and the effects, and either commits both or fails
//! and leaves the state as it was.

use crate::hub::Batch;
use crate::names::names_without;
use crate::names::without_name;
use crate::hub::CallbackMsg;
use crate::hub::Coin;
use crate::hub::DelegationStrategy;
use crate::hub::FeeConfig;
use crate::hub::InstantiateMsg;
use crate::hub::PendingBatch;
use crate::hub::stage_views;
use crate::hub::clone_stages;
use crate::hub::Stage;
use crate::hub::StakeToken;
use crate::hub::UnbondRequest;
use crate::hub::Withdrawal;
use crate::ratio::Decimal;
use crate::ratio::DecimalCheckedOps;
use crate::staking::backing::state_wf;
use crate::staking::constants::contract_denom;
use crate::staking::constants::get_reward_fee_cap;
use crate::staking::constants::REWARD_FEE_CAP_ATOMICS;
use crate::staking::constants::CONTRACT_DENOM;
use crate::staking::error::ContractError;
use crate::staking::error::OverflowOperation;
use crate::staking::error::Quantity;
use crate::ratio::RatioError;
use crate::staking::helpers::add_coin;
use crate::staking::helpers::clone_coins;
use crate::staking::helpers::assert_validator_exists;
use crate::staking::helpers::assert_validators_exists;
use crate::names::contains;
use crate::names::contains_name;
use crate::names::dedupe;
use crate::names::deduped;
use crate::staking::helpers::delegated_to;
use crate::staking::helpers::first_unknown;
use crate::staking::helpers::query_delegation;
use crate::staking::helpers::amount_of;
use crate::staking::helpers::coin_index;
use crate::staking::helpers::coins_overflow;
use crate::staking::helpers::coins_with;
use crate::staking::helpers::coins_without;
use crate::staking::helpers::find_coin;
use crate::staking::helpers::remove_denom;
use crate::staking::helpers::delegations_to;
use crate::staking::helpers::query_all_delegations;
use crate::staking::helpers::query_balance;
use crate::staking::helpers::query_delegations;
use crate::staking::math::at_least;
use crate::staking::math::at_least_upto;
use crate::staking::math::compute_mint_amount;
use crate::staking::math::compute_redelegations_for_rebalancing;
use crate::staking::math::compute_redelegations_for_removal;
use crate::staking::math::lemma_at_least_total;
use crate::staking::math::lemma_redelegation_total_push;
use crate::staking::math::lemma_surplus_within_stake;
use crate::staking::math::rebalancing_redelegations;
use crate::staking::math::redelegation_total;
use crate::staking::math::removal_redelegations;
use crate::staking::math::compute_unbond_amount;
use crate::staking::math::compute_undelegations;
use crate::staking::math::sum_delegations;
use crate::staking::math::unbond_amount;
use crate::staking::math::undelegations;
use crate::staking::math::mark_reconciled_batches;
use crate::staking::math::reconcile_batches;
use crate::staking::queue::batch_ids;
use crate::staking::queue::withdraw_requests;
use crate::staking::queue::withdrawal;
use crate::staking::queue::Withdrawing;
use crate::staking::queue::collect_due;
use crate::staking::queue::due;
use crate::staking::queue::merge_due;
use crate::staking::queue::reconciliation;
use crate::staking::queue::sum_unclaimed;
use crate::staking::queue::Reconciliation;
use crate::staking::queue::queue_overflows;
use crate::staking::queue::queue_request;
use crate::staking::queue::queued;
use crate::staking::math::mint_amount;
use crate::staking::math::total_amount;
use crate::staking::state::Env;
use crate::staking::state::Ledger;
use crate::staking::state::State;
use crate::staking::state::StateView;
use crate::staking::types::Delegation;
use crate::staking::types::Event;
use crate::staking::types::Msg;
use crate::staking::types::Redelegation;
use crate::staking::types::Response;
use crate::staking::types::SendFee;
use crate::staking::types::Undelegation;
use vstd::prelude::*;
use vstd::string::StringExecFns;

verus! {

//--------------------------------------------------------------------------------------------------
// Choosing the validator that receives new stake
//--------------------------------------------------------------------------------------------------

/// The validators that new stake can go to, each with what it holds.
///
/// Uniformly, these are the whitelisted validators. With defined shares they
/// are the validators that hold a delegation, and the first whitelisted
/// validator with nothing where none holds any.
pub open spec fn candidates(state: StateView, ledger: Ledger) -> Seq<Delegation> {
    match state.delegation_strategy {
        Some(DelegationStrategy::Defined) => if ledger.delegations@.len() == 0 {
            if state.validators.len() == 0 {
                Seq::empty()
            } else {
                seq![Delegation { validator: state.validators[0], amount: 0 }]
            }
        } else {
            ledger.delegations@
        },
        _ => delegations_to(ledger.delegations@, state.validators),
    }
}

/// The position of the least amount among the first `k`; of several least
/// amounts, the first.
pub open spec fn least_index(ds: Seq<Delegation>, k: int) -> int
    decreases k,
{
    if k <= 1 {
        0
    } else if ds[k - 1].amount < ds[least_index(ds, k - 1)].amount {
        k - 1
    } else {
        least_index(ds, k - 1)
    }
}

/// The position of the least amount; of several least amounts, the first.
pub open spec fn least(ds: Seq<Delegation>) -> int {
    least_index(ds, ds.len() as int)
}

/// The chosen position holds an amount that none undercuts, and every
/// position before it holds more.
pub proof fn lemma_least_index(ds: Seq<Delegation>, k: int)
    requires
        1 <= k <= ds.len(),
    ensures
        0 <= least_index(ds, k) < k,
        forall|j: int| 0 <= j < k ==> ds[least_index(ds, k)].amount <= (#[trigger] ds[j]).amount,
        forall|j: int|
            0 <= j < least_index(ds, k) ==> (#[trigger] ds[j]).amount > ds[least_index(
                ds,
                k,
            )].amount,
    decreases k,
{
    if k > 1 {
        lemma_least_index(ds, k - 1);
    }
}

/// The delegation that `utoken_to_bond` makes: all of it to the candidate
/// that holds the least.
pub open spec fn new_delegation(state: StateView, ledger: Ledger, utoken_to_bond: u128) -> Delegation {
    Delegation {
        validator: candidates(state, ledger)[least(candidates(state, ledger))].validator,
        amount: utoken_to_bond,
    }
}

/// Chooses the validator that `utoken_to_bond` goes to, and hands back the
/// delegations that the choice was made on.
pub fn find_new_delegation(state: &State, ledger: &Ledger, utoken_to_bond: u128) -> (r: Result<
    (Delegation, Vec<Delegation>),
    ContractError,
>)
    ensures
        match r {
            Ok((delegation, delegations)) => {
                &&& candidates(state@, *ledger).len() > 0
                &&& delegations@ == candidates(state@, *ledger)
                &&& delegation == new_delegation(state@, *ledger, utoken_to_bond)
            },
            Err(e) => e == ContractError::NoValidators && candidates(state@, *ledger).len() == 0,
        },
{
    let defined = match state.delegation_strategy {
        Some(DelegationStrategy::Defined) => true,
        _ => false,
    };
    let delegations = if defined {
        let all = query_all_delegations(ledger);
        if all.len() == 0 {
            if state.validators.len() == 0 {
                return Err(ContractError::NoValidators);
            }
            let mut first: Vec<Delegation> = Vec::new();
            first.push(Delegation { validator: state.validators[0].clone(), amount: 0 });
            first
        } else {
            all
        }
    } else {
        if state.validators.len() == 0 {
            return Err(ContractError::NoValidators);
        }
        query_delegations(ledger, &state.validators)
    };

    // A linear search for the least amount; a later validator wins only
    // where it holds strictly less.
    let mut at: usize = 0;
    let mut amount: u128 = delegations[0].amount;
    let mut i: usize = 1;
    while i < delegations.len()
        invariant
            1 <= i <= delegations.len(),
            at == least_index(delegations@, i as int),
            0 <= at < i,
            amount == delegations[at as int].amount,
        decreases delegations.len() - i,
    {
        if delegations[i].amount < amount {
            at = i;
            amount = delegations[i].amount;
        }
        i = i + 1;
    }
    let delegation = Delegation {
        validator: delegations[at].validator.clone(),
        amount: utoken_to_bond,
    };
    Ok((delegation, delegations))
}

//--------------------------------------------------------------------------------------------------
// Balance snapshots
//--------------------------------------------------------------------------------------------------

/// Whether `msg` is the continuation that compares the balances with a
/// snapshot of `utoken` of the base token and of `stake`.
pub open spec fn is_snapshot(msg: Msg, utoken: u128, stake: Coin) -> bool {
    &&& msg matches Msg::Callback(CallbackMsg::CheckReceivedCoin { snapshot, snapshot_stake })
    &&& snapshot.denom@ == CONTRACT_DENOM@
    &&& snapshot.amount == utoken
    &&& snapshot_stake == stake
}

/// The continuation that compares the balances after the effects with what
/// the hub holds now. Of the base token, `negative_offset` is left out: funds
/// that came with the call and are not to count as received.
pub fn check_received_coin_msg(
    ledger: &Ledger,
    stake: &StakeToken,
    negative_offset: Option<u128>,
) -> (r: Result<Msg, ContractError>)
    ensures
        ({
            let held = amount_of(ledger.balances@, CONTRACT_DENOM@);
            let offset = match negative_offset {
                Some(offset) => offset,
                None => 0,
            };
            match r {
                Ok(msg) => {
                    &&& offset <= held
                    &&& is_snapshot(
                        msg,
                        (held - offset) as u128,
                        Coin {
                            denom: stake.denom,
                            amount: amount_of(ledger.balances@, stake.denom@),
                        },
                    )
                },
                Err(e) => offset > held && e == ContractError::Overflow(OverflowOperation::Sub),
            }
        }),
{
    let denom = contract_denom();
    let mut amount: u128 = query_balance(ledger, &denom);
    if let Some(offset) = negative_offset {
        if offset > amount {
            return Err(ContractError::Overflow(OverflowOperation::Sub));
        }
        amount = amount - offset;
    }
    let amount_stake: u128 = query_balance(ledger, &stake.denom);
    Ok(
        Msg::Callback(
            CallbackMsg::CheckReceivedCoin {
                snapshot: Coin { denom, amount },
                snapshot_stake: Coin { denom: stake.denom.clone(), amount: amount_stake },
            },
        ),
    )
}

//--------------------------------------------------------------------------------------------------
// Bonding
//--------------------------------------------------------------------------------------------------

/// Why a bond or a donation fails, if it does. The checks are made in this
/// order, and the first that fails decides.
pub open spec fn bond_failure(
    state: StateView,
    ledger: Ledger,
    token_to_bond: u128,
    donate: bool,
) -> Option<ContractError> {
    let minted = mint_amount(
        state.stake_token.total_supply as nat,
        token_to_bond as nat,
        total_amount(candidates(state, ledger)),
    );
    if candidates(state, ledger).len() == 0 {
        Some(ContractError::NoValidators)
    } else if donate && state.allow_donations == Some(false) {
        Some(ContractError::DonationsDisabled)
    } else if !donate && minted is Err {
        Some(minted->Err_0)
    } else if !donate && state.stake_token.total_supply + minted->Ok_0 > u128::MAX {
        Some(ContractError::Overflow(OverflowOperation::Add))
    } else if token_to_bond > amount_of(ledger.balances@, CONTRACT_DENOM@) {
        Some(ContractError::Overflow(OverflowOperation::Sub))
    } else {
        None
    }
}

/// The stake token that a bond of `token_to_bond` mints; a donation mints none.
pub open spec fn bond_minted(
    state: StateView,
    ledger: Ledger,
    token_to_bond: u128,
    donate: bool,
) -> u128 {
    if donate {
        0
    } else {
        mint_amount(
            state.stake_token.total_supply as nat,
            token_to_bond as nat,
            total_amount(candidates(state, ledger)),
        )->Ok_0
    }
}

/// Where the switch is unset or on, as it is in a hub that has just been
/// created, a donation is never refused for being a donation: it is accepted
/// as soon as there is a validator to delegate to and the funds are on the
/// balance.
pub proof fn lemma_donation_is_accepted(state: StateView, ledger: Ledger, token_to_bond: u128)
    requires
        state.allow_donations != Some(false),
    ensures
        bond_failure(state, ledger, token_to_bond, true) != Some(ContractError::DonationsDisabled),
        candidates(state, ledger).len() > 0 && token_to_bond <= amount_of(
            ledger.balances@,
            CONTRACT_DENOM@,
        ) ==> bond_failure(state, ledger, token_to_bond, true) is None,
{
}

/// What a bond or a donation leaves behind and hands back.
pub open spec fn bond_post(
    pre: StateView,
    ledger: Ledger,
    receiver: String,
    token_to_bond: u128,
    donate: bool,
    post: StateView,
    r: Result<Response, ContractError>,
) -> bool {
    match r {
        Ok(response) => {
            let minted = bond_minted(pre, ledger, token_to_bond, donate);
            let stake = StakeToken {
                total_supply: (pre.stake_token.total_supply + minted) as u128,
                ..pre.stake_token
            };
            let snapshot_at = if donate {
                1int
            } else {
                2int
            };
            &&& bond_failure(pre, ledger, token_to_bond, donate) is None
            &&& post == (StateView { stake_token: stake, ..pre })
            &&& response.messages.len() == snapshot_at + 1
            &&& response.messages[0] == new_delegation(
                pre,
                ledger,
                token_to_bond,
            ).to_msg_spec()
            &&& !donate ==> response.messages[1] == (Msg::Mint {
                denom: stake.denom,
                amount: minted,
                recipient: receiver,
            })
            &&& is_snapshot(
                response.messages[snapshot_at],
                (amount_of(ledger.balances@, CONTRACT_DENOM@) - token_to_bond) as u128,
                Coin { denom: stake.denom, amount: amount_of(ledger.balances@, stake.denom@) },
            )
            &&& response.event == Some(
                Event::Bonded { receiver, token_bonded: token_to_bond, ustake_minted: minted },
            )
        },
        Err(e) => {
            &&& bond_failure(pre, ledger, token_to_bond, donate) == Some(e)
            &&& post == pre
        },
    }
}

/// Bonds `token_to_bond` of the base token, which came with the call, for
/// `receiver`, or donates it to the pool.
///
/// All of it is delegated to the validator that holds the least. A bond mints
/// stake token at the exchange rate that the delegations stood at before this
/// delegation; a donation mints nothing and so raises the rate.
pub fn bond(
    state: &mut State,
    ledger: &Ledger,
    receiver: String,
    token_to_bond: u128,
    donate: bool,
) -> (r: Result<Response, ContractError>)
    ensures
        bond_post(old(state)@, *ledger, receiver, token_to_bond, donate, final(state)@, r),
{
    let (new_delegation, delegations) = match find_new_delegation(state, ledger, token_to_bond) {
        Ok(found) => found,
        Err(e) => {
            return Err(e);
        },
    };

    // The supply as it stands, and the amount to mint at the current rate.
    let ustake_supply: u128 = state.stake_token.total_supply;
    let ustake_to_mint: u128 = if donate {
        match state.allow_donations {
            Some(false) => {
                return Err(ContractError::DonationsDisabled);
            },
            // Where the flag was never set, donations are accepted.
            _ => {},
        }
        0
    } else {
        match compute_mint_amount(ustake_supply, token_to_bond, delegations.as_slice()) {
            Ok(v) => v,
            Err(e) => {
                return Err(e);
            },
        }
    };

    let mut stake = state.stake_token.clone();
    let mut messages: Vec<Msg> = Vec::new();
    messages.push(new_delegation.to_msg());
    if !donate {
        stake.total_supply = match stake.total_supply.checked_add(ustake_to_mint) {
            Some(v) => v,
            None => {
                return Err(ContractError::Overflow(OverflowOperation::Add));
            },
        };
        messages.push(
            Msg::Mint {
                denom: stake.denom.clone(),
                amount: ustake_to_mint,
                recipient: receiver.clone(),
            },
        );
    }
    let snapshot = match check_received_coin_msg(ledger, &stake, Some(token_to_bond)) {
        Ok(msg) => msg,
        Err(e) => {
            return Err(e);
        },
    };
    messages.push(snapshot);

    state.stake_token = stake;
    Ok(
        Response {
            messages,
            event: Some(
                Event::Bonded { receiver, token_bonded: token_to_bond, ustake_minted: ustake_to_mint },
            ),
        },
    )
}

//--------------------------------------------------------------------------------------------------
// Harvesting
//--------------------------------------------------------------------------------------------------

/// The effect that withdraws the rewards accrued with each delegation.
pub open spec fn reward_withdrawals(ds: Seq<Delegation>) -> Seq<Msg> {
    Seq::new(ds.len(), |i: int| Msg::WithdrawDelegatorReward { validator: ds[i].validator })
}

/// The continuations that a harvest puts between withdrawing the rewards and
/// taking the snapshot: claiming from the vaults and swapping, each where the
/// caller gave the list for it.
pub open spec fn harvest_options(
    withdrawals: Option<Vec<Withdrawal>>,
    stages: Option<Vec<Stage>>,
    sender: String,
) -> Seq<Msg> {
    let claim = if withdrawals is Some {
        seq![Msg::Callback(CallbackMsg::ClaimFunds { withdrawals })]
    } else {
        Seq::<Msg>::empty()
    };
    let swap = if stages is Some {
        seq![Msg::Callback(CallbackMsg::Swap { sender, stages })]
    } else {
        Seq::<Msg>::empty()
    };
    claim + swap
}

/// What a harvest hands back.
pub open spec fn harvest_post(
    pre: StateView,
    ledger: Ledger,
    withdrawals: Option<Vec<Withdrawal>>,
    stages: Option<Vec<Stage>>,
    sender: String,
    r: Result<Response, ContractError>,
) -> bool {
    &&& r is Ok
    &&& ({
        let messages = r->Ok_0.messages@;
        let first = reward_withdrawals(ledger.delegations@) + harvest_options(
            withdrawals,
            stages,
            sender,
        );
        &&& messages.len() == first.len() + 2
        &&& messages.subrange(0, first.len() as int) == first
        &&& is_snapshot(
            messages[first.len() as int],
            amount_of(ledger.balances@, CONTRACT_DENOM@),
            Coin {
                denom: pre.stake_token.denom,
                amount: amount_of(ledger.balances@, pre.stake_token.denom@),
            },
        )
        &&& messages[first.len() as int + 1] == Msg::Callback(CallbackMsg::Reinvest)
    })
    &&& r->Ok_0.event is None
}

/// Harvests: one call sets up, in this order, the withdrawal of the rewards
/// of every delegation, the claim from the vaults, the swap to the base
/// token, the comparison of the balances with what the hub holds now, and the
/// reinvestment of what has arrived.
pub fn harvest(
    state: &State,
    ledger: &Ledger,
    withdrawals: Option<Vec<Withdrawal>>,
    stages: Option<Vec<Stage>>,
    sender: String,
) -> (r: Result<Response, ContractError>)
    ensures
        harvest_post(state@, *ledger, withdrawals, stages, sender, r),
{
    let mut messages: Vec<Msg> = Vec::new();
    // 1. withdraw the rewards of every delegation
    let mut i: usize = 0;
    while i < ledger.delegations.len()
        invariant
            0 <= i <= ledger.delegations.len(),
            messages@ == reward_withdrawals(ledger.delegations@).subrange(0, i as int),
        decreases ledger.delegations.len() - i,
    {
        messages.push(
            Msg::WithdrawDelegatorReward { validator: ledger.delegations[i].validator.clone() },
        );
        i = i + 1;
    }
    let ghost rewards = reward_withdrawals(ledger.delegations@);
    // 2. claim from the vaults
    if withdrawals.is_some() {
        messages.push(Msg::Callback(CallbackMsg::ClaimFunds { withdrawals }));
    }
    // 3. swap
    if stages.is_some() {
        messages.push(Msg::Callback(CallbackMsg::Swap { sender, stages }));
    }
    let ghost first = rewards + harvest_options(withdrawals, stages, sender);
    // 4. add what has arrived to the unlocked coins
    let snapshot = match check_received_coin_msg(ledger, &state.stake_token, None) {
        Ok(msg) => msg,
        Err(e) => {
            return Err(e);
        },
    };
    messages.push(snapshot);
    // 5. restake the unlocked coins
    messages.push(Msg::Callback(CallbackMsg::Reinvest));
    assert(messages@.subrange(0, first.len() as int) =~= first);
    Ok(Response { messages, event: None })
}

/// The withdrawals from the vaults for the first `k` positions: one for each
/// position of which the hub holds anything, for all that it holds.
pub open spec fn claims_upto(ws: Seq<Withdrawal>, balances: Seq<Coin>, k: int) -> Seq<Msg>
    decreases k,
{
    if k <= 0 {
        Seq::empty()
    } else if amount_of(balances, ws[k - 1].2@) != 0 {
        claims_upto(ws, balances, k - 1).push(
            Msg::VaultWithdraw {
                kind: ws[k - 1].0,
                vault: ws[k - 1].1,
                denom: ws[k - 1].2,
                amount: amount_of(balances, ws[k - 1].2@),
            },
        )
    } else {
        claims_upto(ws, balances, k - 1)
    }
}

/// The withdrawals from the vaults for the given positions.
pub open spec fn claims(withdrawals: Option<Vec<Withdrawal>>, balances: Seq<Coin>) -> Seq<Msg> {
    match withdrawals {
        Some(ws) => claims_upto(ws@, balances, ws.len() as int),
        None => Seq::empty(),
    }
}

/// What claiming from the vaults hands back.
pub open spec fn claim_funds_post(
    ledger: Ledger,
    withdrawals: Option<Vec<Withdrawal>>,
    r: Result<Response, ContractError>,
) -> bool {
    &&& r is Ok
    &&& r->Ok_0.messages@ =~= claims(withdrawals, ledger.balances@)
    &&& r->Ok_0.event is None
}

/// Claims the yield positions that the hub holds from their vaults.
pub fn claim_funds(ledger: &Ledger, withdrawals: Option<Vec<Withdrawal>>) -> (r: Result<
    Response,
    ContractError,
>)
    ensures
        claim_funds_post(*ledger, withdrawals, r),
{
    let mut messages: Vec<Msg> = Vec::new();
    if let Some(ws) = &withdrawals {
        let mut i: usize = 0;
        while i < ws.len()
            invariant
                0 <= i <= ws.len(),
                messages@ == claims_upto(ws@, ledger.balances@, i as int),
            decreases ws.len() - i,
        {
            let amount: u128 = query_balance(ledger, &ws[i].2);
            if amount != 0 {
                messages.push(
                    Msg::VaultWithdraw {
                        kind: ws[i].0,
                        vault: ws[i].1.clone(),
                        denom: ws[i].2.clone(),
                        amount,
                    },
                );
            }
            i = i + 1;
        }
    }
    Ok(Response { messages, event: None })
}

//--------------------------------------------------------------------------------------------------
// Swapping
//--------------------------------------------------------------------------------------------------

/// Whether a swap must not offer `denom`: the base token and the stake token
/// are never swapped away.
pub open spec fn is_forbidden(denom: Seq<char>, stake_denom: Seq<char>) -> bool {
    denom == CONTRACT_DENOM@ || denom == stake_denom
}

/// The position of the first market at or after `i` that is offered a
/// forbidden denom, and the number of markets where there is none.
pub open spec fn first_forbidden_in(
    stage: Seq<(String, String)>,
    stake_denom: Seq<char>,
    i: int,
) -> int
    decreases stage.len() - i,
{
    if i >= stage.len() {
        stage.len() as int
    } else if is_forbidden(stage[i].1@, stake_denom) {
        i
    } else {
        first_forbidden_in(stage, stake_denom, i + 1)
    }
}

/// The position of the first stage at or after `s` that offers a forbidden
/// denom, and the number of stages where there is none.
pub open spec fn first_forbidden_stage(
    stages: Seq<Seq<(String, String)>>,
    stake_denom: Seq<char>,
    s: int,
) -> int
    decreases stages.len() - s,
{
    if s >= stages.len() {
        stages.len() as int
    } else if first_forbidden_in(stages[s], stake_denom, 0) < stages[s].len() {
        s
    } else {
        first_forbidden_stage(stages, stake_denom, s + 1)
    }
}

/// What the validation of a route returns: the first forbidden denom that
/// the route offers is refused.
pub open spec fn route_check(stages: Seq<Seq<(String, String)>>, stake_denom: Seq<char>) -> Result<
    (),
    ContractError,
> {
    let s = first_forbidden_stage(stages, stake_denom, 0);
    if s >= stages.len() {
        Ok(())
    } else {
        Err(
            ContractError::SwapFromNotAllowed(
                stages[s][first_forbidden_in(stages[s], stake_denom, 0)].1,
            ),
        )
    }
}

/// Fails where a stage of the route offers the base token or the stake token.
pub fn validate_no_utoken_or_ustake_swap(stages: &Vec<Stage>, state: &State) -> (r: Result<
    (),
    ContractError,
>)
    ensures
        r == route_check(stage_views(stages@), state.stake_token.denom@),
{
    let base = contract_denom();
    let ghost views = stage_views(stages@);
    let ghost stake_denom = state.stake_token.denom@;
    let mut s: usize = 0;
    while s < stages.len()
        invariant
            0 <= s <= stages.len(),
            views == stage_views(stages@),
            stake_denom == state.stake_token.denom@,
            base@ == CONTRACT_DENOM@,
            first_forbidden_stage(views, stake_denom, 0) == first_forbidden_stage(
                views,
                stake_denom,
                s as int,
            ),
        decreases stages.len() - s,
    {
        let stage = &stages[s];
        let mut i: usize = 0;
        while i < stage.len()
            invariant
                0 <= i <= stage.len(),
                0 <= s < stages.len(),
                base@ == CONTRACT_DENOM@,
                stake_denom == state.stake_token.denom@,
                views == stage_views(stages@),
                views[s as int] == stage@,
                first_forbidden_stage(views, stake_denom, 0) == first_forbidden_stage(
                    views,
                    stake_denom,
                    s as int,
                ),
                first_forbidden_in(stage@, stake_denom, 0) == first_forbidden_in(
                    stage@,
                    stake_denom,
                    i as int,
                ),
            decreases stage.len() - i,
        {
            if stage[i].1 == base || stage[i].1 == state.stake_token.denom {
                return Err(ContractError::SwapFromNotAllowed(stage[i].1.clone()));
            }
            i = i + 1;
        }
        s = s + 1;
    }
    Ok(())
}

/// Whether one of the first `k` markets of the stage is offered `denom`.
pub open spec fn stage_offers(stage: Seq<(String, String)>, denom: Seq<char>, k: int) -> bool {
    exists|i: int| 0 <= i < k && i < stage.len() && (#[trigger] stage[i]).1@ == denom
}

/// Whether one of the first `k` stages offers `denom` to one of its markets.
pub open spec fn route_offers(stages: Seq<Seq<(String, String)>>, denom: Seq<char>, k: int) -> bool {
    exists|s: int|
        0 <= s < k && s < stages.len() && stage_offers(
            #[trigger] stages[s],
            denom,
            stages[s].len() as int,
        )
}

/// Whether the route offers `denom` to one of its markets.
pub fn offers(stages: &Vec<Stage>, denom: &String) -> (r: bool)
    ensures
        r == route_offers(stage_views(stages@), denom@, stages.len() as int),
{
    let ghost views = stage_views(stages@);
    let mut s: usize = 0;
    while s < stages.len()
        invariant
            0 <= s <= stages.len(),
            views == stage_views(stages@),
            !route_offers(views, denom@, s as int),
        decreases stages.len() - s,
    {
        let stage = &stages[s];
        let mut i: usize = 0;
        while i < stage.len()
            invariant
                0 <= i <= stage.len(),
                0 <= s < stages.len(),
                views == stage_views(stages@),
                views[s as int] == stage@,
                !stage_offers(stage@, denom@, i as int),
            decreases stage.len() - i,
        {
            if stage[i].1 == *denom {
                return true;
            }
            i = i + 1;
        }
        s = s + 1;
    }
    false
}

/// The first `k` of the balances that the route offers to a market.
pub open spec fn offered_funds_upto(
    balances: Seq<Coin>,
    stages: Seq<Seq<(String, String)>>,
    k: int,
) -> Seq<Coin>
    decreases k,
{
    if k <= 0 {
        Seq::empty()
    } else if route_offers(stages, balances[k - 1].denom@, stages.len() as int) {
        offered_funds_upto(balances, stages, k - 1).push(balances[k - 1])
    } else {
        offered_funds_upto(balances, stages, k - 1)
    }
}

/// The balances that the route offers to a market, in the ledger's order.
pub open spec fn offered_funds(balances: Seq<Coin>, stages: Seq<Seq<(String, String)>>) -> Seq<
    Coin,
> {
    offered_funds_upto(balances, stages, balances.len() as int)
}

/// The route that a swap takes: the caller's, or the preset.
pub open spec fn swap_route(state: StateView, stages: Option<Vec<Stage>>) -> Seq<
    Seq<(String, String)>,
> {
    match stages {
        Some(stages) => stage_views(stages@),
        None => state.stages_preset,
    }
}

/// Why a swap fails, if it does.
pub open spec fn swap_failure(
    state: StateView,
    stages: Option<Vec<Stage>>,
    sender: String,
) -> Option<ContractError> {
    if stages is Some && sender@ != state.operator@ {
        Some(ContractError::UnauthorizedSenderNotOperator)
    } else {
        match route_check(swap_route(state, stages), state.stake_token.denom@) {
            Ok(_) => None,
            Err(e) => Some(e),
        }
    }
}

/// What a swap hands back.
pub open spec fn swap_post(
    pre: StateView,
    ledger: Ledger,
    stages: Option<Vec<Stage>>,
    sender: String,
    r: Result<Response, ContractError>,
) -> bool {
    match r {
        Ok(response) => {
            &&& swap_failure(pre, stages, sender) is None
            &&& response.messages.len() == 1
            &&& response.messages[0] matches Msg::Swap { contract, stages: route, funds }
            &&& contract == pre.fin_multi
            &&& stage_views(route@) == swap_route(pre, stages)
            &&& funds@ == offered_funds(ledger.balances@, swap_route(pre, stages))
            &&& response.event is None
        },
        Err(e) => swap_failure(pre, stages, sender) == Some(e),
    }
}

/// Swaps what the hub holds to the base token: one call to the multi-stage
/// swap contract, with the route and with every balance that the route offers.
///
/// Only the operator may give a route of its own; everyone else swaps along
/// the preset. No route may offer the base token or the stake token.
pub fn swap(state: &State, ledger: &Ledger, stages: Option<Vec<Stage>>, sender: &String) -> (r:
    Result<Response, ContractError>)
    ensures
        swap_post(state@, *ledger, stages, *sender, r),
{
    let route: Vec<Stage> = match stages {
        Some(given) => {
            match state.assert_operator(sender) {
                Ok(_) => {},
                Err(e) => {
                    return Err(e);
                },
            }
            given
        },
        None => clone_stages(&state.stages_preset),
    };
    match validate_no_utoken_or_ustake_swap(&route, state) {
        Ok(_) => {},
        Err(e) => {
            return Err(e);
        },
    }
    let ghost views = stage_views(route@);
    let mut funds: Vec<Coin> = Vec::new();
    let mut i: usize = 0;
    while i < ledger.balances.len()
        invariant
            0 <= i <= ledger.balances.len(),
            views == stage_views(route@),
            funds@ == offered_funds_upto(ledger.balances@, views, i as int),
        decreases ledger.balances.len() - i,
    {
        if offers(&route, &ledger.balances[i].denom) {
            funds.push(ledger.balances[i].clone());
        }
        i = i + 1;
    }
    let mut messages: Vec<Msg> = Vec::new();
    messages.push(Msg::Swap { contract: state.fin_multi.clone(), stages: route, funds });
    Ok(Response { messages, event: None })
}

//--------------------------------------------------------------------------------------------------
// Reinvesting
//--------------------------------------------------------------------------------------------------

/// The protocol's cut of `available`, or the failure to work it out.
pub open spec fn protocol_fee(state: StateView, available: u128) -> Result<u128, RatioError> {
    state.fee_config.protocol_reward_fee.mul_uint(available)
}

/// What is bonded of `available` once the protocol's cut is taken.
pub open spec fn after_fee(state: StateView, available: u128) -> u128 {
    let fee = protocol_fee(state, available)->Ok_0;
    if fee > available {
        0
    } else {
        (available - fee) as u128
    }
}

/// Why a reinvestment fails, if it does.
pub open spec fn reinvest_failure(state: StateView, ledger: Ledger) -> Option<ContractError> {
    if coin_index(state.unlocked_coins, CONTRACT_DENOM@) >= state.unlocked_coins.len() {
        Some(ContractError::NoTokensAvailable)
    } else if protocol_fee(state, amount_of(state.unlocked_coins, CONTRACT_DENOM@)) is Err {
        Some(ContractError::Overflow(OverflowOperation::Mul))
    } else if candidates(state, ledger).len() == 0 {
        Some(ContractError::NoValidators)
    } else {
        None
    }
}

/// What a reinvestment leaves behind and hands back.
pub open spec fn reinvest_post(
    pre: StateView,
    ledger: Ledger,
    post: StateView,
    r: Result<Response, ContractError>,
) -> bool {
    match r {
        Ok(response) => {
            let available = amount_of(pre.unlocked_coins, CONTRACT_DENOM@);
            let fee = protocol_fee(pre, available)->Ok_0;
            let bonded = after_fee(pre, available);
            &&& reinvest_failure(pre, ledger) is None
            &&& post == (StateView {
                unlocked_coins: coins_without(pre.unlocked_coins, CONTRACT_DENOM@),
                ..pre
            })
            &&& response.messages@ =~= if fee == 0 {
                seq![new_delegation(pre, ledger, bonded).to_msg_spec()]
            } else {
                seq![
                    new_delegation(pre, ledger, bonded).to_msg_spec(),
                    Msg::Send {
                        to_address: pre.fee_config.protocol_fee_contract,
                        amount: fee,
                    },
                ]
            }
            &&& response.event == Some(
                Event::Harvested { utoken_bonded: bonded, utoken_protocol_fee: fee },
            )
        },
        Err(e) => {
            &&& reinvest_failure(pre, ledger) == Some(e)
            &&& post == pre
        },
    }
}

/// Reinvests the unlocked base token: the protocol's cut goes to the fee
/// contract, the rest to the validator that holds the least.
pub fn reinvest(state: &mut State, ledger: &Ledger) -> (r: Result<Response, ContractError>)
    ensures
        reinvest_post(old(state)@, *ledger, final(state)@, r),
{
    let base = contract_denom();
    let utoken_available: u128 = match find_coin(&state.unlocked_coins, &base) {
        Some(i) => state.unlocked_coins[i].amount,
        None => {
            return Err(ContractError::NoTokensAvailable);
        },
    };
    let protocol_fee_amount: u128 = match state.fee_config.protocol_reward_fee.checked_mul_uint(
        utoken_available,
    ) {
        Ok(fee) => fee,
        Err(_) => {
            return Err(ContractError::Overflow(OverflowOperation::Mul));
        },
    };
    let utoken_to_bond: u128 = if protocol_fee_amount > utoken_available {
        0
    } else {
        utoken_available - protocol_fee_amount
    };

    let (new_delegation, _) = match find_new_delegation(state, ledger, utoken_to_bond) {
        Ok(found) => found,
        Err(e) => {
            return Err(e);
        },
    };

    let mut messages: Vec<Msg> = Vec::new();
    messages.push(new_delegation.to_msg());
    if protocol_fee_amount != 0 {
        let send_fee = SendFee::new(
            state.fee_config.protocol_fee_contract.clone(),
            protocol_fee_amount,
        );
        messages.push(send_fee.to_msg());
    }
    remove_denom(&mut state.unlocked_coins, &base);
    Ok(
        Response {
            messages,
            event: Some(
                Event::Harvested {
                    utoken_bonded: utoken_to_bond,
                    utoken_protocol_fee: protocol_fee_amount,
                },
            ),
        },
    )
}

//--------------------------------------------------------------------------------------------------
// Comparing balances with their snapshots
//--------------------------------------------------------------------------------------------------

/// What has arrived of a coin since the snapshot was taken.
pub open spec fn arrived(ledger: Ledger, snapshot: Coin) -> u128 {
    if amount_of(ledger.balances@, snapshot.denom@) > snapshot.amount {
        (amount_of(ledger.balances@, snapshot.denom@) - snapshot.amount) as u128
    } else {
        0
    }
}

/// Why the comparison fails, if it does.
pub open spec fn received_failure(
    state: StateView,
    ledger: Ledger,
    snapshot: Coin,
    snapshot_stake: Coin,
) -> Option<ContractError> {
    if arrived(ledger, snapshot) > 0 && coins_overflow(
        state.unlocked_coins,
        Coin { denom: snapshot.denom, amount: arrived(ledger, snapshot) },
    ) {
        Some(ContractError::Overflow(OverflowOperation::Add))
    } else if arrived(ledger, snapshot_stake) > state.stake_token.total_supply {
        Some(ContractError::Overflow(OverflowOperation::Sub))
    } else {
        None
    }
}

/// What the comparison with the snapshots leaves behind and hands back.
pub open spec fn callback_received_coins_post(
    pre: StateView,
    ledger: Ledger,
    snapshot: Coin,
    snapshot_stake: Coin,
    post: StateView,
    r: Result<Response, ContractError>,
) -> bool {
    match r {
        Ok(response) => {
            let received = Coin { denom: snapshot.denom, amount: arrived(ledger, snapshot) };
            let burned = arrived(ledger, snapshot_stake);
            &&& received_failure(pre, ledger, snapshot, snapshot_stake) is None
            &&& post == (StateView {
                unlocked_coins: if received.amount > 0 {
                    coins_with(pre.unlocked_coins, received)
                } else {
                    pre.unlocked_coins
                },
                stake_token: StakeToken {
                    total_supply: (pre.stake_token.total_supply - burned) as u128,
                    ..pre.stake_token
                },
                ..pre
            })
            &&& response.messages@ =~= if burned > 0 {
                seq![Msg::Burn { denom: snapshot_stake.denom, amount: burned }]
            } else {
                Seq::<Msg>::empty()
            }
            &&& response.event == Some(
                Event::Received {
                    received: if received.amount > 0 {
                        Some(received)
                    } else {
                        None
                    },
                },
            )
        },
        Err(e) => {
            &&& received_failure(pre, ledger, snapshot, snapshot_stake) == Some(e)
            &&& post == pre
        },
    }
}

/// Compares the balances with the snapshots that were taken before the
/// effects ran. What has arrived of the snapshot's coin joins the unlocked
/// coins. What has arrived of the stake token is burned and leaves the
/// supply, so that rewards paid in stake token raise the exchange rate.
pub fn callback_received_coins(
    state: &mut State,
    ledger: &Ledger,
    snapshot: Coin,
    snapshot_stake: Coin,
) -> (r: Result<Response, ContractError>)
    ensures
        callback_received_coins_post(old(state)@, *ledger, snapshot, snapshot_stake, final(state)@, r),
{
    let mut unlocked_coins: Vec<Coin> = Vec::new();
    let mut received: Option<Coin> = None;
    let current_balance: u128 = query_balance(ledger, &snapshot.denom);
    let has_arrived = current_balance > snapshot.amount;
    if has_arrived {
        let coin = Coin { denom: snapshot.denom, amount: current_balance - snapshot.amount };
        unlocked_coins = clone_coins(&state.unlocked_coins);
        match add_coin(&mut unlocked_coins, coin.clone()) {
            Ok(_) => {},
            Err(e) => {
                return Err(e);
            },
        }
        received = Some(coin);
    }
    let current_balance_stake: u128 = query_balance(ledger, &snapshot_stake.denom);
    let mut messages: Vec<Msg> = Vec::new();
    let mut total_supply: u128 = state.stake_token.total_supply;
    if current_balance_stake > snapshot_stake.amount {
        // Stake token that has come in as a reward is burned.
        let ustake_to_burn: u128 = current_balance_stake - snapshot_stake.amount;
        if ustake_to_burn > total_supply {
            return Err(ContractError::Overflow(OverflowOperation::Sub));
        }
        total_supply = total_supply - ustake_to_burn;
        messages.push(Msg::Burn { denom: snapshot_stake.denom, amount: ustake_to_burn });
    }
    if has_arrived {
        state.unlocked_coins = unlocked_coins;
    }
    state.stake_token.total_supply = total_supply;
    Ok(Response { messages, event: Some(Event::Received { received }) })
}

//--------------------------------------------------------------------------------------------------
// Queuing an unbonding request
//--------------------------------------------------------------------------------------------------

/// Why queuing fails, if it does.
pub open spec fn queue_unbond_failure(
    state: StateView,
    receiver: String,
    ustake_to_burn: u128,
) -> Option<ContractError> {
    if state.pending_batch.ustake_to_burn + ustake_to_burn > u128::MAX || queue_overflows(
        state.unbond_requests,
        state.pending_batch.id,
        receiver@,
        ustake_to_burn,
    ) {
        Some(ContractError::Overflow(OverflowOperation::Add))
    } else {
        None
    }
}

/// What queuing leaves behind and hands back.
pub open spec fn queue_unbond_post(
    pre: StateView,
    env: Env,
    receiver: String,
    ustake_to_burn: u128,
    post: StateView,
    r: Result<Response, ContractError>,
) -> bool {
    match r {
        Ok(response) => {
            let pending = pre.pending_batch;
            let due = env.time >= pending.est_unbond_start_time;
            &&& queue_unbond_failure(pre, receiver, ustake_to_burn) is None
            &&& post == (StateView {
                pending_batch: PendingBatch {
                    ustake_to_burn: (pending.ustake_to_burn + ustake_to_burn) as u128,
                    ..pending
                },
                unbond_requests: queued(
                    pre.unbond_requests,
                    pending.id,
                    receiver,
                    ustake_to_burn,
                ),
                ..pre
            })
            &&& response.messages@ =~= if due {
                seq![Msg::SubmitBatch]
            } else {
                Seq::<Msg>::empty()
            }
            &&& response.event == Some(
                Event::UnbondQueued {
                    est_unbond_start_time: if due {
                        None
                    } else {
                        Some(pending.est_unbond_start_time)
                    },
                    id: pending.id,
                    receiver,
                    ustake_to_burn,
                },
            )
        },
        Err(e) => {
            &&& queue_unbond_failure(pre, receiver, ustake_to_burn) == Some(e)
            &&& post == pre
        },
    }
}

/// Queues `ustake_to_burn` of the stake token, which came with the call, for
/// unbonding in the pending batch, to be withdrawn by `receiver`.
///
/// Where the pending batch is already due, the hub is called to submit it.
pub fn queue_unbond(state: &mut State, env: &Env, receiver: String, ustake_to_burn: u128) -> (r:
    Result<Response, ContractError>)
    ensures
        queue_unbond_post(old(state)@, *env, receiver, ustake_to_burn, final(state)@, r),
{
    let pending = state.pending_batch;
    let total: u128 = match pending.ustake_to_burn.checked_add(ustake_to_burn) {
        Some(v) => v,
        None => {
            return Err(ContractError::Overflow(OverflowOperation::Add));
        },
    };
    match queue_request(&mut state.unbond_requests, pending.id, receiver.clone(), ustake_to_burn) {
        Ok(_) => {},
        Err(e) => {
            return Err(e);
        },
    }
    state.pending_batch.ustake_to_burn = total;

    let mut messages: Vec<Msg> = Vec::new();
    let mut start_time: Option<u64> = Some(pending.est_unbond_start_time);
    if env.time >= pending.est_unbond_start_time {
        start_time = None;
        messages.push(Msg::SubmitBatch);
    }
    Ok(
        Response {
            messages,
            event: Some(
                Event::UnbondQueued {
                    est_unbond_start_time: start_time,
                    id: pending.id,
                    receiver,
                    ustake_to_burn,
                },
            ),
        },
    )
}

//--------------------------------------------------------------------------------------------------
// Submitting the pending batch
//--------------------------------------------------------------------------------------------------

/// The base token that the pending batch unbonds, or why it cannot be
/// worked out.
pub open spec fn batch_unbond_amount(state: StateView, ledger: Ledger) -> Result<
    u128,
    ContractError,
> {
    unbond_amount(
        state.stake_token.total_supply as nat,
        state.pending_batch.ustake_to_burn as nat,
        total_amount(ledger.delegations@),
    )
}

/// Why submitting the pending batch fails, if it does. The checks are made
/// in this order, and the first that fails decides.
pub open spec fn submit_batch_failure(state: StateView, env: Env, ledger: Ledger) -> Option<
    ContractError,
> {
    let pending = state.pending_batch;
    if env.time < pending.est_unbond_start_time {
        Some(ContractError::SubmitBatchAfter(pending.est_unbond_start_time))
    } else if batch_unbond_amount(state, ledger) is Err {
        Some(batch_unbond_amount(state, ledger)->Err_0)
    } else if ledger.delegations@.len() == 0 {
        Some(ContractError::DivideByZero)
    } else if batch_unbond_amount(state, ledger)->Ok_0 > total_amount(ledger.delegations@) {
        Some(ContractError::Overflow(OverflowOperation::Sub))
    } else if env.time + state.unbond_period > u64::MAX || pending.id + 1 > u64::MAX || env.time
        + state.epoch_period > u64::MAX {
        Some(ContractError::Overflow(OverflowOperation::Add))
    } else if pending.ustake_to_burn > state.stake_token.total_supply {
        Some(ContractError::Overflow(OverflowOperation::Sub))
    } else {
        None
    }
}

/// The effects that make the given undelegations.
pub open spec fn undelegation_msgs(us: Seq<Undelegation>) -> Seq<Msg> {
    Seq::new(us.len(), |i: int| us[i].to_msg_spec())
}

/// What submitting the pending batch leaves behind and hands back.
pub open spec fn submit_batch_post(
    pre: StateView,
    env: Env,
    ledger: Ledger,
    post: StateView,
    r: Result<Response, ContractError>,
) -> bool {
    match r {
        Ok(response) => {
            let pending = pre.pending_batch;
            let unbonded = batch_unbond_amount(pre, ledger)->Ok_0;
            let drawn = undelegation_msgs(undelegations(ledger.delegations@, unbonded as nat));
            let stake = StakeToken {
                total_supply: (pre.stake_token.total_supply
                    - pending.ustake_to_burn) as u128,
                ..pre.stake_token
            };
            &&& submit_batch_failure(pre, env, ledger) is None
            &&& post == (StateView {
                stake_token: stake,
                pending_batch: PendingBatch {
                    id: (pending.id + 1) as u64,
                    ustake_to_burn: 0,
                    est_unbond_start_time: (env.time + pre.epoch_period) as u64,
                },
                previous_batches: pre.previous_batches.push(
                    Batch {
                        id: pending.id,
                        reconciled: false,
                        total_shares: pending.ustake_to_burn,
                        utoken_unclaimed: unbonded,
                        est_unbond_end_time: (env.time + pre.unbond_period) as u64,
                    },
                ),
                ..pre
            })
            &&& response.messages.len() == drawn.len() + 2
            &&& response.messages@.subrange(0, drawn.len() as int) == drawn
            &&& response.messages[drawn.len() as int] == (Msg::Burn {
                denom: stake.denom,
                amount: pending.ustake_to_burn,
            })
            &&& is_snapshot(
                response.messages[drawn.len() as int + 1],
                amount_of(ledger.balances@, CONTRACT_DENOM@),
                Coin { denom: stake.denom, amount: amount_of(ledger.balances@, stake.denom@) },
            )
            &&& response.event == Some(
                Event::UnbondSubmitted {
                    id: pending.id,
                    utoken_unbonded: unbonded,
                    ustake_burned: pending.ustake_to_burn,
                },
            )
        },
        Err(e) => {
            &&& submit_batch_failure(pre, env, ledger) == Some(e)
            &&& post == pre
        },
    }
}

/// Submits the pending batch for unbonding, once it is due.
///
/// The shares of the batch are burned and leave the supply. The base token
/// that they stand for at the current rate is drawn from the validators and
/// becomes the unclaimed amount of the batch, which finishes unbonding one
/// unbonding period from now. A new pending batch with the next id opens, due
/// one epoch from now.
pub fn submit_batch(state: &mut State, env: &Env, ledger: &Ledger) -> (r: Result<
    Response,
    ContractError,
>)
    ensures
        submit_batch_post(old(state)@, *env, *ledger, final(state)@, r),
{
    let pending_batch = state.pending_batch;
    let current_time: u64 = env.time;
    if current_time < pending_batch.est_unbond_start_time {
        return Err(ContractError::SubmitBatchAfter(pending_batch.est_unbond_start_time));
    }

    let delegations = query_all_delegations(ledger);
    let ustake_supply: u128 = state.stake_token.total_supply;

    let utoken_to_unbond: u128 = match compute_unbond_amount(
        ustake_supply,
        pending_batch.ustake_to_burn,
        delegations.as_slice(),
    ) {
        Ok(v) => v,
        Err(e) => {
            return Err(e);
        },
    };
    if delegations.len() == 0 {
        return Err(ContractError::DivideByZero);
    }
    let utoken_staked = sum_delegations(delegations.as_slice());
    if utoken_to_unbond > utoken_staked.unwrap() {
        return Err(ContractError::Overflow(OverflowOperation::Sub));
    }
    let new_undelegations = compute_undelegations(utoken_to_unbond, delegations.as_slice());

    let est_unbond_end_time: u64 = match current_time.checked_add(state.unbond_period) {
        Some(v) => v,
        None => {
            return Err(ContractError::Overflow(OverflowOperation::Add));
        },
    };
    let next_id: u64 = match pending_batch.id.checked_add(1) {
        Some(v) => v,
        None => {
            return Err(ContractError::Overflow(OverflowOperation::Add));
        },
    };
    let est_unbond_start_time: u64 = match current_time.checked_add(state.epoch_period) {
        Some(v) => v,
        None => {
            return Err(ContractError::Overflow(OverflowOperation::Add));
        },
    };
    // The burn leaves the supply.
    if pending_batch.ustake_to_burn > ustake_supply {
        return Err(ContractError::Overflow(OverflowOperation::Sub));
    }
    let ghost drawn = undelegation_msgs(new_undelegations@);
    let mut messages: Vec<Msg> = Vec::new();
    let mut i: usize = 0;
    while i < new_undelegations.len()
        invariant
            0 <= i <= new_undelegations.len(),
            drawn == undelegation_msgs(new_undelegations@),
            messages@ == drawn.subrange(0, i as int),
        decreases new_undelegations.len() - i,
    {
        messages.push(new_undelegations[i].to_msg());
        i = i + 1;
    }
    messages.push(
        Msg::Burn { denom: state.stake_token.denom.clone(), amount: pending_batch.ustake_to_burn },
    );
    let snapshot = match check_received_coin_msg(ledger, &state.stake_token, None) {
        Ok(msg) => msg,
        Err(e) => {
            return Err(e);
        },
    };
    messages.push(snapshot);
    assert(messages@.subrange(0, drawn.len() as int) =~= drawn);

    state.previous_batches.push(
        Batch {
            id: pending_batch.id,
            reconciled: false,
            total_shares: pending_batch.ustake_to_burn,
            utoken_unclaimed: utoken_to_unbond,
            est_unbond_end_time,
        },
    );
    state.pending_batch =
    PendingBatch { id: next_id, ustake_to_burn: 0, est_unbond_start_time };
    state.stake_token.total_supply = ustake_supply - pending_batch.ustake_to_burn;

    Ok(
        Response {
            messages,
            event: Some(
                Event::UnbondSubmitted {
                    id: pending_batch.id,
                    utoken_unbonded: utoken_to_unbond,
                    ustake_burned: pending_batch.ustake_to_burn,
                },
            ),
        },
    )
}

//--------------------------------------------------------------------------------------------------
// Reconciling
//--------------------------------------------------------------------------------------------------

/// What reconciling does to the batches of the state, with the ledger as it
/// stands.
pub open spec fn reconcile_outcome(state: StateView, env: Env, ledger: Ledger) -> Result<
    Reconciliation,
    ContractError,
> {
    reconciliation(
        state.previous_batches,
        amount_of(state.unlocked_coins, CONTRACT_DENOM@),
        amount_of(ledger.balances@, CONTRACT_DENOM@),
        env.time,
    )
}

/// What reconciling leaves behind and hands back.
pub open spec fn reconcile_post(
    pre: StateView,
    env: Env,
    ledger: Ledger,
    post: StateView,
    r: Result<Response, ContractError>,
) -> bool {
    match r {
        Ok(response) => {
            &&& reconcile_outcome(pre, env, ledger) is Ok
            &&& response.messages@ =~= Seq::<Msg>::empty()
            &&& match reconcile_outcome(pre, env, ledger)->Ok_0 {
                Reconciliation::Nothing => {
                    &&& post == pre
                    &&& response.event is None
                },
                Reconciliation::Settled { batches, deducted } => {
                    &&& post == (StateView {
                        previous_batches: batches,
                        ..pre
                    })
                    &&& response.event matches Some(
                        Event::Reconciled { ids, utoken_deducted },
                    )
                    &&& ids@ == batch_ids(due(pre.previous_batches, env.time))
                    &&& utoken_deducted == deducted
                },
            }
        },
        Err(e) => {
            &&& reconcile_outcome(pre, env, ledger) == Err::<
                Reconciliation,
                ContractError,
            >(e)
            &&& post == pre
        },
    }
}

/// Reconciles the batches that have finished unbonding with what the hub
/// holds.
///
/// The hub expects to hold the unclaimed amounts of these batches and the
/// base token that is unlocked for reinvesting. Where it holds less, because
/// of rounding or because validators were slashed, the shortfall is taken
/// evenly off these batches. Either way they are then reconciled, and a
/// surplus is left where it is. Where no batch is due, nothing happens.
pub fn reconcile(state: &mut State, env: &Env, ledger: &Ledger) -> (r: Result<
    Response,
    ContractError,
>)
    ensures
        reconcile_post(old(state)@, *env, *ledger, final(state)@, r),
{
    let current_time: u64 = env.time;
    let base = contract_denom();

    // The batches that have finished unbonding and have not been reconciled.
    let (mut batches, ids) = collect_due(&state.previous_batches, current_time);
    if batches.len() == 0 {
        return Ok(Response::new());
    }
    let utoken_expected_unlocked: u128 = match find_coin(&state.unlocked_coins, &base) {
        Some(i) => state.unlocked_coins[i].amount,
        None => 0,
    };
    let utoken_expected: u128 = match sum_unclaimed(&batches) {
        Some(received) => match received.checked_add(utoken_expected_unlocked) {
            Some(v) => v,
            None => {
                return Err(ContractError::Overflow(OverflowOperation::Add));
            },
        },
        None => {
            return Err(ContractError::Overflow(OverflowOperation::Add));
        },
    };
    if utoken_expected == 0 {
        return Ok(Response::new());
    }
    let utoken_actual: u128 = query_balance(ledger, &base);

    let utoken_to_deduct: u128 = if utoken_actual >= utoken_expected {
        mark_reconciled_batches(&mut batches);
        0
    } else {
        let deduct: u128 = utoken_expected - utoken_actual;
        match reconcile_batches(&mut batches, deduct) {
            Ok(_) => {},
            Err(e) => {
                return Err(e);
            },
        }
        deduct
    };
    let merged = merge_due(&state.previous_batches, &batches, current_time);
    state.previous_batches = merged;

    Ok(
        Response {
            messages: Vec::new(),
            event: Some(Event::Reconciled { ids, utoken_deducted: utoken_to_deduct }),
        },
    )
}

//--------------------------------------------------------------------------------------------------
// Withdrawing
//--------------------------------------------------------------------------------------------------

/// What withdrawing for `user` comes to, with the state as it stands.
pub open spec fn withdraw_outcome(state: StateView, env: Env, user: String) -> Result<
    Withdrawing,
    ContractError,
> {
    match withdrawal(state.previous_batches, state.unbond_requests, user@, env.time) {
        Ok(w) => if w.refund == 0 {
            Err(ContractError::CantBeZero(Quantity::WithdrawableAmount))
        } else {
            Ok(w)
        },
        Err(e) => Err(e),
    }
}

/// What withdrawing leaves behind and hands back.
pub open spec fn withdraw_unbonded_post(
    pre: StateView,
    env: Env,
    user: String,
    receiver: String,
    post: StateView,
    r: Result<Response, ContractError>,
) -> bool {
    match r {
        Ok(response) => {
            &&& withdraw_outcome(pre, env, user) is Ok
            &&& ({
                let w = withdraw_outcome(pre, env, user)->Ok_0;
                &&& post == (StateView {
                    previous_batches: w.batches,
                    unbond_requests: w.kept,
                    ..pre
                })
                &&& response.messages@ =~= seq![
                    Msg::Send { to_address: receiver, amount: w.refund },
                ]
                &&& response.event matches Some(
                    Event::UnbondedWithdrawn { ids, user: by, receiver: to, utoken_refunded },
                )
                &&& ids@ == w.ids
                &&& by == user
                &&& to == receiver
                &&& utoken_refunded == w.refund
            })
        },
        Err(e) => {
            &&& withdraw_outcome(pre, env, user) == Err::<Withdrawing, ContractError>(
                e,
            )
            &&& post == pre
        },
    }
}

/// Withdraws for `user` what has finished unbonding, and sends it to
/// `receiver`.
///
/// Each request of the user in a batch that has been reconciled and has
/// finished unbonding is paid its share of the unclaimed amount of the
/// batch, floored, and leaves; the batch gives up the shares and the refund,
/// and leaves once no shares remain in it. Where this comes to nothing, the
/// call fails: a batch that has finished unbonding must be reconciled first.
pub fn withdraw_unbonded(state: &mut State, env: &Env, user: String, receiver: String) -> (r:
    Result<Response, ContractError>)
    ensures
        withdraw_unbonded_post(old(state)@, *env, user, receiver, final(state)@, r),
{
    let done = match withdraw_requests(
        &state.previous_batches,
        &state.unbond_requests,
        &user,
        env.time,
    ) {
        Ok(done) => done,
        Err(e) => {
            return Err(e);
        },
    };
    if done.refund == 0 {
        return Err(ContractError::CantBeZero(Quantity::WithdrawableAmount));
    }
    state.previous_batches = done.batches;
    state.unbond_requests = done.requests;

    let mut messages: Vec<Msg> = Vec::new();
    messages.push(Msg::Send { to_address: receiver.clone(), amount: done.refund });
    Ok(
        Response {
            messages,
            event: Some(
                Event::UnbondedWithdrawn {
                    ids: done.ids,
                    user,
                    receiver,
                    utoken_refunded: done.refund,
                },
            ),
        },
    )
}

//--------------------------------------------------------------------------------------------------
// Rebalancing
//--------------------------------------------------------------------------------------------------

/// The effects that make the given redelegations.
pub open spec fn redelegation_msgs(rs: Seq<Redelegation>) -> Seq<Msg> {
    Seq::new(rs.len(), |i: int| rs[i].to_msg_spec())
}

/// The effects that make the redelegations, and where there are any, the
/// continuation that compares the balances afterwards.
pub fn redelegate_msgs(state: &State, ledger: &Ledger, redelegations: &Vec<Redelegation>) -> (r:
    Vec<Msg>)
    ensures
        redelegations.len() == 0 ==> r@ == Seq::<Msg>::empty(),
        redelegations.len() > 0 ==> {
            &&& r.len() == redelegations.len() + 1
            &&& r@.subrange(0, redelegations.len() as int) == redelegation_msgs(redelegations@)
            &&& is_snapshot(
                r[redelegations.len() as int],
                amount_of(ledger.balances@, CONTRACT_DENOM@),
                Coin {
                    denom: state.stake_token.denom,
                    amount: amount_of(ledger.balances@, state.stake_token.denom@),
                },
            )
        },
{
    let ghost moves = redelegation_msgs(redelegations@);
    let mut messages: Vec<Msg> = Vec::new();
    let mut i: usize = 0;
    while i < redelegations.len()
        invariant
            0 <= i <= redelegations.len(),
            moves == redelegation_msgs(redelegations@),
            messages@ == moves.subrange(0, i as int),
        decreases redelegations.len() - i,
    {
        messages.push(redelegations[i].to_msg());
        i = i + 1;
    }
    if redelegations.len() > 0 {
        // Balances are compared only where something is moved.
        match check_received_coin_msg(ledger, &state.stake_token, None) {
            Ok(msg) => {
                messages.push(msg);
            },
            Err(_) => {},
        }
    }
    messages
}

/// Why rebalancing fails, if it does.
pub open spec fn rebalance_failure(state: StateView, ledger: Ledger, sender: String) -> Option<
    ContractError,
> {
    if sender@ != state.owner@ {
        Some(ContractError::UnauthorizedSenderNotOwner)
    } else if total_amount(ledger.delegations@) > u128::MAX {
        Some(ContractError::Overflow(OverflowOperation::Add))
    } else if ledger.delegations@.len() == 0 {
        Some(ContractError::DivideByZero)
    } else {
        None
    }
}

/// The redelegations that a rebalancing makes: those that bring every
/// validator to its even share, without the ones that move less than the
/// least amount worth moving.
pub open spec fn rebalance_moves(ledger: Ledger, min_redelegation: Option<u128>) -> Seq<
    Redelegation,
> {
    at_least(
        rebalancing_redelegations(ledger.delegations@),
        match min_redelegation {
            Some(least) => least,
            None => 0,
        },
    )
}

/// What rebalancing hands back.
pub open spec fn rebalance_post(
    pre: StateView,
    ledger: Ledger,
    sender: String,
    min_redelegation: Option<u128>,
    r: Result<Response, ContractError>,
) -> bool {
    match r {
        Ok(response) => {
            let moves = rebalance_moves(ledger, min_redelegation);
            &&& rebalance_failure(pre, ledger, sender) is None
            &&& moves.len() == 0 ==> response.messages@ == Seq::<Msg>::empty()
            &&& moves.len() > 0 ==> {
                &&& response.messages.len() == moves.len() + 1
                &&& response.messages@.subrange(0, moves.len() as int) == redelegation_msgs(
                    moves,
                )
                &&& is_snapshot(
                    response.messages[moves.len() as int],
                    amount_of(ledger.balances@, CONTRACT_DENOM@),
                    Coin {
                        denom: pre.stake_token.denom,
                        amount: amount_of(ledger.balances@, pre.stake_token.denom@),
                    },
                )
            }
            &&& redelegation_total(moves) <= u128::MAX
            &&& response.event == Some(
                Event::Rebalanced { utoken_moved: redelegation_total(moves) as u128 },
            )
        },
        Err(e) => rebalance_failure(pre, ledger, sender) == Some(e),
    }
}

/// Evens out the delegations; owner only.
pub fn rebalance(
    state: &State,
    ledger: &Ledger,
    sender: &String,
    min_redelegation: Option<u128>,
) -> (r: Result<Response, ContractError>)
    ensures
        rebalance_post(state@, *ledger, *sender, min_redelegation, r),
{
    let delegations = query_all_delegations(ledger);
    match state.assert_owner(sender) {
        Ok(_) => {},
        Err(e) => {
            return Err(e);
        },
    }
    if sum_delegations(delegations.as_slice()).is_none() {
        return Err(ContractError::Overflow(OverflowOperation::Add));
    }
    if delegations.len() == 0 {
        return Err(ContractError::DivideByZero);
    }
    let least: u128 = match min_redelegation {
        Some(least) => least,
        None => 0,
    };
    let all = compute_redelegations_for_rebalancing(delegations.as_slice());
    proof {
        lemma_surplus_within_stake(delegations@, delegations.len() as int);
    }
    let mut new_redelegations: Vec<Redelegation> = Vec::new();
    let mut amount: u128 = 0;
    let mut i: usize = 0;
    while i < all.len()
        invariant
            0 <= i <= all.len(),
            new_redelegations@ == at_least_upto(all@, least, i as int),
            amount == redelegation_total(new_redelegations@),
            redelegation_total(all@) <= u128::MAX,
        decreases all.len() - i,
    {
        if all[i].amount >= least {
            proof {
                lemma_at_least_total(all@, least, i + 1);
                lemma_redelegation_total_push(new_redelegations@, all[i as int]);
                crate::staking::math::lemma_redelegation_sum_monotonic(
                    all@,
                    i + 1,
                    all.len() as int,
                );
            }
            amount = amount + all[i].amount;
            new_redelegations.push(all[i].clone());
        }
        i = i + 1;
    }
    let messages = redelegate_msgs(state, ledger, &new_redelegations);
    Ok(Response { messages, event: Some(Event::Rebalanced { utoken_moved: amount }) })
}

//--------------------------------------------------------------------------------------------------
// The whitelist
//--------------------------------------------------------------------------------------------------

/// Why adding a validator fails, if it does.
pub open spec fn add_validator_failure(
    state: StateView,
    ledger: Ledger,
    sender: String,
    validator: String,
) -> Option<ContractError> {
    if sender@ != state.owner@ {
        Some(ContractError::UnauthorizedSenderNotOwner)
    } else if !contains_name(ledger.validators@, validator@) {
        Some(ContractError::ValidatorNotFound(validator))
    } else if contains_name(state.validators, validator@) {
        Some(ContractError::ValidatorAlreadyWhitelisted(validator))
    } else {
        None
    }
}

/// What adding a validator leaves behind and hands back.
pub open spec fn add_validator_post(
    pre: StateView,
    ledger: Ledger,
    sender: String,
    validator: String,
    post: StateView,
    r: Result<Response, ContractError>,
) -> bool {
    match r {
        Ok(response) => {
            &&& add_validator_failure(pre, ledger, sender, validator) is None
            &&& post == (StateView {
                validators: pre.validators.push(validator),
                ..pre
            })
            &&& response.messages@ =~= Seq::<Msg>::empty()
            &&& response.event == Some(Event::ValidatorAdded { validator })
        },
        Err(e) => {
            &&& add_validator_failure(pre, ledger, sender, validator) == Some(e)
            &&& post == pre
        },
    }
}

/// Adds a validator that the ledger knows to the end of the whitelist; owner
/// only.
pub fn add_validator(state: &mut State, ledger: &Ledger, sender: &String, validator: String) -> (r:
    Result<Response, ContractError>)
    ensures
        add_validator_post(old(state)@, *ledger, *sender, validator, final(state)@, r),
{
    match state.assert_owner(sender) {
        Ok(_) => {},
        Err(e) => {
            return Err(e);
        },
    }
    match assert_validator_exists(ledger, &validator) {
        Ok(_) => {},
        Err(e) => {
            return Err(e);
        },
    }
    if contains(&state.validators, &validator) {
        return Err(ContractError::ValidatorAlreadyWhitelisted(validator));
    }
    state.validators.push(validator.clone());
    Ok(Response { messages: Vec::new(), event: Some(Event::ValidatorAdded { validator }) })
}

/// Whether removing a validator moves its stake: uniformly it does; with
/// defined shares the stake stays where it is.
pub open spec fn moves_on_removal(state: StateView) -> bool {
    !(state.delegation_strategy matches Some(DelegationStrategy::Defined))
}

/// The delegations to the validators that stay when `validator` leaves.
pub open spec fn remaining_delegations(state: StateView, ledger: Ledger, validator: String) -> Seq<
    Delegation,
> {
    delegations_to(ledger.delegations@, names_without(state.validators, validator@))
}

/// Why removing a validator fails, if it does.
pub open spec fn remove_validator_failure(
    state: StateView,
    ledger: Ledger,
    sender: String,
    validator: String,
) -> Option<ContractError> {
    let removed = delegated_to(ledger.delegations@, validator@);
    let remaining = remaining_delegations(state, ledger, validator);
    if sender@ != state.owner@ {
        Some(ContractError::UnauthorizedSenderNotOwner)
    } else if !contains_name(state.validators, validator@) {
        Some(ContractError::ValidatorNotWhitelisted(validator))
    } else if moves_on_removal(state) && total_amount(remaining) + removed > u128::MAX {
        Some(ContractError::Overflow(OverflowOperation::Add))
    } else if moves_on_removal(state) && remaining.len() == 0 {
        Some(ContractError::DivideByZero)
    } else {
        None
    }
}

/// The redelegations that removing `validator` makes.
pub open spec fn removal_moves(state: StateView, ledger: Ledger, validator: String) -> Seq<
    Redelegation,
> {
    if moves_on_removal(state) {
        removal_redelegations(
            Delegation { validator, amount: delegated_to(ledger.delegations@, validator@) },
            remaining_delegations(state, ledger, validator),
        )
    } else {
        Seq::empty()
    }
}

/// What removing a validator leaves behind and hands back.
pub open spec fn remove_validator_post(
    pre: StateView,
    ledger: Ledger,
    sender: String,
    validator: String,
    post: StateView,
    r: Result<Response, ContractError>,
) -> bool {
    match r {
        Ok(response) => {
            let moves = removal_moves(pre, ledger, validator);
            &&& remove_validator_failure(pre, ledger, sender, validator) is None
            &&& post == (StateView {
                validators: names_without(pre.validators, validator@),
                ..pre
            })
            &&& moves.len() == 0 ==> response.messages@ == Seq::<Msg>::empty()
            &&& moves.len() > 0 ==> {
                &&& response.messages.len() == moves.len() + 1
                &&& response.messages@.subrange(0, moves.len() as int) == redelegation_msgs(
                    moves,
                )
                &&& is_snapshot(
                    response.messages[moves.len() as int],
                    amount_of(ledger.balances@, CONTRACT_DENOM@),
                    Coin {
                        denom: pre.stake_token.denom,
                        amount: amount_of(ledger.balances@, pre.stake_token.denom@),
                    },
                )
            }
            &&& response.event == Some(Event::ValidatorRemoved { validator })
        },
        Err(e) => {
            &&& remove_validator_failure(pre, ledger, sender, validator) == Some(e)
            &&& post == pre
        },
    }
}

/// Removes a validator from the whitelist; owner only. Uniformly, what is
/// delegated to it is spread over the validators that stay.
pub fn remove_validator(state: &mut State, ledger: &Ledger, sender: &String, validator: String) -> (r:
    Result<Response, ContractError>)
    ensures
        remove_validator_post(old(state)@, *ledger, *sender, validator, final(state)@, r),
{
    match state.assert_owner(sender) {
        Ok(_) => {},
        Err(e) => {
            return Err(e);
        },
    }
    if !contains(&state.validators, &validator) {
        return Err(ContractError::ValidatorNotWhitelisted(validator));
    }
    let validators = without_name(&state.validators, &validator);

    let defined = match state.delegation_strategy {
        Some(DelegationStrategy::Defined) => true,
        _ => false,
    };
    let new_redelegations: Vec<Redelegation> = if defined {
        // The stake of the validator stays until the shares are set anew.
        Vec::new()
    } else {
        let delegations = query_delegations(ledger, &validators);
        let delegation_to_remove = query_delegation(ledger, &validator);
        let fits = match sum_delegations(delegations.as_slice()) {
            Some(staked) => staked.checked_add(delegation_to_remove.amount).is_some(),
            None => false,
        };
        if !fits {
            return Err(ContractError::Overflow(OverflowOperation::Add));
        }
        if delegations.len() == 0 {
            return Err(ContractError::DivideByZero);
        }
        compute_redelegations_for_removal(&delegation_to_remove, delegations.as_slice())
    };
    let messages = redelegate_msgs(state, ledger, &new_redelegations);
    state.validators = validators;
    Ok(Response { messages, event: Some(Event::ValidatorRemoved { validator }) })
}

//--------------------------------------------------------------------------------------------------
// Ownership
//--------------------------------------------------------------------------------------------------

/// What offering the ownership leaves behind and hands back.
pub open spec fn transfer_ownership_post(
    pre: StateView,
    sender: String,
    new_owner: String,
    post: StateView,
    r: Result<Response, ContractError>,
) -> bool {
    match r {
        Ok(response) => {
            &&& sender@ == pre.owner@
            &&& post == (StateView { new_owner: Some(new_owner), ..pre })
            &&& response.messages@ =~= Seq::<Msg>::empty()
            &&& response.event is None
        },
        Err(e) => {
            &&& sender@ != pre.owner@
            &&& e == ContractError::UnauthorizedSenderNotOwner
            &&& post == pre
        },
    }
}

/// Offers the ownership to `new_owner`; owner only. Nothing changes hands
/// before the offer is accepted.
pub fn transfer_ownership(state: &mut State, sender: &String, new_owner: String) -> (r: Result<
    Response,
    ContractError,
>)
    ensures
        transfer_ownership_post(old(state)@, *sender, new_owner, final(state)@, r),
{
    match state.assert_owner(sender) {
        Ok(_) => {},
        Err(e) => {
            return Err(e);
        },
    }
    state.new_owner = Some(new_owner);
    Ok(Response::new())
}

/// What taking back the offer leaves behind and hands back.
pub open spec fn drop_ownership_proposal_post(
    pre: StateView,
    sender: String,
    post: StateView,
    r: Result<Response, ContractError>,
) -> bool {
    match r {
        Ok(response) => {
            &&& sender@ == pre.owner@
            &&& post == (StateView { new_owner: None, ..pre })
            &&& response.messages@ =~= Seq::<Msg>::empty()
            &&& response.event is None
        },
        Err(e) => {
            &&& sender@ != pre.owner@
            &&& e == ContractError::UnauthorizedSenderNotOwner
            &&& post == pre
        },
    }
}

/// Takes back an offer of ownership; owner only.
pub fn drop_ownership_proposal(state: &mut State, sender: &String) -> (r: Result<
    Response,
    ContractError,
>)
    ensures
        drop_ownership_proposal_post(old(state)@, *sender, final(state)@, r),
{
    match state.assert_owner(sender) {
        Ok(_) => {},
        Err(e) => {
            return Err(e);
        },
    }
    state.new_owner = None;
    Ok(Response::new())
}

/// Why accepting the ownership fails, if it does.
pub open spec fn accept_ownership_failure(state: StateView, sender: String) -> Option<
    ContractError,
> {
    match state.new_owner {
        None => Some(ContractError::NoOwnershipProposal),
        Some(new_owner) => if sender@ != new_owner@ {
            Some(ContractError::UnauthorizedSenderNotNewOwner)
        } else {
            None
        },
    }
}

/// What accepting the ownership leaves behind and hands back.
pub open spec fn accept_ownership_post(
    pre: StateView,
    sender: String,
    post: StateView,
    r: Result<Response, ContractError>,
) -> bool {
    match r {
        Ok(response) => {
            &&& accept_ownership_failure(pre, sender) is None
            &&& post == (StateView { owner: sender, new_owner: None, ..pre })
            &&& response.messages@ =~= Seq::<Msg>::empty()
            &&& response.event == Some(
                Event::OwnershipTransferred {
                    new_owner: pre.new_owner->Some_0,
                    previous_owner: pre.owner,
                },
            )
        },
        Err(e) => {
            &&& accept_ownership_failure(pre, sender) == Some(e)
            &&& post == pre
        },
    }
}

/// Accepts the ownership; only the account that it was offered to.
pub fn accept_ownership(state: &mut State, sender: String) -> (r: Result<Response, ContractError>)
    ensures
        accept_ownership_post(old(state)@, sender, final(state)@, r),
{
    let previous_owner = state.owner.clone();
    let new_owner = match &state.new_owner {
        Some(new_owner) => new_owner.clone(),
        None => {
            return Err(ContractError::NoOwnershipProposal);
        },
    };
    if sender != new_owner {
        return Err(ContractError::UnauthorizedSenderNotNewOwner);
    }
    state.owner = sender;
    state.new_owner = None;
    Ok(
        Response {
            messages: Vec::new(),
            event: Some(Event::OwnershipTransferred { new_owner, previous_owner }),
        },
    )
}

//--------------------------------------------------------------------------------------------------
// Configuration
//--------------------------------------------------------------------------------------------------

/// Why a change of configuration fails, if it does.
pub open spec fn update_config_failure(
    state: StateView,
    sender: String,
    protocol_reward_fee: Option<Decimal>,
    stages_preset: Option<Vec<Stage>>,
) -> Option<ContractError> {
    if sender@ != state.owner@ {
        Some(ContractError::UnauthorizedSenderNotOwner)
    } else if protocol_reward_fee is Some && protocol_reward_fee->Some_0.atomics
        > REWARD_FEE_CAP_ATOMICS {
        Some(ContractError::ProtocolRewardFeeTooHigh)
    } else if stages_preset is Some && route_check(
        stage_views(stages_preset->Some_0@),
        state.stake_token.denom@,
    ) is Err {
        Some(route_check(stage_views(stages_preset->Some_0@), state.stake_token.denom@)->Err_0)
    } else {
        None
    }
}

/// The value of a setting after a change that may or may not name it.
pub open spec fn updated<T>(change: Option<T>, current: T) -> T {
    match change {
        Some(value) => value,
        None => current,
    }
}

/// What a change of configuration leaves behind and hands back.
pub open spec fn update_config_post(
    pre: StateView,
    sender: String,
    protocol_fee_contract: Option<String>,
    protocol_reward_fee: Option<Decimal>,
    operator: Option<String>,
    stages_preset: Option<Vec<Stage>>,
    allow_donations: Option<bool>,
    delegation_strategy: Option<DelegationStrategy>,
    post: StateView,
    r: Result<Response, ContractError>,
) -> bool {
    match r {
        Ok(response) => {
            &&& update_config_failure(
                pre,
                sender,
                protocol_reward_fee,
                stages_preset,
            ) is None
            &&& post == (StateView {
                fee_config: FeeConfig {
                    protocol_fee_contract: updated(
                        protocol_fee_contract,
                        pre.fee_config.protocol_fee_contract,
                    ),
                    protocol_reward_fee: updated(
                        protocol_reward_fee,
                        pre.fee_config.protocol_reward_fee,
                    ),
                },
                operator: updated(operator, pre.operator),
                stages_preset: match stages_preset {
                    Some(stages) => stage_views(stages@),
                    None => pre.stages_preset,
                },
                allow_donations: match allow_donations {
                    Some(allow) => Some(allow),
                    None => pre.allow_donations,
                },
                delegation_strategy: match delegation_strategy {
                    Some(strategy) => Some(strategy),
                    None => pre.delegation_strategy,
                },
                ..pre
            })
            &&& response.messages@ =~= Seq::<Msg>::empty()
            &&& response.event is None
        },
        Err(e) => {
            &&& update_config_failure(pre, sender, protocol_reward_fee, stages_preset)
                == Some(e)
            &&& post == pre
        },
    }
}

/// Changes the configuration; owner only. What is not named stays as it is.
pub fn update_config(
    state: &mut State,
    sender: &String,
    protocol_fee_contract: Option<String>,
    protocol_reward_fee: Option<Decimal>,
    operator: Option<String>,
    stages_preset: Option<Vec<Stage>>,
    allow_donations: Option<bool>,
    delegation_strategy: Option<DelegationStrategy>,
) -> (r: Result<Response, ContractError>)
    ensures
        update_config_post(
            old(state)@,
            *sender,
            protocol_fee_contract,
            protocol_reward_fee,
            operator,
            stages_preset,
            allow_donations,
            delegation_strategy,
            final(state)@,
            r,
        ),
{
    match state.assert_owner(sender) {
        Ok(_) => {},
        Err(e) => {
            return Err(e);
        },
    }
    if let Some(fee) = &protocol_reward_fee {
        if fee.gt(&get_reward_fee_cap()) {
            return Err(ContractError::ProtocolRewardFeeTooHigh);
        }
    }
    if let Some(stages) = &stages_preset {
        match validate_no_utoken_or_ustake_swap(stages, state) {
            Ok(_) => {},
            Err(e) => {
                return Err(e);
            },
        }
    }
    if let Some(contract) = protocol_fee_contract {
        state.fee_config.protocol_fee_contract = contract;
    }
    if let Some(fee) = protocol_reward_fee {
        state.fee_config.protocol_reward_fee = fee;
    }
    if let Some(operator) = operator {
        state.operator = operator;
    }
    if let Some(stages) = stages_preset {
        state.stages_preset = stages;
    }
    if let Some(allow) = allow_donations {
        state.allow_donations = Some(allow);
    }
    if let Some(strategy) = delegation_strategy {
        state.delegation_strategy = Some(strategy);
    }
    Ok(Response::new())
}

//--------------------------------------------------------------------------------------------------
// Instantiation
//--------------------------------------------------------------------------------------------------

/// The denom of the stake token that the hub at `contract` creates under the
/// name `subdenom`.
pub open spec fn stake_denom(contract: Seq<char>, subdenom: Seq<char>) -> Seq<char> {
    "factory/"@ + contract + "/"@ + subdenom
}

/// Why creating the hub fails, if it does. The checks are made in this
/// order, and the first that fails decides.
pub open spec fn instantiate_failure(env: Env, ledger: Ledger, msg: InstantiateMsg) -> Option<
    ContractError,
> {
    let validators = deduped(msg.validators@);
    let unknown = first_unknown(ledger.validators@, validators, validators.len() as int);
    let route = match msg.stages_preset {
        Some(stages) => stage_views(stages@),
        None => Seq::empty(),
    };
    if msg.protocol_reward_fee.atomics > REWARD_FEE_CAP_ATOMICS {
        Some(ContractError::ProtocolRewardFeeTooHigh)
    } else if msg.epoch_period == 0 {
        Some(ContractError::CantBeZero(Quantity::EpochPeriod))
    } else if msg.unbond_period == 0 {
        Some(ContractError::CantBeZero(Quantity::UnbondPeriod))
    } else if unknown < validators.len() {
        Some(ContractError::ValidatorNotFound(validators[unknown]))
    } else if env.time + msg.epoch_period > u64::MAX {
        Some(ContractError::Overflow(OverflowOperation::Add))
    } else if route_check(route, stake_denom(env.contract@, msg.denom@)) is Err {
        Some(route_check(route, stake_denom(env.contract@, msg.denom@))->Err_0)
    } else {
        None
    }
}

/// Creates the hub: nothing is minted, no batch has been submitted, and the
/// first pending batch, with id 1, is due one epoch from now. The one effect
/// creates the denom of the stake token.
///
/// Donations are accepted from the start: the switch is left unset, and the
/// owner can set it either way.
pub fn instantiate(env: &Env, ledger: &Ledger, msg: InstantiateMsg) -> (r: Result<
    (State, Response),
    ContractError,
>)
    ensures
        match r {
            Ok((state, response)) => {
                &&& instantiate_failure(*env, *ledger, msg) is None
                &&& state.fin_multi == msg.fin_multi_contract
                &&& state.owner == msg.owner
                &&& state.operator == msg.operator
                &&& state@.stages_preset == match msg.stages_preset {
                    Some(stages) => stage_views(stages@),
                    None => Seq::empty(),
                }
                &&& state.new_owner is None
                &&& state.stake_token.denom@ == stake_denom(env.contract@, msg.denom@)
                &&& state.stake_token.total_supply == 0
                &&& state.epoch_period == msg.epoch_period
                &&& state.unbond_period == msg.unbond_period
                &&& state.validators@ == deduped(msg.validators@)
                &&& state.unlocked_coins@ == Seq::<Coin>::empty()
                &&& state.pending_batch == (PendingBatch {
                    id: 1,
                    ustake_to_burn: 0,
                    est_unbond_start_time: (env.time + msg.epoch_period) as u64,
                })
                &&& state.previous_batches@ == Seq::<Batch>::empty()
                &&& state.unbond_requests@ == Seq::<UnbondRequest>::empty()
                &&& state.fee_config == (FeeConfig {
                    protocol_fee_contract: msg.protocol_fee_contract,
                    protocol_reward_fee: msg.protocol_reward_fee,
                })
                &&& state.allow_donations is None
                &&& state.delegation_strategy == Some(
                    match msg.delegation_strategy {
                        Some(strategy) => strategy,
                        None => DelegationStrategy::Uniform,
                    },
                )
                &&& response.messages@ =~= seq![Msg::CreateDenom { subdenom: msg.denom }]
                &&& response.event is None
                &&& state_wf(state@)
            },
            Err(e) => instantiate_failure(*env, *ledger, msg) == Some(e),
        },
{
    if msg.protocol_reward_fee.gt(&get_reward_fee_cap()) {
        return Err(ContractError::ProtocolRewardFeeTooHigh);
    }
    if msg.epoch_period == 0 {
        return Err(ContractError::CantBeZero(Quantity::EpochPeriod));
    }
    if msg.unbond_period == 0 {
        return Err(ContractError::CantBeZero(Quantity::UnbondPeriod));
    }
    let mut validators = msg.validators;
    dedupe(&mut validators);
    match assert_validators_exists(ledger, &validators) {
        Ok(_) => {},
        Err(e) => {
            return Err(e);
        },
    }
    let est_unbond_start_time: u64 = match env.time.checked_add(msg.epoch_period) {
        Some(v) => v,
        None => {
            return Err(ContractError::Overflow(OverflowOperation::Add));
        },
    };
    let delegation_strategy = match msg.delegation_strategy {
        Some(strategy) => strategy,
        None => DelegationStrategy::Uniform,
    };
    let denom = String::from_str("factory/").concat(env.contract.as_str()).concat("/").concat(
        msg.denom.as_str(),
    );
    let mut state = State {
        fin_multi: msg.fin_multi_contract,
        owner: msg.owner,
        operator: msg.operator,
        stages_preset: Vec::new(),
        new_owner: None,
        stake_token: StakeToken { denom, total_supply: 0 },
        epoch_period: msg.epoch_period,
        unbond_period: msg.unbond_period,
        validators,
        unlocked_coins: Vec::new(),
        pending_batch: PendingBatch { id: 1, ustake_to_burn: 0, est_unbond_start_time },
        previous_batches: Vec::new(),
        unbond_requests: Vec::new(),
        fee_config: FeeConfig {
            protocol_fee_contract: msg.protocol_fee_contract,
            protocol_reward_fee: msg.protocol_reward_fee,
        },
        allow_donations: None,
        delegation_strategy: Some(delegation_strategy),
    };
    // The route can be checked only once the stake token is known.
    let stages_preset: Vec<Stage> = match msg.stages_preset {
        Some(stages) => stages,
        None => Vec::new(),
    };
    match validate_no_utoken_or_ustake_swap(&stages_preset, &state) {
        Ok(_) => {},
        Err(e) => {
            return Err(e);
        },
    }
    state.stages_preset = stages_preset;

    let mut messages: Vec<Msg> = Vec::new();
    messages.push(Msg::CreateDenom { subdenom: msg.denom });
    Ok((state, Response { messages, event: None }))
}

} // verus!
