//! What the hub tells of itself. No query changes anything.

use crate::hub::clone_stages;
use crate::hub::stage_views;
use crate::hub::Batch;
use crate::hub::ConfigResponse;
use crate::hub::PendingBatch;
use crate::hub::StateResponse;
use crate::hub::UnbondRequest;
use crate::hub::UnbondRequestsByBatchResponseItem;
use crate::hub::UnbondRequestsByUserResponseItem;
use crate::hub::UnbondRequestsByUserResponseItemDetails;
use crate::hub::UnbondState;
use crate::ratio::ratio_checked;
use crate::ratio::Decimal;
use crate::ratio::DECIMAL_FRACTIONAL;
use crate::staking::constants::contract_denom;
use crate::staking::constants::CONTRACT_DENOM;
use crate::staking::error::ContractError;
use crate::staking::error::OverflowOperation;
use crate::names::clone_names;
use crate::staking::helpers::clone_coins;
use crate::staking::helpers::amount_of;
use crate::staking::helpers::delegations_to;
use crate::staking::helpers::query_balance;
use crate::staking::helpers::query_delegations;
use crate::staking::math::sum_delegations;
use crate::staking::math::total_amount;
use crate::staking::math::unclaimed_total;
use crate::staking::queue::batch_index;
use crate::staking::queue::find_batch;
use crate::staking::queue::sum_unclaimed;
use crate::staking::state::Env;
use crate::staking::state::Ledger;
use crate::staking::state::State;
use crate::staking::state::StateView;
use crate::text::is_less;
use crate::text::text_less;
use vstd::prelude::*;

verus! {

/// The largest number of entries that a page holds.
pub const MAX_LIMIT: u32 = 30;

/// The number of entries that a page holds where the caller names none.
pub const DEFAULT_LIMIT: u32 = 10;

/// The number of entries that a page holds.
pub open spec fn page_size(limit: Option<u32>) -> nat {
    match limit {
        Some(limit) => if limit < MAX_LIMIT {
            limit as nat
        } else {
            MAX_LIMIT as nat
        },
        None => DEFAULT_LIMIT as nat,
    }
}

/// The number of entries that a page holds: what the caller asks for, but
/// no more than the largest page, and the default where they name none.
pub fn page_limit(limit: Option<u32>) -> (r: usize)
    ensures
        r == page_size(limit),
{
    match limit {
        Some(limit) => if limit < MAX_LIMIT {
            limit as usize
        } else {
            MAX_LIMIT as usize
        },
        None => DEFAULT_LIMIT as usize,
    }
}

/// Whether `r` is the configuration of the hub.
pub open spec fn is_config(state: StateView, r: ConfigResponse) -> bool {
    &&& r.owner == state.owner
    &&& r.operator == state.operator
    &&& r.new_owner == state.new_owner
    &&& r.stake_token == state.stake_token.denom
    &&& r.epoch_period == state.epoch_period
    &&& r.unbond_period == state.unbond_period
    &&& r.validators@ == state.validators
    &&& r.fee_config == state.fee_config
    &&& stage_views(r.stages_preset@) == state.stages_preset
}

/// The configuration of the hub.
pub fn config(state: &State) -> (r: ConfigResponse)
    ensures
        is_config(state@, r),
{
    ConfigResponse {
        owner: state.owner.clone(),
        operator: state.operator.clone(),
        new_owner: match &state.new_owner {
            Some(new_owner) => Some(new_owner.clone()),
            None => None,
        },
        stake_token: state.stake_token.denom.clone(),
        epoch_period: state.epoch_period,
        unbond_period: state.unbond_period,
        validators: clone_names(&state.validators),
        fee_config: state.fee_config.clone(),
        stages_preset: clone_stages(&state.stages_preset),
    }
}

/// Whether a batch is still unbonding: it has not been reconciled, and it
/// finishes unbonding later than `now`.
pub open spec fn is_unbonding(b: Batch, now: u64) -> bool {
    !b.reconciled && b.est_unbond_end_time > now
}

/// Those of the first `k` batches that are still unbonding.
pub open spec fn unbonding_upto(bs: Seq<Batch>, now: u64, k: int) -> Seq<Batch>
    decreases k,
{
    if k <= 0 {
        Seq::empty()
    } else if is_unbonding(bs[k - 1], now) {
        unbonding_upto(bs, now, k - 1).push(bs[k - 1])
    } else {
        unbonding_upto(bs, now, k - 1)
    }
}

/// The base token that is unbonding: the unclaimed amounts of the batches
/// that are still unbonding, added up.
pub open spec fn unbonding_amount(bs: Seq<Batch>, now: u64) -> nat {
    unclaimed_total(unbonding_upto(bs, now, bs.len() as int))
}

/// The base token that is bonded with the whitelisted validators.
pub open spec fn bonded_amount(state: StateView, ledger: Ledger) -> nat {
    total_amount(delegations_to(ledger.delegations@, state.validators))
}

/// The exchange rate, in atomic units: base token per stake token, and
/// one where there is no stake token.
pub open spec fn exchange_rate(bonded: nat, supply: nat) -> Result<u128, ContractError> {
    if supply == 0 {
        Ok(DECIMAL_FRACTIONAL)
    } else {
        match ratio_checked(bonded, DECIMAL_FRACTIONAL as nat, supply) {
            Ok(atomics) => Ok(atomics),
            Err(_) => Err(ContractError::Overflow(OverflowOperation::Mul)),
        }
    }
}

/// Why the aggregate figures cannot be given, if they cannot.
pub open spec fn state_failure(state: StateView, env: Env, ledger: Ledger) -> Option<
    ContractError,
> {
    let bonded = bonded_amount(state, ledger);
    let unbonding = unbonding_amount(state.previous_batches, env.time);
    if bonded > u128::MAX || unbonding > u128::MAX {
        Some(ContractError::Overflow(OverflowOperation::Add))
    } else if exchange_rate(bonded, state.stake_token.total_supply as nat) is Err {
        Some(ContractError::Overflow(OverflowOperation::Mul))
    } else if bonded + unbonding + amount_of(ledger.balances@, CONTRACT_DENOM@) > u128::MAX {
        Some(ContractError::Overflow(OverflowOperation::Add))
    } else {
        None
    }
}

/// Whether `r` holds the aggregate figures of the hub, or the reason why
/// they cannot be given.
pub open spec fn is_state(
    state: StateView,
    env: Env,
    ledger: Ledger,
    r: Result<StateResponse, ContractError>,
) -> bool {
    match r {
        Ok(response) => {
            let bonded = bonded_amount(state, ledger);
            let unbonding = unbonding_amount(state.previous_batches, env.time);
            let available = amount_of(ledger.balances@, CONTRACT_DENOM@);
            &&& state_failure(state, env, ledger) is None
            &&& response.total_ustake == state.stake_token.total_supply
            &&& response.total_utoken == bonded
            &&& Ok::<u128, ContractError>(response.exchange_rate.atomics) == exchange_rate(
                bonded,
                state.stake_token.total_supply as nat,
            )
            &&& response.unlocked_coins@ == state.unlocked_coins
            &&& response.unbonding == unbonding
            &&& response.available == available
            &&& response.tvl_utoken == bonded + unbonding + available
        },
        Err(e) => state_failure(state, env, ledger) == Some(e),
    }
}

/// The aggregate figures of the hub.
pub fn state(hub: &State, env: &Env, ledger: &Ledger) -> (r: Result<StateResponse, ContractError>)
    ensures
        is_state(hub@, *env, *ledger, r),
{
    let total_ustake: u128 = hub.stake_token.total_supply;

    let delegations = query_delegations(ledger, &hub.validators);
    let bonded = sum_delegations(delegations.as_slice());

    // Only the batches that have not been reconciled and that finish
    // unbonding in the future are still unbonding.
    let mut open: Vec<Batch> = Vec::new();
    let mut i: usize = 0;
    while i < hub.previous_batches.len()
        invariant
            0 <= i <= hub.previous_batches.len(),
            open@ == unbonding_upto(hub.previous_batches@, env.time, i as int),
        decreases hub.previous_batches.len() - i,
    {
        let b = hub.previous_batches[i];
        if !b.reconciled && b.est_unbond_end_time > env.time {
            open.push(b);
        }
        i = i + 1;
    }
    let unbonding = sum_unclaimed(&open);
    let (total_utoken, unbonding): (u128, u128) = match (bonded, unbonding) {
        (Some(bonded), Some(unbonding)) => (bonded, unbonding),
        _ => {
            return Err(ContractError::Overflow(OverflowOperation::Add));
        },
    };

    let available: u128 = query_balance(ledger, &contract_denom());

    let exchange_rate = if total_ustake == 0 {
        Decimal::one()
    } else {
        match Decimal::checked_from_ratio(total_utoken, total_ustake) {
            Ok(rate) => rate,
            Err(_) => {
                return Err(ContractError::Overflow(OverflowOperation::Mul));
            },
        }
    };
    let tvl_utoken: u128 = match total_utoken.checked_add(unbonding) {
        Some(sum) => match sum.checked_add(available) {
            Some(sum) => sum,
            None => {
                return Err(ContractError::Overflow(OverflowOperation::Add));
            },
        },
        None => {
            return Err(ContractError::Overflow(OverflowOperation::Add));
        },
    };

    Ok(
        StateResponse {
            total_ustake,
            total_utoken,
            exchange_rate,
            unlocked_coins: clone_coins(&hub.unlocked_coins),
            unbonding,
            available,
            tvl_utoken,
        },
    )
}

/// The batch that is still collecting.
pub fn pending_batch(state: &State) -> (r: PendingBatch)
    ensures
        r == state.pending_batch,
{
    state.pending_batch
}

/// The batch with the given id, or that there is none.
pub open spec fn batch_with_id(state: StateView, id: u64) -> Result<Batch, ContractError> {
    if batch_index(state.previous_batches, id) < state.previous_batches.len() {
        Ok(state.previous_batches[batch_index(state.previous_batches, id)])
    } else {
        Err(ContractError::BatchNotFound(id))
    }
}

/// The batch with the given id, if it has been submitted and has not been
/// withdrawn in full.
pub fn previous_batch(state: &State, id: u64) -> (r: Result<Batch, ContractError>)
    ensures
        r == batch_with_id(state@, id),
{
    match find_batch(&state.previous_batches, id) {
        Some(i) => Ok(state.previous_batches[i]),
        None => Err(ContractError::BatchNotFound(id)),
    }
}

/// Whether an id comes after the one that a page starts after.
pub open spec fn id_after(id: u64, start_after: Option<u64>) -> bool {
    match start_after {
        Some(start) => id > start,
        None => true,
    }
}

/// The page over the first `k` batches: those whose id comes after
/// `start_after`, in their order, until the page is full.
pub open spec fn batches_page_upto(bs: Seq<Batch>, start_after: Option<u64>, size: nat, k: int) -> Seq<
    Batch,
>
    decreases k,
{
    if k <= 0 {
        Seq::empty()
    } else if id_after(bs[k - 1].id, start_after) && batches_page_upto(
        bs,
        start_after,
        size,
        k - 1,
    ).len() < size {
        batches_page_upto(bs, start_after, size, k - 1).push(bs[k - 1])
    } else {
        batches_page_upto(bs, start_after, size, k - 1)
    }
}

/// The page of the batches that starts after the batch `start_after`.
pub open spec fn batches_page(state: StateView, start_after: Option<u64>, limit: Option<u32>) -> Seq<
    Batch,
> {
    batches_page_upto(
        state.previous_batches,
        start_after,
        page_size(limit),
        state.previous_batches.len() as int,
    )
}

/// The batches that have been submitted and have not been withdrawn in
/// full, one page of them.
pub fn previous_batches(state: &State, start_after: Option<u64>, limit: Option<u32>) -> (r: Vec<
    Batch,
>)
    ensures
        r@ == batches_page(state@, start_after, limit),
        r.len() <= page_size(limit),
{
    let size = page_limit(limit);
    let mut out: Vec<Batch> = Vec::new();
    let mut i: usize = 0;
    while i < state.previous_batches.len()
        invariant
            0 <= i <= state.previous_batches.len(),
            size == page_size(limit),
            out.len() <= size,
            out@ == batches_page_upto(state.previous_batches@, start_after, size as nat, i as int),
        decreases state.previous_batches.len() - i,
    {
        let b = state.previous_batches[i];
        let after = match start_after {
            Some(start) => b.id > start,
            None => true,
        };
        if after && out.len() < size {
            out.push(b);
        }
        i = i + 1;
    }
    out
}

/// Whether a request belongs on a page of the requests in batch `id` that
/// starts after the user `start_after`.
pub open spec fn in_batch_after(r: UnbondRequest, id: u64, start_after: Option<String>) -> bool {
    r.id == id && match start_after {
        Some(start) => text_less(start@, r.user@),
        None => true,
    }
}

/// The page over the first `k` requests, for a batch.
pub open spec fn by_batch_upto(
    rs: Seq<UnbondRequest>,
    id: u64,
    start_after: Option<String>,
    size: nat,
    k: int,
) -> Seq<UnbondRequestsByBatchResponseItem>
    decreases k,
{
    if k <= 0 {
        Seq::empty()
    } else if in_batch_after(rs[k - 1], id, start_after) && by_batch_upto(
        rs,
        id,
        start_after,
        size,
        k - 1,
    ).len() < size {
        by_batch_upto(rs, id, start_after, size, k - 1).push(
            UnbondRequestsByBatchResponseItem { user: rs[k - 1].user, shares: rs[k - 1].shares },
        )
    } else {
        by_batch_upto(rs, id, start_after, size, k - 1)
    }
}

/// The page of the requests in the batch `id` that starts after the user
/// `start_after`.
pub open spec fn by_batch_page(
    state: StateView,
    id: u64,
    start_after: Option<String>,
    limit: Option<u32>,
) -> Seq<UnbondRequestsByBatchResponseItem> {
    by_batch_upto(
        state.unbond_requests,
        id,
        start_after,
        page_size(limit),
        state.unbond_requests.len() as int,
    )
}

/// The requests in the batch `id`, one page of them: by ascending user, from
/// the first user after `start_after`.
pub fn unbond_requests_by_batch(
    state: &State,
    id: u64,
    start_after: Option<String>,
    limit: Option<u32>,
) -> (r: Vec<UnbondRequestsByBatchResponseItem>)
    ensures
        r@ == by_batch_page(state@, id, start_after, limit),
        r.len() <= page_size(limit),
{
    let size = page_limit(limit);
    let mut out: Vec<UnbondRequestsByBatchResponseItem> = Vec::new();
    let mut i: usize = 0;
    while i < state.unbond_requests.len()
        invariant
            0 <= i <= state.unbond_requests.len(),
            size == page_size(limit),
            out.len() <= size,
            out@ == by_batch_upto(
                state.unbond_requests@,
                id,
                start_after,
                size as nat,
                i as int,
            ),
        decreases state.unbond_requests.len() - i,
    {
        let request = &state.unbond_requests[i];
        let after = match &start_after {
            Some(start) => is_less(start.as_str(), request.user.as_str()),
            None => true,
        };
        if request.id == id && after && out.len() < size {
            out.push(
                UnbondRequestsByBatchResponseItem {
                    user: request.user.clone(),
                    shares: request.shares,
                },
            );
        }
        i = i + 1;
    }
    out
}

/// Whether a request belongs on a page of the requests of `user` that
/// starts after the batch `start_after`.
pub open spec fn of_user_after(r: UnbondRequest, user: Seq<char>, start_after: Option<u64>) -> bool {
    r.user@ == user && id_after(r.id, start_after)
}

/// The requests that belong on the page over the first `k` requests, for a
/// user.
pub open spec fn user_page_upto(
    rs: Seq<UnbondRequest>,
    user: Seq<char>,
    start_after: Option<u64>,
    size: nat,
    k: int,
) -> Seq<UnbondRequest>
    decreases k,
{
    if k <= 0 {
        Seq::empty()
    } else if of_user_after(rs[k - 1], user, start_after) && user_page_upto(
        rs,
        user,
        start_after,
        size,
        k - 1,
    ).len() < size {
        user_page_upto(rs, user, start_after, size, k - 1).push(rs[k - 1])
    } else {
        user_page_upto(rs, user, start_after, size, k - 1)
    }
}

/// The requests of the page for a user, by ascending batch id.
pub open spec fn user_page(
    state: StateView,
    user: Seq<char>,
    start_after: Option<u64>,
    limit: Option<u32>,
) -> Seq<UnbondRequest> {
    user_page_upto(
        state.unbond_requests,
        user,
        start_after,
        page_size(limit),
        state.unbond_requests.len() as int,
    )
}

/// The requests of `user`, one page of them, as they are kept.
pub fn requests_of_user(
    state: &State,
    user: &String,
    start_after: Option<u64>,
    limit: Option<u32>,
) -> (r: Vec<UnbondRequest>)
    ensures
        r@ == user_page(state@, user@, start_after, limit),
        r.len() <= page_size(limit),
{
    let size = page_limit(limit);
    let mut out: Vec<UnbondRequest> = Vec::new();
    let mut i: usize = 0;
    while i < state.unbond_requests.len()
        invariant
            0 <= i <= state.unbond_requests.len(),
            size == page_size(limit),
            out.len() <= size,
            out@ == user_page_upto(
                state.unbond_requests@,
                user@,
                start_after,
                size as nat,
                i as int,
            ),
        decreases state.unbond_requests.len() - i,
    {
        let request = &state.unbond_requests[i];
        let after = match start_after {
            Some(start) => request.id > start,
            None => true,
        };
        if request.user == *user && after && out.len() < size {
            out.push(request.clone());
        }
        i = i + 1;
    }
    out
}

/// The page of the requests of `user` that starts after the batch
/// `start_after`, each with its batch and its shares.
pub open spec fn by_user_page(
    state: StateView,
    user: Seq<char>,
    start_after: Option<u64>,
    limit: Option<u32>,
) -> Seq<UnbondRequestsByUserResponseItem> {
    Seq::new(
        user_page(state, user, start_after, limit).len(),
        |i: int|
            UnbondRequestsByUserResponseItem {
                id: user_page(state, user, start_after, limit)[i].id,
                shares: user_page(state, user, start_after, limit)[i].shares,
            },
    )
}

/// The requests of `user`, one page of them: by ascending batch id, from
/// the first batch after `start_after`.
pub fn unbond_requests_by_user(
    state: &State,
    user: String,
    start_after: Option<u64>,
    limit: Option<u32>,
) -> (r: Vec<UnbondRequestsByUserResponseItem>)
    ensures
        r@ == by_user_page(state@, user@, start_after, limit),
{
    let page = requests_of_user(state, &user, start_after, limit);
    let mut out: Vec<UnbondRequestsByUserResponseItem> = Vec::new();
    let mut i: usize = 0;
    while i < page.len()
        invariant
            0 <= i <= page.len(),
            out.len() == i,
            forall|j: int|
                0 <= j < i ==> #[trigger] out[j] == (UnbondRequestsByUserResponseItem {
                    id: page[j].id,
                    shares: page[j].shares,
                }),
        decreases page.len() - i,
    {
        out.push(UnbondRequestsByUserResponseItem { id: page[i].id, shares: page[i].shares });
        i = i + 1;
    }
    out
}

/// What is told of one request: where it stands, and the batch it is in.
pub open spec fn request_details(state: StateView, env: Env, r: UnbondRequest) -> Result<
    UnbondRequestsByUserResponseItemDetails,
    ContractError,
> {
    let at = batch_index(state.previous_batches, r.id);
    if state.pending_batch.id == r.id {
        Ok(
            UnbondRequestsByUserResponseItemDetails {
                id: r.id,
                shares: r.shares,
                state: UnbondState::Pending,
                batch: None,
                pending: Some(state.pending_batch),
            },
        )
    } else if at >= state.previous_batches.len() {
        Err(ContractError::BatchNotFound(r.id))
    } else {
        Ok(
            UnbondRequestsByUserResponseItemDetails {
                id: r.id,
                shares: r.shares,
                state: if state.previous_batches[at].est_unbond_end_time < env.time {
                    UnbondState::Completed
                } else {
                    UnbondState::Unbonding
                },
                batch: Some(state.previous_batches[at]),
                pending: None,
            },
        )
    }
}

/// The position of the first of the first `k` requests whose batch is
/// missing, and `k` where none is.
pub open spec fn first_orphan(state: StateView, env: Env, rs: Seq<UnbondRequest>, k: int) -> int
    decreases k,
{
    if k <= 0 {
        0
    } else if first_orphan(state, env, rs, k - 1) < k - 1 {
        first_orphan(state, env, rs, k - 1)
    } else if request_details(state, env, rs[k - 1]) is Ok {
        k
    } else {
        k - 1
    }
}

proof fn lemma_first_orphan_settled(
    state: StateView,
    env: Env,
    rs: Seq<UnbondRequest>,
    k: int,
    j: int,
)
    requires
        0 < k <= j,
        first_orphan(state, env, rs, k) == k - 1,
    ensures
        first_orphan(state, env, rs, j) == k - 1,
    decreases j - k,
{
    if k < j {
        lemma_first_orphan_settled(state, env, rs, k, j - 1);
    }
}

/// Whether `r` lists the page of the requests of `user` with where each
/// stands, or names the first request on it whose batch is missing.
pub open spec fn are_details(
    state: StateView,
    env: Env,
    user: Seq<char>,
    start_after: Option<u64>,
    limit: Option<u32>,
    r: Result<Vec<UnbondRequestsByUserResponseItemDetails>, ContractError>,
) -> bool {
    let page = user_page(state, user, start_after, limit);
    let orphan = first_orphan(state, env, page, page.len() as int);
    match r {
        Ok(items) => {
            &&& orphan == page.len()
            &&& items.len() == page.len()
            &&& forall|i: int|
                0 <= i < page.len() ==> Ok::<
                    UnbondRequestsByUserResponseItemDetails,
                    ContractError,
                >(#[trigger] items[i]) == request_details(state, env, page[i])
        },
        Err(e) => orphan < page.len() && e == ContractError::BatchNotFound(
            page[orphan].id,
        ),
    }
}

/// The requests of `user`, one page of them, each with where it stands:
/// pending while its batch is collecting, unbonding once the batch has been
/// submitted, completed once the batch has finished unbonding.
pub fn unbond_requests_by_user_details(
    state: &State,
    env: &Env,
    user: String,
    start_after: Option<u64>,
    limit: Option<u32>,
) -> (r: Result<Vec<UnbondRequestsByUserResponseItemDetails>, ContractError>)
    ensures
        are_details(state@, *env, user@, start_after, limit, r),
{
    let page = requests_of_user(state, &user, start_after, limit);
    let pending = state.pending_batch;
    let mut out: Vec<UnbondRequestsByUserResponseItemDetails> = Vec::new();
    let mut i: usize = 0;
    while i < page.len()
        invariant
            0 <= i <= page.len(),
            pending == state.pending_batch,
            page@ == user_page(state@, user@, start_after, limit),
            out.len() == i,
            first_orphan(state@, *env, page@, i as int) == i,
            forall|j: int|
                0 <= j < i ==> Ok::<UnbondRequestsByUserResponseItemDetails, ContractError>(
                    #[trigger] out[j],
                ) == request_details(state@, *env, page[j]),
        decreases page.len() - i,
    {
        let v = &page[i];
        let item = if pending.id == v.id {
            UnbondRequestsByUserResponseItemDetails {
                id: v.id,
                shares: v.shares,
                state: UnbondState::Pending,
                batch: None,
                pending: Some(pending),
            }
        } else {
            let batch = match find_batch(&state.previous_batches, v.id) {
                Some(at) => state.previous_batches[at],
                None => {
                    proof {
                        lemma_first_orphan_settled(state@, *env, page@, i + 1, page.len() as int);
                    }
                    return Err(ContractError::BatchNotFound(v.id));
                },
            };
            UnbondRequestsByUserResponseItemDetails {
                id: v.id,
                shares: v.shares,
                state: if batch.est_unbond_end_time < env.time {
                    UnbondState::Completed
                } else {
                    UnbondState::Unbonding
                },
                batch: Some(batch),
                pending: None,
            }
        };
        out.push(item);
        i = i + 1;
    }
    Ok(out)
}

} // verus!
