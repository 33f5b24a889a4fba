//! What the router tells of itself. No query changes anything.

use crate::router::pair_views;
use crate::router::ConfigResponse;
use crate::router::PairByDenomsResponse;
use crate::router::PairInfo;
use crate::router::PairView;
use crate::router::PairsResponse;
use crate::router::SimulateSwapOperationsResponse;
use crate::router::SwapOperation;
use crate::routing::error::RouterError;
use crate::routing::execute::assert_operations;
use crate::routing::execute::outputs;
use crate::routing::state::has_pair;
use crate::routing::state::pair_index;
use crate::routing::state::State;
use crate::routing::state::StateView;
use crate::text::is_less;
use crate::text::text_less;
use vstd::prelude::*;

verus! {

/// The largest number of markets that a page holds.
pub const MAX_LIMIT: u32 = 30;

/// The number of markets that a page holds where the caller names none.
pub const DEFAULT_LIMIT: u32 = 10;

/// The number of markets that a page holds.
pub open spec fn page_size(limit: Option<u32>) -> nat {
    match limit {
        Some(limit) => if limit < MAX_LIMIT {
            limit as nat
        } else {
            MAX_LIMIT as nat
        },
        None => DEFAULT_LIMIT as nat,
    }
}

/// The configuration of the router.
pub fn query_config(state: &State) -> (r: ConfigResponse)
    ensures
        r.owner == state.owner,
        r.new_owner == state.new_owner,
{
    ConfigResponse {
        owner: state.owner.clone(),
        new_owner: match &state.new_owner {
            Some(new_owner) => Some(new_owner.clone()),
            None => None,
        },
    }
}

/// Whether a market belongs on a page that starts after the address
/// `start_after`.
pub open spec fn address_after(pair: PairView, start_after: Option<String>) -> bool {
    match start_after {
        Some(start) => text_less(start@, pair.contract@),
        None => true,
    }
}

/// The page over the first `k` markets: those whose address comes after
/// `start_after`, in their order, until the page is full.
pub open spec fn pairs_page_upto(
    pairs: Seq<PairView>,
    start_after: Option<String>,
    size: nat,
    k: int,
) -> Seq<PairView>
    decreases k,
{
    if k <= 0 {
        Seq::empty()
    } else if address_after(pairs[k - 1], start_after) && pairs_page_upto(
        pairs,
        start_after,
        size,
        k - 1,
    ).len() < size {
        pairs_page_upto(pairs, start_after, size, k - 1).push(pairs[k - 1])
    } else {
        pairs_page_upto(pairs, start_after, size, k - 1)
    }
}

/// The page of the markets that starts after the address `start_after`.
pub open spec fn pairs_page(state: StateView, start_after: Option<String>, limit: Option<u32>) -> Seq<
    PairView,
> {
    pairs_page_upto(state.pairs, start_after, page_size(limit), state.pairs.len() as int)
}

/// The registered markets, one page of them: by ascending address, from
/// the first address after `start_after`.
pub fn get_pairs(state: &State, start_after: Option<String>, limit: Option<u32>) -> (r:
    PairsResponse)
    ensures
        pair_views(r.pairs@) == pairs_page(state@, start_after, limit),
{
    let size: usize = match limit {
        Some(limit) => if limit < MAX_LIMIT {
            limit as usize
        } else {
            MAX_LIMIT as usize
        },
        None => DEFAULT_LIMIT as usize,
    };
    let ghost views = pair_views(state.pairs@);
    let mut out: Vec<PairInfo> = Vec::new();
    let mut i: usize = 0;
    while i < state.pairs.len()
        invariant
            0 <= i <= state.pairs.len(),
            size == page_size(limit),
            views == pair_views(state.pairs@),
            out.len() <= size,
            pair_views(out@) == pairs_page_upto(views, start_after, size as nat, i as int),
        decreases state.pairs.len() - i,
    {
        let pair = &state.pairs[i];
        let after = match &start_after {
            Some(start) => is_less(start.as_str(), pair.contract_addr.as_str()),
            None => true,
        };
        if after && out.len() < size {
            out.push(pair.clone());
        }
        i = i + 1;
    }
    PairsResponse { pairs: out }
}

/// Whether `r` is the market that trades the two denoms, or that there is
/// none.
pub open spec fn is_pair_by_denoms(
    state: StateView,
    first: Seq<char>,
    second: Seq<char>,
    r: Result<PairByDenomsResponse, RouterError>,
) -> bool {
    match r {
        Ok(response) => has_pair(state.pairs, first, second)
            && response.pair@ == state.pairs[pair_index(
            state.pairs,
            first,
            second,
        )],
        Err(e) => !has_pair(state.pairs, first, second) && e
            == RouterError::PairNotFound,
    }
}

/// The market that trades the two denoms, whichever way round.
pub fn get_pair_by_denom(state: &State, asset_infos: [String; 2]) -> (r: Result<
    PairByDenomsResponse,
    RouterError,
>)
    ensures
        is_pair_by_denoms(state@, asset_infos[0]@, asset_infos[1]@, r),
{
    match state.get_pair(asset_infos[0].clone(), asset_infos[1].clone()) {
        Ok(pair) => Ok(PairByDenomsResponse { pair }),
        Err(e) => Err(e),
    }
}

/// The next step of a simulated swap.
#[derive(Debug, PartialEq, Eq)]
pub enum SimulationStep {
    /// Ask the market at `pair_contract` what it returns for the offer.
    Simulate { pair_contract: String, offer_denom: String, offer_amount: u128 },
    /// The last hop has been simulated.
    Done(SimulateSwapOperationsResponse),
}

/// What is offered to the hop that follows those that have returned.
pub open spec fn offered_next(offer_amount: u128, returned: Seq<u128>) -> u128 {
    if returned.len() == 0 {
        offer_amount
    } else {
        returned[returned.len() - 1]
    }
}

/// Why a simulation cannot go on, if it cannot.
pub open spec fn simulation_failure(
    state: StateView,
    operations: Seq<SwapOperation>,
    returned: Seq<u128>,
) -> Option<RouterError> {
    if operations.len() == 0 {
        Some(RouterError::MustProvideOperations)
    } else if outputs(operations).len() != 1 {
        Some(RouterError::MultipleOutputToken)
    } else if returned.len() < operations.len() && !has_pair(
        state.pairs,
        operations[returned.len() as int].source()@,
        operations[returned.len() as int].target()@,
    ) {
        Some(RouterError::PairNotFound)
    } else {
        None
    }
}

/// Whether `r` is the next step of the simulation, or the reason why it
/// cannot go on.
pub open spec fn is_step(
    state: StateView,
    offer_amount: u128,
    operations: Seq<SwapOperation>,
    returned: Seq<u128>,
    r: Result<SimulationStep, RouterError>,
) -> bool {
    match r {
        Ok(SimulationStep::Simulate { pair_contract, offer_denom, offer_amount: amount }) => {
            let at = returned.len() as int;
            &&& simulation_failure(state, operations, returned) is None
            &&& at < operations.len()
            &&& pair_contract == state.pairs[pair_index(
                state.pairs,
                operations[at].source()@,
                operations[at].target()@,
            )].contract
            &&& offer_denom == operations[at].source()
            &&& amount == offered_next(offer_amount, returned)
        },
        Ok(SimulationStep::Done(response)) => {
            &&& simulation_failure(state, operations, returned) is None
            &&& returned.len() >= operations.len()
            &&& response.amount == offered_next(offer_amount, returned)
        },
        Err(e) => simulation_failure(state, operations, returned) == Some(e),
    }
}

/// Simulates a swap along the given hops, one hop at a time: `returned`
/// lists what the markets of the hops so far have answered, in order, and
/// the result names the market to ask next, with what the hop before has
/// returned as its offer, or the amount that the last hop returns.
pub fn simulate_swap_operations(
    state: &State,
    offer_amount: u128,
    operations: &Vec<SwapOperation>,
    returned: &Vec<u128>,
) -> (r: Result<SimulationStep, RouterError>)
    ensures
        is_step(state@, offer_amount, operations@, returned@, r),
{
    if operations.len() == 0 {
        return Err(RouterError::MustProvideOperations);
    }
    match assert_operations(operations.as_slice()) {
        Ok(_) => {},
        Err(e) => {
            return Err(e);
        },
    }
    let amount: u128 = if returned.len() == 0 {
        offer_amount
    } else {
        returned[returned.len() - 1]
    };
    if returned.len() >= operations.len() {
        return Ok(SimulationStep::Done(SimulateSwapOperationsResponse { amount }));
    }
    let operation = &operations[returned.len()];
    let offer_asset_info = operation.get_source_asset_info();
    let pair_info = match state.get_pair(
        offer_asset_info.clone(),
        operation.get_target_asset_info(),
    ) {
        Ok(pair) => pair,
        Err(e) => {
            return Err(e);
        },
    };
    Ok(
        SimulationStep::Simulate {
            pair_contract: pair_info.contract_addr,
            offer_denom: offer_asset_info,
            offer_amount: amount,
        },
    )
}

} // verus!
