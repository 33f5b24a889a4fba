//! Creating the router, and the one entry point that takes every operation
//! as a message.

use crate::router::pair_views;
use crate::router::ExecuteMsg;
use crate::router::InstantiateMsg;
use crate::router::ConfigResponse;
use crate::router::PairByDenomsResponse;
use crate::router::PairView;
use crate::router::PairsResponse;
use crate::router::QueryMsg;
use crate::routing::queries;
use crate::routing::queries::is_pair_by_denoms;
use crate::routing::queries::is_step;
use crate::routing::queries::pairs_page;
use crate::routing::queries::SimulationStep;
use crate::routing::error::RouterError;
use crate::routing::execute::accept_ownership;
use crate::routing::execute::accept_ownership_post;
use crate::routing::execute::assert_minium_receive;
use crate::routing::execute::assert_minium_receive_post;
use crate::routing::execute::execute_multi_swap_operation;
use crate::routing::execute::execute_multi_swap_operation_post;
use crate::routing::execute::execute_swap_operation;
use crate::routing::execute::execute_swap_operation_post;
use crate::routing::execute::execute_swap_operations;
use crate::routing::execute::register_pairs;
use crate::routing::execute::register_pairs_post;
use crate::routing::execute::registered_upto;
use crate::routing::execute::remove_pairs;
use crate::routing::execute::remove_pairs_post;
use crate::routing::execute::swap_operations_post;
use crate::routing::execute::transfer_ownership;
use crate::routing::execute::transfer_ownership_post;
use crate::routing::execute::with_registered;
use crate::routing::execute::Msg;
use crate::routing::execute::Response;
use crate::routing::state::Env;
use crate::routing::state::Ledger;
use crate::routing::state::State;
use crate::routing::state::StateView;
use vstd::prelude::*;

verus! {

/// Creates the router with its owner and with the markets named, in the
/// order given. Where one of them cannot be registered, the router is not
/// created.
pub fn instantiate(ledger: &Ledger, msg: InstantiateMsg) -> (r: Result<(State, Response), RouterError>)
    ensures
        match r {
            Ok((state, response)) => {
                &&& registered_upto(
                    Seq::empty(),
                    *ledger,
                    msg.pairs@,
                    msg.pairs.len() as int,
                ) == Ok::<Seq<PairView>, RouterError>(state@.pairs)
                &&& state.owner == msg.owner
                &&& state.new_owner is None
                &&& response.messages@ == Seq::<Msg>::empty()
                &&& response.event is None
            },
            Err(e) => registered_upto(Seq::empty(), *ledger, msg.pairs@, msg.pairs.len() as int)
                == Err::<Seq<PairView>, RouterError>(e),
        },
{
    let none = Vec::new();
    assert(pair_views(none@) =~= Seq::<PairView>::empty());
    let pairs = match with_registered(&none, ledger, &msg.pairs) {
        Ok(pairs) => pairs,
        Err(e) => {
            return Err(e);
        },
    };
    Ok(
        (
            State { owner: msg.owner, new_owner: None, pairs },
            Response { messages: Vec::new(), event: None },
        ),
    )
}

/// What a call leaves behind and hands back.
///
/// Anyone may swap. A single hop is a step of a swap that is under way, and
/// is made for the router itself only. The registry and the offer of
/// ownership are the owner's.
pub open spec fn execute_post(
    pre: StateView,
    env: Env,
    sender: String,
    ledger: Ledger,
    msg: ExecuteMsg,
    post: StateView,
    r: Result<Response, RouterError>,
) -> bool {
    match msg {
        ExecuteMsg::ExecuteMultiSwapOperation {
            operation,
            allowed_intermediate_denom,
            minimum_receive,
            to,
        } => {
            &&& execute_multi_swap_operation_post(
                pre,
                ledger,
                sender,
                operation,
                minimum_receive,
                allowed_intermediate_denom@,
                to,
                r,
            )
            &&& post == pre
        },
        ExecuteMsg::ExecuteSwapOperations { operations, minimum_receive, to } => {
            &&& swap_operations_post(ledger, sender, operations@, minimum_receive, to, r)
            &&& post == pre
        },
        ExecuteMsg::ExecuteSwapOperation { operation, to } => {
            &&& execute_swap_operation_post(pre, env, sender, ledger, operation, to, r)
            &&& post == pre
        },
        ExecuteMsg::AssertMinimumReceive {
            asset_info,
            prev_balance,
            minimum_receive,
            receiver,
        } => {
            &&& assert_minium_receive_post(
                ledger,
                asset_info,
                prev_balance,
                minimum_receive,
                receiver,
                r,
            )
            &&& post == pre
        },
        ExecuteMsg::RemovePairs { pairs } => remove_pairs_post(pre, sender, pairs@, post, r),
        ExecuteMsg::RegisterPairs { pairs } => register_pairs_post(
            pre,
            ledger,
            sender,
            pairs@,
            post,
            r,
        ),
        ExecuteMsg::TransferOwnership { new_owner } => transfer_ownership_post(
            pre,
            sender,
            new_owner,
            post,
            r,
        ),
        ExecuteMsg::AcceptOwnership => accept_ownership_post(pre, sender, post, r),
    }
}

/// Carries out one operation of the router.
pub fn execute(state: &mut State, env: &Env, sender: String, ledger: &Ledger, msg: ExecuteMsg) -> (r:
    Result<Response, RouterError>)
    ensures
        execute_post(old(state)@, *env, sender, *ledger, msg, final(state)@, r),
{
    match msg {
        ExecuteMsg::ExecuteMultiSwapOperation {
            operation,
            allowed_intermediate_denom,
            minimum_receive,
            to,
        } => execute_multi_swap_operation(
            state,
            ledger,
            sender,
            operation,
            minimum_receive,
            allowed_intermediate_denom,
            to,
        ),
        ExecuteMsg::ExecuteSwapOperations {
            operations,
            minimum_receive,
            to,
        } => execute_swap_operations(ledger, sender, operations, minimum_receive, to),
        // Internal
        ExecuteMsg::ExecuteSwapOperation { operation, to } => execute_swap_operation(
            state,
            env,
            &sender,
            ledger,
            operation,
            to,
        ),
        // Internal
        ExecuteMsg::AssertMinimumReceive {
            asset_info,
            prev_balance,
            minimum_receive,
            receiver,
        } => assert_minium_receive(ledger, asset_info, prev_balance, minimum_receive, receiver),
        // Owner
        ExecuteMsg::RemovePairs { pairs } => remove_pairs(state, &sender, pairs),
        ExecuteMsg::RegisterPairs { pairs } => register_pairs(state, ledger, &sender, pairs),
        ExecuteMsg::TransferOwnership { new_owner } => transfer_ownership(
            state,
            &sender,
            new_owner,
        ),
        ExecuteMsg::AcceptOwnership => accept_ownership(state, sender),
    }
}

/// The answers of the router, one kind for each question.
#[derive(Debug, PartialEq, Eq)]
pub enum QueryResponse {
    Config(ConfigResponse),
    /// The next step of the simulation: the market to ask, or the result.
    SimulateSwapOperations(SimulationStep),
    Pairs(PairsResponse),
    PairByDenoms(PairByDenomsResponse),
}

/// What a question is answered with. No answer changes anything.
pub open spec fn query_post(
    state: StateView,
    msg: QueryMsg,
    returned: Seq<u128>,
    r: Result<QueryResponse, RouterError>,
) -> bool {
    match msg {
        QueryMsg::Config => {
            &&& r matches Ok(QueryResponse::Config(res))
            &&& res.owner == state.owner
            &&& res.new_owner == state.new_owner
        },
        QueryMsg::SimulateSwapOperations { offer_amount, operations } => match r {
            Ok(QueryResponse::SimulateSwapOperations(step)) => is_step(
                state,
                offer_amount,
                operations@,
                returned,
                Ok::<SimulationStep, RouterError>(step),
            ),
            Ok(_) => false,
            Err(e) => is_step(
                state,
                offer_amount,
                operations@,
                returned,
                Err::<SimulationStep, RouterError>(e),
            ),
        },
        QueryMsg::Pairs { start_after, limit } => {
            &&& r matches Ok(QueryResponse::Pairs(res))
            &&& pair_views(res.pairs@) == pairs_page(state, start_after, limit)
        },
        QueryMsg::PairByDenoms { asset_infos } => match r {
            Ok(QueryResponse::PairByDenoms(res)) => is_pair_by_denoms(
                state,
                asset_infos[0]@,
                asset_infos[1]@,
                Ok::<PairByDenomsResponse, RouterError>(res),
            ),
            Ok(_) => false,
            Err(e) => is_pair_by_denoms(
                state,
                asset_infos[0]@,
                asset_infos[1]@,
                Err::<PairByDenomsResponse, RouterError>(e),
            ),
        },
    }
}

/// Answers one question about the router. A simulation is answered one hop
/// at a time: `returned` lists what the markets of the hops so far have
/// answered.
pub fn query(state: &State, msg: QueryMsg, returned: &Vec<u128>) -> (r: Result<
    QueryResponse,
    RouterError,
>)
    ensures
        query_post(state@, msg, returned@, r),
{
    match msg {
        QueryMsg::Config => Ok(QueryResponse::Config(queries::query_config(state))),
        QueryMsg::SimulateSwapOperations {
            offer_amount,
            operations,
        } => match queries::simulate_swap_operations(state, offer_amount, &operations, returned) {
            Ok(step) => Ok(QueryResponse::SimulateSwapOperations(step)),
            Err(e) => Err(e),
        },
        QueryMsg::Pairs { start_after, limit } => Ok(
            QueryResponse::Pairs(queries::get_pairs(state, start_after, limit)),
        ),
        QueryMsg::PairByDenoms { asset_infos } => match queries::get_pair_by_denom(
            state,
            asset_infos,
        ) {
            Ok(res) => Ok(QueryResponse::PairByDenoms(res)),
            Err(e) => Err(e),
        },
    }
}

} // verus!
