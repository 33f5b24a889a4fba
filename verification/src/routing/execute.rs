//! The operations of the router.

use crate::hub::Coin;
use crate::names::contains;
use crate::names::contains_name;
use crate::names::names_without;
use crate::names::without_name;
use crate::router::ExecuteMsg;
use crate::router::pair_views;
use crate::router::PairInfo;
use crate::router::PairView;
use crate::router::SwapOperation;
use crate::routing::error::RouterError;
use crate::routing::state::balance_of;
use crate::routing::state::fin_index_from;
use crate::routing::state::has_pair;
use crate::routing::state::hop_index_from;
use crate::routing::state::pair_index;
use crate::routing::state::query_balance;
use crate::routing::state::query_fin_pair;
use crate::routing::state::Env;
use crate::routing::state::Ledger;
use crate::routing::state::State;
use crate::routing::state::StateView;
use crate::text::is_less;
use crate::text::text_less;
use vstd::prelude::*;

verus! {

/// An effect that the host carries out once the call has returned.
#[derive(Debug, PartialEq, Eq)]
pub enum Msg {
    /// Call the router itself.
    Execute(ExecuteMsg),
    /// Swap `offer` on the market at `contract`, for `to` where one is named.
    Swap { contract: String, offer: Coin, to: Option<String> },
}

/// What an operation reports of itself.
#[derive(Debug, PartialEq, Eq)]
pub enum Event {
    OwnershipTransferred { new_owner: String, previous_owner: String },
}

/// What an operation hands back: the effects, in order, and its report.
#[derive(Debug, PartialEq, Eq)]
pub struct Response {
    pub messages: Vec<Msg>,
    pub event: Option<Event>,
}

//--------------------------------------------------------------------------------------------------
// Checking a route
//--------------------------------------------------------------------------------------------------

/// The denoms that the first `k` hops leave the swap with: each hop uses up
/// the denom that it offers and leaves the denom that it asks for.
pub open spec fn outputs_upto(operations: Seq<SwapOperation>, k: int) -> Seq<String>
    decreases k,
{
    if k <= 0 {
        Seq::empty()
    } else {
        let left = names_without(outputs_upto(operations, k - 1), operations[k - 1].source()@);
        if contains_name(left, operations[k - 1].target()@) {
            left
        } else {
            left.push(operations[k - 1].target())
        }
    }
}

/// The denoms that the hops leave the swap with.
pub open spec fn outputs(operations: Seq<SwapOperation>) -> Seq<String> {
    outputs_upto(operations, operations.len() as int)
}

/// Fails unless the hops end in exactly one denom.
pub fn assert_operations(operations: &[SwapOperation]) -> (r: Result<(), RouterError>)
    ensures
        r == if outputs(operations@).len() == 1 {
            Ok::<(), RouterError>(())
        } else {
            Err(RouterError::MultipleOutputToken)
        },
{
    let mut ask_assets: Vec<String> = Vec::new();
    let mut i: usize = 0;
    while i < operations.len()
        invariant
            0 <= i <= operations.len(),
            ask_assets@ == outputs_upto(operations@, i as int),
        decreases operations.len() - i,
    {
        let offer_asset = operations[i].get_source_asset_info();
        let ask_asset = operations[i].get_target_asset_info();
        ask_assets = without_name(&ask_assets, &offer_asset);
        if !contains(&ask_assets, &ask_asset) {
            ask_assets.push(ask_asset);
        }
        i = i + 1;
    }
    if ask_assets.len() != 1 {
        return Err(RouterError::MultipleOutputToken);
    }
    Ok(())
}

//--------------------------------------------------------------------------------------------------
// Swapping
//--------------------------------------------------------------------------------------------------

/// The call that makes the hop at position `i` of `n`: only the last hop
/// pays out to the receiver.
pub open spec fn hop_msg(operations: Seq<SwapOperation>, to: String, i: int) -> Msg {
    Msg::Execute(
        ExecuteMsg::ExecuteSwapOperation {
            operation: operations[i],
            to: if i + 1 == operations.len() {
                Some(to)
            } else {
                None
            },
        },
    )
}

/// Why a swap along hops fails, if it does.
pub open spec fn swap_operations_failure(operations: Seq<SwapOperation>) -> Option<RouterError> {
    if operations.len() == 0 {
        Some(RouterError::MustProvideOperations)
    } else if outputs(operations).len() != 1 {
        Some(RouterError::MultipleOutputToken)
    } else {
        None
    }
}

/// What a swap along hops hands back.
pub open spec fn swap_operations_post(
    ledger: Ledger,
    sender: String,
    operations: Seq<SwapOperation>,
    minimum_receive: Option<u128>,
    to: Option<String>,
    r: Result<Response, RouterError>,
) -> bool {
    match r {
        Ok(response) => {
            let n = operations.len() as int;
            let receiver = match to {
                Some(to) => to,
                None => sender,
            };
            let target = operations[n - 1].target();
            &&& swap_operations_failure(operations) is None
            &&& response.messages.len() == n + if minimum_receive is Some {
                1int
            } else {
                0int
            }
            &&& forall|i: int|
                0 <= i < n ==> #[trigger] response.messages[i] == hop_msg(operations, receiver, i)
            &&& minimum_receive is Some ==> response.messages[n] == Msg::Execute(
                ExecuteMsg::AssertMinimumReceive {
                    asset_info: target,
                    prev_balance: balance_of(ledger.balances@, receiver@, target@),
                    minimum_receive: minimum_receive->Some_0,
                    receiver,
                },
            )
            &&& response.event is None
        },
        Err(e) => swap_operations_failure(operations) == Some(e),
    }
}

/// Swaps along the given hops: one call to the router itself for each hop,
/// and, where a minimum is named, one more that checks what the receiver
/// has gained.
pub fn execute_swap_operations(
    ledger: &Ledger,
    sender: String,
    operations: Vec<SwapOperation>,
    minimum_receive: Option<u128>,
    to: Option<String>,
) -> (r: Result<Response, RouterError>)
    ensures
        swap_operations_post(*ledger, sender, operations@, minimum_receive, to, r),
{
    let operations_len = operations.len();
    if operations_len == 0 {
        return Err(RouterError::MustProvideOperations);
    }
    // The hops must end in one denom.
    match assert_operations(operations.as_slice()) {
        Ok(_) => {},
        Err(e) => {
            return Err(e);
        },
    }
    let to = match to {
        Some(to) => to,
        None => sender,
    };
    let target_asset_info = operations[operations_len - 1].get_target_asset_info();

    let mut messages: Vec<Msg> = Vec::new();
    let mut i: usize = 0;
    while i < operations_len
        invariant
            0 <= i <= operations_len,
            operations_len == operations.len(),
            messages.len() == i,
            forall|j: int| 0 <= j < i ==> #[trigger] messages[j] == hop_msg(operations@, to, j),
        decreases operations_len - i,
    {
        messages.push(
            Msg::Execute(
                ExecuteMsg::ExecuteSwapOperation {
                    operation: operations[i].clone(),
                    to: if i + 1 == operations_len {
                        Some(to.clone())
                    } else {
                        None
                    },
                },
            ),
        );
        i = i + 1;
    }

    // The check of the minimum follows the last hop.
    if let Some(minimum_receive) = minimum_receive {
        let receiver_balance: u128 = query_balance(ledger, &to, &target_asset_info);
        messages.push(
            Msg::Execute(
                ExecuteMsg::AssertMinimumReceive {
                    asset_info: target_asset_info,
                    prev_balance: receiver_balance,
                    minimum_receive,
                    receiver: to,
                },
            ),
        );
    }
    Ok(Response { messages, event: None })
}

/// The hop through a market, read from the denom `from`: it offers `from`
/// and asks for the other denom of the market.
pub open spec fn hop_through(pair: PairView, from: Seq<char>) -> SwapOperation {
    if pair.first@ == from {
        SwapOperation::Swap { offer_asset_info: pair.first, ask_asset_info: pair.second }
    } else {
        SwapOperation::Swap { offer_asset_info: pair.second, ask_asset_info: pair.first }
    }
}

/// The hops that lead from the one denom of `operation` to the other: the
/// operation itself where a market trades the two, else the two hops
/// through the first intermediate denom that works.
pub open spec fn route(state: StateView, operation: SwapOperation, allowed: Seq<String>) -> Result<
    Seq<SwapOperation>,
    RouterError,
> {
    let offer = operation.source()@;
    let ask = operation.target()@;
    let at = hop_index_from(state.pairs, offer, ask, allowed, 0);
    if has_pair(state.pairs, offer, ask) {
        Ok(seq![operation])
    } else if at >= allowed.len() {
        Err(RouterError::PairNotFound)
    } else {
        let first = hop_through(state.pairs[pair_index(state.pairs, offer, allowed[at]@)], offer);
        let second = hop_through(
            state.pairs[pair_index(state.pairs, allowed[at]@, ask)],
            first.target()@,
        );
        Ok(seq![first, second])
    }
}

/// What a swap from one denom to another hands back.
pub open spec fn execute_multi_swap_operation_post(
    pre: StateView,
    ledger: Ledger,
    sender: String,
    operation: SwapOperation,
    minimum_receive: Option<u128>,
    allowed_intermediate_denom: Seq<String>,
    to: Option<String>,
    r: Result<Response, RouterError>,
) -> bool {
    match route(pre, operation, allowed_intermediate_denom) {
        Ok(operations) => swap_operations_post(
            ledger,
            sender,
            operations,
            minimum_receive,
            to,
            r,
        ),
        Err(e) => r == Err::<Response, RouterError>(e),
    }
}

/// Swaps from one denom to another along the first route found.
pub fn execute_multi_swap_operation(
    state: &State,
    ledger: &Ledger,
    sender: String,
    operation: SwapOperation,
    minimum_receive: Option<u128>,
    allowed_intermediate_denom: Vec<String>,
    to: Option<String>,
) -> (r: Result<Response, RouterError>)
    ensures
        execute_multi_swap_operation_post(
            state@,
            *ledger,
            sender,
            operation,
            minimum_receive,
            allowed_intermediate_denom@,
            to,
            r,
        ),
{
    let offer = operation.get_source_asset_info();
    let ask = operation.get_target_asset_info();
    let pair = state.get_pair(offer.clone(), ask.clone());
    if pair.is_ok() {
        // A market trades the two denoms directly.
        let mut operations: Vec<SwapOperation> = Vec::new();
        operations.push(operation);
        return execute_swap_operations(ledger, sender, operations, minimum_receive, to);
    }
    let pairs = match state.try_find_pair(offer.clone(), ask, allowed_intermediate_denom) {
        Ok(pairs) => pairs,
        Err(e) => {
            return Err(e);
        },
    };

    // Markets keep their denoms in either order: each hop is read from the
    // denom that the hop before it has left.
    let first = if pairs[0].asset_infos[0] == offer {
        SwapOperation::Swap {
            offer_asset_info: pairs[0].asset_infos[0].clone(),
            ask_asset_info: pairs[0].asset_infos[1].clone(),
        }
    } else {
        SwapOperation::Swap {
            offer_asset_info: pairs[0].asset_infos[1].clone(),
            ask_asset_info: pairs[0].asset_infos[0].clone(),
        }
    };
    let from = first.get_target_asset_info();
    let second = if pairs[1].asset_infos[0] == from {
        SwapOperation::Swap {
            offer_asset_info: pairs[1].asset_infos[0].clone(),
            ask_asset_info: pairs[1].asset_infos[1].clone(),
        }
    } else {
        SwapOperation::Swap {
            offer_asset_info: pairs[1].asset_infos[1].clone(),
            ask_asset_info: pairs[1].asset_infos[0].clone(),
        }
    };
    let mut operations: Vec<SwapOperation> = Vec::new();
    operations.push(first);
    operations.push(second);
    assert(operations@ =~= seq![first, second]);
    execute_swap_operations(ledger, sender, operations, minimum_receive, to)
}

/// What the check of the minimum returns.
pub open spec fn minimum_check(balance: u128, prev_balance: u128, minimum_receive: u128) -> Result<
    (),
    RouterError,
> {
    if balance < prev_balance {
        Err(RouterError::Underflow)
    } else if balance - prev_balance < minimum_receive {
        Err(
            RouterError::MinimumReceive {
                minimum_receive,
                swap_amount: (balance - prev_balance) as u128,
            },
        )
    } else {
        Ok(())
    }
}

/// What the check of the minimum hands back.
pub open spec fn assert_minium_receive_post(
    ledger: Ledger,
    asset_info: String,
    prev_balance: u128,
    minium_receive: u128,
    receiver: String,
    r: Result<Response, RouterError>,
) -> bool {
    match minimum_check(
        balance_of(ledger.balances@, receiver@, asset_info@),
        prev_balance,
        minium_receive,
    ) {
        Ok(_) => r is Ok && r->Ok_0.messages@ =~= Seq::<Msg>::empty() && r->Ok_0.event is None,
        Err(e) => r == Err::<Response, RouterError>(e),
    }
}

/// Fails unless the receiver has gained at least the minimum since the
/// swap began.
pub fn assert_minium_receive(
    ledger: &Ledger,
    asset_info: String,
    prev_balance: u128,
    minium_receive: u128,
    receiver: String,
) -> (r: Result<Response, RouterError>)
    ensures
        assert_minium_receive_post(*ledger, asset_info, prev_balance, minium_receive, receiver, r),
{
    let receiver_balance: u128 = query_balance(ledger, &receiver, &asset_info);
    if receiver_balance < prev_balance {
        return Err(RouterError::Underflow);
    }
    let swap_amount: u128 = receiver_balance - prev_balance;
    if swap_amount < minium_receive {
        return Err(RouterError::MinimumReceive { minimum_receive: minium_receive, swap_amount });
    }
    Ok(Response { messages: Vec::new(), event: None })
}

/// Why a hop fails, if it does.
pub open spec fn swap_operation_failure(
    state: StateView,
    env: Env,
    sender: String,
    operation: SwapOperation,
) -> Option<RouterError> {
    if env.contract@ != sender@ {
        Some(RouterError::Unauthorized)
    } else if !has_pair(state.pairs, operation.source()@, operation.target()@) {
        Some(RouterError::PairNotFound)
    } else {
        None
    }
}

/// What a hop hands back.
pub open spec fn execute_swap_operation_post(
    pre: StateView,
    env: Env,
    sender: String,
    ledger: Ledger,
    operation: SwapOperation,
    to: Option<String>,
    r: Result<Response, RouterError>,
) -> bool {
    match r {
        Ok(response) => {
            let offer = operation.source();
            let at = pair_index(pre.pairs, offer@, operation.target()@);
            &&& swap_operation_failure(pre, env, sender, operation) is None
            &&& response.messages@ =~= seq![
                Msg::Swap {
                    contract: pre.pairs[at].contract,
                    offer: Coin {
                        denom: offer,
                        amount: balance_of(ledger.balances@, env.contract@, offer@),
                    },
                    to,
                },
            ]
            &&& response.event is None
        },
        Err(e) => swap_operation_failure(pre, env, sender, operation) == Some(e),
    }
}

/// Makes one hop, for the router itself only: all that the router holds of
/// the offered denom is swapped on the market that trades the two denoms.
pub fn execute_swap_operation(
    state: &State,
    env: &Env,
    sender: &String,
    ledger: &Ledger,
    operation: SwapOperation,
    to: Option<String>,
) -> (r: Result<Response, RouterError>)
    ensures
        execute_swap_operation_post(state@, *env, *sender, *ledger, operation, to, r),
{
    if env.contract != *sender {
        return Err(RouterError::Unauthorized);
    }
    let message = match operation {
        SwapOperation::Swap { offer_asset_info, ask_asset_info } => {
            let pair_info = match state.get_pair(offer_asset_info.clone(), ask_asset_info) {
                Ok(pair) => pair,
                Err(e) => {
                    return Err(e);
                },
            };
            let amount: u128 = query_balance(ledger, &env.contract, &offer_asset_info);
            Msg::Swap {
                contract: pair_info.contract_addr,
                offer: Coin { denom: offer_asset_info, amount },
                to,
            }
        },
    };
    let mut messages: Vec<Msg> = Vec::new();
    messages.push(message);
    Ok(Response { messages, event: None })
}

//--------------------------------------------------------------------------------------------------
// The registry
//--------------------------------------------------------------------------------------------------

/// The position of the first market at or after `i` whose contract address
/// does not sort before `contract`, and the number of markets where all do.
pub open spec fn pair_place_from(pairs: Seq<PairView>, contract: Seq<char>, i: int) -> int
    decreases pairs.len() - i,
{
    if i >= pairs.len() {
        pairs.len() as int
    } else if !text_less(pairs[i].contract@, contract) {
        i
    } else {
        pair_place_from(pairs, contract, i + 1)
    }
}

/// The place of the market at `contract` in the registry.
pub open spec fn pair_place(pairs: Seq<PairView>, contract: Seq<char>) -> int {
    pair_place_from(pairs, contract, 0)
}

/// Whether the market at the place of `contract` is the one at `contract`.
pub open spec fn is_registered(pairs: Seq<PairView>, contract: Seq<char>) -> bool {
    pair_place(pairs, contract) < pairs.len() && pairs[pair_place(pairs, contract)].contract@
        == contract
}

/// The place of the market at `contract` in the registry.
pub fn find_pair_place(pairs: &Vec<PairInfo>, contract: &String) -> (r: usize)
    ensures
        r == pair_place(pair_views(pairs@), contract@),
        r <= pairs.len(),
{
    let ghost views = pair_views(pairs@);
    let mut i: usize = 0;
    while i < pairs.len()
        invariant
            0 <= i <= pairs.len(),
            views == pair_views(pairs@),
            pair_place(views, contract@) == pair_place_from(views, contract@, i as int),
        decreases pairs.len() - i,
    {
        if !is_less(pairs[i].contract_addr.as_str(), contract.as_str()) {
            return i;
        }
        i = i + 1;
    }
    i
}

/// The registry with the market put in: in the place of the market at the
/// same address where there is one, else at its place in the order.
pub open spec fn with_pair(pairs: Seq<PairView>, pair: PairView) -> Seq<PairView> {
    let at = pair_place(pairs, pair.contract@);
    if is_registered(pairs, pair.contract@) {
        pairs.update(at, pair)
    } else {
        pairs.insert(at, pair)
    }
}

/// The registry without the market at `contract`.
pub open spec fn without_pair(pairs: Seq<PairView>, contract: Seq<char>) -> Seq<PairView> {
    if is_registered(pairs, contract) {
        pairs.remove(pair_place(pairs, contract))
    } else {
        pairs
    }
}

/// What the market at `contract_addr` is registered as, or why it is not.
pub open spec fn registration(ledger: Ledger, contract_addr: String) -> Result<
    PairView,
    RouterError,
> {
    let at = fin_index_from(ledger.pairs@, contract_addr@, 0);
    if at >= ledger.pairs.len() {
        Err(RouterError::PairQueryFailed(contract_addr))
    } else if ledger.pairs[at].is_bootstrapping {
        Err(RouterError::PairNeedsToBeActive)
    } else {
        Ok(
            PairView {
                first: ledger.pairs[at].denoms[0],
                second: ledger.pairs[at].denoms[1],
                contract: contract_addr,
            },
        )
    }
}

/// Puts the market into the registry.
fn put_pair(pairs: &mut Vec<PairInfo>, pair: PairInfo)
    ensures
        pair_views(final(pairs)@) == with_pair(pair_views(old(pairs)@), pair@),
{
    let at = find_pair_place(pairs, &pair.contract_addr);
    if at < pairs.len() && pairs[at].contract_addr == pair.contract_addr {
        pairs[at] = pair;
    } else {
        pairs.insert(at, pair);
    }
}

/// Takes the market at `contract` out of the registry.
fn take_pair(pairs: &mut Vec<PairInfo>, contract: &String)
    ensures
        pair_views(final(pairs)@) == without_pair(pair_views(old(pairs)@), contract@),
{
    let at = find_pair_place(pairs, contract);
    if at < pairs.len() && pairs[at].contract_addr == *contract {
        pairs.remove(at);
    }
}

/// The market at `contract_addr` as it is to be registered.
fn read_pair(ledger: &Ledger, contract_addr: String) -> (r: Result<PairInfo, RouterError>)
    ensures
        match r {
            Ok(pair) => registration(*ledger, contract_addr) == Ok::<PairView, RouterError>(pair@),
            Err(e) => registration(*ledger, contract_addr) == Err::<PairView, RouterError>(e),
        },
{
    let fin = match query_fin_pair(ledger, &contract_addr) {
        Some(i) => &ledger.pairs[i],
        None => {
            return Err(RouterError::PairQueryFailed(contract_addr));
        },
    };
    if fin.is_bootstrapping {
        return Err(RouterError::PairNeedsToBeActive);
    }
    Ok(
        PairInfo {
            asset_infos: [fin.denoms[0].clone(), fin.denoms[1].clone()],
            contract_addr,
        },
    )
}

/// Registers the market at `contract_addr`, with the denoms that it tells
/// of itself; a market that is registered already is replaced. A market
/// that the ledger does not know, or that is still bootstrapping, is not
/// registered.
pub fn register_pair(state: &mut State, ledger: &Ledger, contract_addr: String) -> (r: Result<
    PairInfo,
    RouterError,
>)
    ensures
        match r {
            Ok(pair) => {
                &&& registration(*ledger, contract_addr) == Ok::<PairView, RouterError>(pair@)
                &&& final(state)@ == (StateView {
                    pairs: with_pair(old(state)@.pairs, pair@),
                    ..old(state)@
                })
            },
            Err(e) => {
                &&& registration(*ledger, contract_addr) == Err::<PairView, RouterError>(e)
                &&& final(state)@ == old(state)@
            },
        },
{
    let pair = match read_pair(ledger, contract_addr) {
        Ok(pair) => pair,
        Err(e) => {
            return Err(e);
        },
    };
    put_pair(&mut state.pairs, pair.clone());
    Ok(pair)
}

/// Removes the market at `contract_addr` from the registry, if it is there.
pub fn remove_pair(state: &mut State, contract_addr: String) -> (r: Result<(), RouterError>)
    ensures
        r is Ok,
        final(state)@ == (StateView {
            pairs: without_pair(old(state)@.pairs, contract_addr@),
            ..old(state)@
        }),
{
    take_pair(&mut state.pairs, &contract_addr);
    Ok(())
}

/// The registry once the first `k` of the named markets have been
/// registered, or the reason why one of them could not be.
pub open spec fn registered_upto(
    pairs: Seq<PairView>,
    ledger: Ledger,
    contracts: Seq<String>,
    k: int,
) -> Result<Seq<PairView>, RouterError>
    decreases k,
{
    if k <= 0 {
        Ok(pairs)
    } else {
        match registered_upto(pairs, ledger, contracts, k - 1) {
            Ok(before) => match registration(ledger, contracts[k - 1]) {
                Ok(pair) => Ok(with_pair(before, pair)),
                Err(e) => Err(e),
            },
            Err(e) => Err(e),
        }
    }
}

proof fn lemma_registered_failed(
    pairs: Seq<PairView>,
    ledger: Ledger,
    contracts: Seq<String>,
    k: int,
    j: int,
)
    requires
        0 <= k <= j,
        registered_upto(pairs, ledger, contracts, k) is Err,
    ensures
        registered_upto(pairs, ledger, contracts, j) == registered_upto(pairs, ledger, contracts, k),
    decreases j - k,
{
    if k < j {
        lemma_registered_failed(pairs, ledger, contracts, k, j - 1);
    }
}

/// A copy of the markets.
pub fn clone_pairs(pairs: &Vec<PairInfo>) -> (r: Vec<PairInfo>)
    ensures
        pair_views(r@) == pair_views(pairs@),
{
    let mut out: Vec<PairInfo> = Vec::new();
    let mut i: usize = 0;
    while i < pairs.len()
        invariant
            0 <= i <= pairs.len(),
            out.len() == i,
            forall|j: int| 0 <= j < i ==> (#[trigger] out[j])@ == pairs[j]@,
        decreases pairs.len() - i,
    {
        out.push(pairs[i].clone());
        i = i + 1;
    }
    out
}

/// Puts the named markets into a copy of the registry, in the order given.
pub fn with_registered(current: &Vec<PairInfo>, ledger: &Ledger, contracts: &Vec<String>) -> (r:
    Result<Vec<PairInfo>, RouterError>)
    ensures
        match r {
            Ok(pairs) => registered_upto(
                pair_views(current@),
                *ledger,
                contracts@,
                contracts.len() as int,
            ) == Ok::<Seq<PairView>, RouterError>(pair_views(pairs@)),
            Err(e) => registered_upto(
                pair_views(current@),
                *ledger,
                contracts@,
                contracts.len() as int,
            ) == Err::<Seq<PairView>, RouterError>(e),
        },
{
    let mut registry = clone_pairs(current);
    let mut i: usize = 0;
    while i < contracts.len()
        invariant
            0 <= i <= contracts.len(),
            registered_upto(pair_views(current@), *ledger, contracts@, i as int) == Ok::<
                Seq<PairView>,
                RouterError,
            >(pair_views(registry@)),
        decreases contracts.len() - i,
    {
        match read_pair(ledger, contracts[i].clone()) {
            Ok(pair) => {
                put_pair(&mut registry, pair);
            },
            Err(e) => {
                proof {
                    lemma_registered_failed(
                        pair_views(current@),
                        *ledger,
                        contracts@,
                        i + 1,
                        contracts.len() as int,
                    );
                }
                return Err(e);
            },
        }
        i = i + 1;
    }
    Ok(registry)
}

/// What registering the named markets comes to.
pub open spec fn register_pairs_outcome(
    state: StateView,
    ledger: Ledger,
    sender: String,
    pairs: Seq<String>,
) -> Result<Seq<PairView>, RouterError> {
    if sender@ != state.owner@ {
        Err(RouterError::UnauthorizedSenderNotOwner)
    } else {
        registered_upto(state.pairs, ledger, pairs, pairs.len() as int)
    }
}

/// What registering markets leaves behind and hands back.
pub open spec fn register_pairs_post(
    pre: StateView,
    ledger: Ledger,
    sender: String,
    pairs: Seq<String>,
    post: StateView,
    r: Result<Response, RouterError>,
) -> bool {
    match r {
        Ok(response) => {
            &&& register_pairs_outcome(pre, ledger, sender, pairs) is Ok
            &&& post == (StateView {
                pairs: register_pairs_outcome(pre, ledger, sender, pairs)->Ok_0,
                ..pre
            })
            &&& response.messages@ =~= Seq::<Msg>::empty()
            &&& response.event is None
        },
        Err(e) => {
            &&& register_pairs_outcome(pre, ledger, sender, pairs) == Err::<
                Seq<PairView>,
                RouterError,
            >(e)
            &&& post == pre
        },
    }
}

/// Registers markets, in the order given; owner only. Where one of them
/// cannot be registered, none is.
pub fn register_pairs(state: &mut State, ledger: &Ledger, sender: &String, pairs: Vec<String>) -> (r:
    Result<Response, RouterError>)
    ensures
        register_pairs_post(old(state)@, *ledger, *sender, pairs@, final(state)@, r),
{
    match state.assert_owner(sender) {
        Ok(_) => {},
        Err(e) => {
            return Err(e);
        },
    }
    let registry = match with_registered(&state.pairs, ledger, &pairs) {
        Ok(registry) => registry,
        Err(e) => {
            return Err(e);
        },
    };
    state.pairs = registry;
    Ok(Response { messages: Vec::new(), event: None })
}

/// The registry once the first `k` of the named markets have been removed.
pub open spec fn removed_upto(pairs: Seq<PairView>, contracts: Seq<String>, k: int) -> Seq<PairView>
    decreases k,
{
    if k <= 0 {
        pairs
    } else {
        without_pair(removed_upto(pairs, contracts, k - 1), contracts[k - 1]@)
    }
}

/// What removing markets leaves behind and hands back.
pub open spec fn remove_pairs_post(
    pre: StateView,
    sender: String,
    pairs: Seq<String>,
    post: StateView,
    r: Result<Response, RouterError>,
) -> bool {
    match r {
        Ok(response) => {
            &&& sender@ == pre.owner@
            &&& post == (StateView {
                pairs: removed_upto(pre.pairs, pairs, pairs.len() as int),
                ..pre
            })
            &&& response.messages@ =~= Seq::<Msg>::empty()
            &&& response.event is None
        },
        Err(e) => {
            &&& sender@ != pre.owner@
            &&& e == RouterError::UnauthorizedSenderNotOwner
            &&& post == pre
        },
    }
}

/// Removes markets from the registry; owner only.
pub fn remove_pairs(state: &mut State, sender: &String, pairs: Vec<String>) -> (r: Result<
    Response,
    RouterError,
>)
    ensures
        remove_pairs_post(old(state)@, *sender, pairs@, final(state)@, r),
{
    match state.assert_owner(sender) {
        Ok(_) => {},
        Err(e) => {
            return Err(e);
        },
    }
    let mut i: usize = 0;
    while i < pairs.len()
        invariant
            0 <= i <= pairs.len(),
            state.owner == old(state).owner,
            state.new_owner == old(state).new_owner,
            pair_views(state.pairs@) == removed_upto(old(state)@.pairs, pairs@, i as int),
        decreases pairs.len() - i,
    {
        take_pair(&mut state.pairs, &pairs[i]);
        i = i + 1;
    }
    Ok(Response { messages: Vec::new(), event: None })
}

//--------------------------------------------------------------------------------------------------
// Ownership
//--------------------------------------------------------------------------------------------------

/// What offering the ownership leaves behind and hands back.
pub open spec fn transfer_ownership_post(
    pre: StateView,
    sender: String,
    new_owner: String,
    post: StateView,
    r: Result<Response, RouterError>,
) -> bool {
    match r {
        Ok(response) => {
            &&& sender@ == pre.owner@
            &&& post == (StateView { new_owner: Some(new_owner), ..pre })
            &&& response.messages@ =~= Seq::<Msg>::empty()
            &&& response.event is None
        },
        Err(e) => {
            &&& sender@ != pre.owner@
            &&& e == RouterError::UnauthorizedSenderNotOwner
            &&& post == pre
        },
    }
}

/// Offers the ownership to `new_owner`; owner only.
pub fn transfer_ownership(state: &mut State, sender: &String, new_owner: String) -> (r: Result<
    Response,
    RouterError,
>)
    ensures
        transfer_ownership_post(old(state)@, *sender, new_owner, final(state)@, r),
{
    match state.assert_owner(sender) {
        Ok(_) => {},
        Err(e) => {
            return Err(e);
        },
    }
    state.new_owner = Some(new_owner);
    Ok(Response { messages: Vec::new(), event: None })
}

/// Why accepting the ownership fails, if it does.
pub open spec fn accept_ownership_failure(state: StateView, sender: String) -> Option<
    RouterError,
> {
    match state.new_owner {
        None => Some(RouterError::NoOwnershipProposal),
        Some(new_owner) => if sender@ != new_owner@ {
            Some(RouterError::UnauthorizedSenderNotNewOwner)
        } else {
            None
        },
    }
}

/// What accepting the ownership leaves behind and hands back.
pub open spec fn accept_ownership_post(
    pre: StateView,
    sender: String,
    post: StateView,
    r: Result<Response, RouterError>,
) -> bool {
    match r {
        Ok(response) => {
            &&& accept_ownership_failure(pre, sender) is None
            &&& post == (StateView { owner: sender, new_owner: None, ..pre })
            &&& response.messages@ =~= Seq::<Msg>::empty()
            &&& response.event == Some(
                Event::OwnershipTransferred {
                    new_owner: pre.new_owner->Some_0,
                    previous_owner: pre.owner,
                },
            )
        },
        Err(e) => {
            &&& accept_ownership_failure(pre, sender) == Some(e)
            &&& post == pre
        },
    }
}

/// Accepts the ownership; only the account that it was offered to.
pub fn accept_ownership(state: &mut State, sender: String) -> (r: Result<Response, RouterError>)
    ensures
        accept_ownership_post(old(state)@, sender, final(state)@, r),
{
    let previous_owner = state.owner.clone();
    let new_owner = match &state.new_owner {
        Some(new_owner) => new_owner.clone(),
        None => {
            return Err(RouterError::NoOwnershipProposal);
        },
    };
    if sender != new_owner {
        return Err(RouterError::UnauthorizedSenderNotNewOwner);
    }
    state.owner = sender;
    state.new_owner = None;
    Ok(
        Response {
            messages: Vec::new(),
            event: Some(Event::OwnershipTransferred { new_owner, previous_owner }),
        },
    )
}

} // verus!
