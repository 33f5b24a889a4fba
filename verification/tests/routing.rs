use eris::hub::Coin;
use eris::router::ConfigResponse;
use eris::router::ExecuteMsg;
use eris::router::InstantiateMsg;
use eris::router::PairByDenomsResponse;
use eris::router::PairInfo;
use eris::router::PairsResponse;
use eris::router::SimulateSwapOperationsResponse;
use eris::router::SwapOperation;
use eris::routing::contract::execute;
use eris::routing::contract::instantiate;
use eris::routing::error::RouterError;
use eris::routing::execute::assert_operations;
use eris::routing::execute::Msg;
use eris::routing::queries::get_pair_by_denom;
use eris::routing::queries::get_pairs;
use eris::routing::queries::query_config;
use eris::routing::queries::simulate_swap_operations;
use eris::routing::queries::SimulationStep;
use eris::routing::state::Balance;
use eris::routing::state::Env;
use eris::routing::state::FinConfig;
use eris::routing::state::Ledger;
use eris::routing::state::State;

const MOCK_CONTRACT_ADDR: &str = "cosmos2contract";

fn mock_env() -> Env {
    Env { contract: MOCK_CONTRACT_ADDR.to_string() }
}

fn fin(contract: &str, a: &str, b: &str) -> FinConfig {
    FinConfig {
        contract: contract.to_string(),
        denoms: [a.to_string(), b.to_string()],
        is_bootstrapping: false,
    }
}

// The markets that the mocked ledger answers for.
fn mock_ledger() -> Ledger {
    Ledger {
        balances: vec![],
        pairs: vec![
            fin("pair1", "from1", "to1"),
            fin("pair2", "to1", "to2"),
            fin("pair3", "to2", "to3"),
        ],
    }
}

fn with_balance(addr: &str, denom: &str, amount: u128) -> Ledger {
    let mut ledger = mock_ledger();
    ledger.balances = vec![Balance {
        address: addr.to_string(),
        coin: Coin { denom: denom.to_string(), amount },
    }];
    ledger
}

// What the mocked markets return: the first halves the offer, the others
// return it as it is.
fn mock_simulation(pair_contract: &str, offer_amount: u128) -> u128 {
    match pair_contract {
        "pair1" => offer_amount / 2,
        "pair2" | "pair3" => offer_amount,
        _ => panic!("[mock] unsupported query: {pair_contract}"),
    }
}

fn simulate(
    state: &State,
    offer_amount: u128,
    operations: Vec<SwapOperation>,
) -> Result<SimulateSwapOperationsResponse, RouterError> {
    let mut returned = vec![];
    loop {
        match simulate_swap_operations(state, offer_amount, &operations, &returned)? {
            SimulationStep::Simulate { pair_contract, offer_amount, .. } => {
                returned.push(mock_simulation(&pair_contract, offer_amount));
            }
            SimulationStep::Done(response) => return Ok(response),
        }
    }
}

fn swap(offer: &str, ask: &str) -> SwapOperation {
    SwapOperation::Swap { offer_asset_info: offer.to_string(), ask_asset_info: ask.to_string() }
}

fn pair(contract: &str, a: &str, b: &str) -> PairInfo {
    PairInfo { asset_infos: [a.to_string(), b.to_string()], contract_addr: contract.to_string() }
}

fn hop(operation: SwapOperation, to: Option<&str>) -> Msg {
    Msg::Execute(ExecuteMsg::ExecuteSwapOperation { operation, to: to.map(|s| s.to_string()) })
}

fn setup_test() -> State {
    let msg = InstantiateMsg {
        owner: "owner".to_string(),
        pairs: vec!["pair1".to_string(), "pair2".to_string(), "pair3".to_string()],
    };
    let (state, _res) = instantiate(&mock_ledger(), msg).unwrap();
    state
}

#[test]
fn test_invalid_operations() {
    // empty error
    assert!(assert_operations(&[]).is_err());

    // uluna output
    assert!(assert_operations(&[
        SwapOperation::Swap {
            offer_asset_info: "ukrw".to_string(),
            ask_asset_info: "asset0001".to_string(),
        },
        SwapOperation::Swap {
            offer_asset_info: "asset0001".to_string(),
            ask_asset_info: "uluna".to_string(),
        }
    ])
    .is_ok());

    // asset0002 output
    assert!(assert_operations(&[
        SwapOperation::Swap {
            offer_asset_info: "ukrw".to_string(),
            ask_asset_info: "asset0001".to_string(),
        },
        SwapOperation::Swap {
            offer_asset_info: "asset0001".to_string(),
            ask_asset_info: "uluna".to_string(),
        },
        SwapOperation::Swap {
            offer_asset_info: "uluna".to_string(),
            ask_asset_info: "asset0002".to_string(),
        },
    ])
    .is_ok());
}

#[test]
fn proper_initialization() {
    let state = setup_test();

    // it worked, let's query the state
    let config: ConfigResponse = query_config(&state);
    assert_eq!(config, ConfigResponse { new_owner: None, owner: "owner".to_string() });
}

#[test]
fn check_pairs() {
    let state = setup_test();

    // ALL
    let pairs: PairsResponse = get_pairs(&state, None, None);
    assert_eq!(
        pairs,
        PairsResponse {
            pairs: vec![
                pair("pair1", "from1", "to1"),
                pair("pair2", "to1", "to2"),
                pair("pair3", "to2", "to3"),
            ]
        }
    );

    // LIMIT
    let pairs: PairsResponse = get_pairs(&state, None, Some(1));
    assert_eq!(pairs, PairsResponse { pairs: vec![pair("pair1", "from1", "to1")] });

    // START_AFTER
    let pairs: PairsResponse = get_pairs(&state, Some("pair1".to_string()), None);
    assert_eq!(
        pairs,
        PairsResponse {
            pairs: vec![pair("pair2", "to1", "to2"), pair("pair3", "to2", "to3")]
        }
    );

    // BY DENOM
    let found: PairByDenomsResponse =
        get_pair_by_denom(&state, ["from1".to_string(), "to1".to_string()]).unwrap();
    assert_eq!(found, PairByDenomsResponse { pair: pair("pair1", "from1", "to1") });

    // BY DENOM REVERSE
    let found: PairByDenomsResponse =
        get_pair_by_denom(&state, ["to1".to_string(), "from1".to_string()]).unwrap();
    assert_eq!(found, PairByDenomsResponse { pair: pair("pair1", "from1", "to1") });

    // BY DENOM REVERSE
    let found: PairByDenomsResponse =
        get_pair_by_denom(&state, ["to2".to_string(), "to1".to_string()]).unwrap();
    assert_eq!(found, PairByDenomsResponse { pair: pair("pair2", "to1", "to2") });
}

#[test]
fn execute_swap_operations() {
    let mut state = setup_test();

    let msg = ExecuteMsg::ExecuteSwapOperations {
        operations: vec![],
        minimum_receive: None,
        to: None,
    };

    let res = execute(&mut state, &mock_env(), "addr0000".to_string(), &mock_ledger(), msg);
    match res {
        Err(e) => assert_eq!(e.message(), "must provide operations"),
        _ => panic!("DO NOT ENTER HERE"),
    }

    let msg = ExecuteMsg::ExecuteSwapOperations {
        operations: vec![swap("from1", "to1"), swap("to1", "to2"), swap("to2", "to3")],
        minimum_receive: Some(1000000u128),
        to: None,
    };

    let res =
        execute(&mut state, &mock_env(), "addr0000".to_string(), &mock_ledger(), msg).unwrap();
    assert_eq!(
        res.messages,
        vec![
            hop(swap("from1", "to1"), None),
            hop(swap("to1", "to2"), None),
            hop(swap("to2", "to3"), Some("addr0000")),
            Msg::Execute(ExecuteMsg::AssertMinimumReceive {
                asset_info: "to3".to_string(),
                prev_balance: 0,
                minimum_receive: 1000000u128,
                receiver: "addr0000".to_string(),
            }),
        ]
    );
}

#[test]
fn execute_swap_operation() {
    let mut state = setup_test();
    let ledger = with_balance(MOCK_CONTRACT_ADDR, "to1", 1000000u128);

    let msg = || ExecuteMsg::ExecuteSwapOperation { operation: swap("to1", "to2"), to: None };
    let res = execute(&mut state, &mock_env(), "addr0000".to_string(), &ledger, msg());
    match res {
        Err(e) => assert_eq!(e.message(), "unauthorized"),
        _ => panic!("DO NOT ENTER HERE"),
    }

    let res =
        execute(&mut state, &mock_env(), MOCK_CONTRACT_ADDR.to_string(), &ledger, msg()).unwrap();
    assert_eq!(
        res.messages,
        vec![Msg::Swap {
            contract: "pair2".to_string(),
            offer: Coin { denom: "to1".to_string(), amount: 1000000u128 },
            to: None,
        }],
    );

    // optional to address
    // swap_send
    let msg = ExecuteMsg::ExecuteSwapOperation {
        operation: swap("to1", "to2"),
        to: Some("addr0000".to_string()),
    };
    let res =
        execute(&mut state, &mock_env(), MOCK_CONTRACT_ADDR.to_string(), &ledger, msg).unwrap();
    assert_eq!(
        res.messages,
        vec![Msg::Swap {
            contract: "pair2".to_string(),
            offer: Coin { denom: "to1".to_string(), amount: 1000000u128 },
            to: Some("addr0000".to_string()),
        }],
    );
}

#[test]
fn execute_multi_swap_operation() {
    let mut state = setup_test();

    let msg = ExecuteMsg::ExecuteMultiSwapOperation {
        operation: swap("from1", "to2"),
        allowed_intermediate_denom: vec!["to1".to_string()],
        minimum_receive: Some(1000000u128),
        to: None,
    };

    let res =
        execute(&mut state, &mock_env(), "addr0000".to_string(), &mock_ledger(), msg).unwrap();

    assert_eq!(
        res.messages,
        vec![
            hop(swap("from1", "to1"), None),
            hop(swap("to1", "to2"), Some("addr0000")),
            Msg::Execute(ExecuteMsg::AssertMinimumReceive {
                asset_info: "to2".to_string(),
                prev_balance: 0,
                minimum_receive: 1000000u128,
                receiver: "addr0000".to_string(),
            }),
        ]
    );
}

#[test]
fn query_buy_with_routes() {
    let state = setup_test();

    let res: SimulateSwapOperationsResponse =
        simulate(&state, 1000000u128, vec![swap("from1", "to1"), swap("to1", "to2")]).unwrap();
    assert_eq!(res, SimulateSwapOperationsResponse { amount: 500000u128 });
}

#[test]
fn query_buy_with_routes_2() {
    let state = setup_test();

    let res: SimulateSwapOperationsResponse =
        simulate(&state, 1000000u128, vec![swap("to2", "to1"), swap("to1", "from1")]).unwrap();
    assert_eq!(res, SimulateSwapOperationsResponse { amount: 500000u128 });
}

#[test]
fn query_buy_with_routes_failed() {
    let state = setup_test();

    let res =
        simulate(&state, 1000000u128, vec![swap("to1", "to2"), swap("to1", "from1")]).unwrap_err();
    assert_eq!(res, RouterError::MultipleOutputToken);
    assert_eq!(res.message(), "invalid operations; multiple output token");
}

#[test]
fn assert_minimum_receive_native_token() {
    let mut state = State { owner: "owner".to_string(), new_owner: None, pairs: vec![] };
    let ledger = with_balance("addr0000", "utoken", 1000000u128);

    // success
    let msg = ExecuteMsg::AssertMinimumReceive {
        asset_info: "utoken".to_string(),
        prev_balance: 0,
        minimum_receive: 1000000u128,
        receiver: "addr0000".to_string(),
    };
    let _res = execute(&mut state, &mock_env(), "addr0000".to_string(), &ledger, msg).unwrap();

    // assertion failed; native token
    let msg = ExecuteMsg::AssertMinimumReceive {
        asset_info: "utoken".to_string(),
        prev_balance: 0,
        minimum_receive: 1000001u128,
        receiver: "addr0000".to_string(),
    };
    let res = execute(&mut state, &mock_env(), "addr0000".to_string(), &ledger, msg);
    match res {
        Err(e) => assert_eq!(
            e.message(),
            "assertion failed; minimum receive amount: 1000001, swap amount: 1000000"
        ),
        _ => panic!("DO NOT ENTER HERE"),
    }
}

//--------------------------------------------------------------------------------------------------
// The registry and the ownership
//--------------------------------------------------------------------------------------------------

#[test]
fn the_registry_is_the_owners_and_keeps_its_order() {
    let mut state = setup_test();
    let mut ledger = mock_ledger();
    ledger.pairs.push(fin("pair0", "a", "b"));
    ledger.pairs.push(FinConfig { is_bootstrapping: true, ..fin("pair9", "c", "d") });
    ledger.pairs[1] = fin("pair2", "to1", "other");

    let register = |pairs: &[&str]| ExecuteMsg::RegisterPairs {
        pairs: pairs.iter().map(|s| s.to_string()).collect(),
    };
    let err = execute(&mut state, &mock_env(), "jake".to_string(), &ledger, register(&["pair0"]))
        .unwrap_err();
    assert_eq!(err.message(), "unauthorized: sender is not owner");

    // One market that cannot be registered keeps all of them out.
    let err =
        execute(&mut state, &mock_env(), "owner".to_string(), &ledger, register(&["pair0", "pair9"]))
            .unwrap_err();
    assert_eq!(err.message(), "pair needs to be active");
    let err =
        execute(&mut state, &mock_env(), "owner".to_string(), &ledger, register(&["pair0", "pair7"]))
            .unwrap_err();
    assert_eq!(err, RouterError::PairQueryFailed("pair7".to_string()));
    assert_eq!(get_pairs(&state, None, None).pairs.len(), 3);

    // A new market goes to its place; a known one is replaced.
    execute(&mut state, &mock_env(), "owner".to_string(), &ledger, register(&["pair2", "pair0"]))
        .unwrap();
    assert_eq!(
        get_pairs(&state, None, None).pairs,
        vec![
            pair("pair0", "a", "b"),
            pair("pair1", "from1", "to1"),
            pair("pair2", "to1", "other"),
            pair("pair3", "to2", "to3"),
        ]
    );

    let remove = ExecuteMsg::RemovePairs { pairs: vec!["pair1".to_string(), "nope".to_string()] };
    execute(&mut state, &mock_env(), "owner".to_string(), &ledger, remove).unwrap();
    assert_eq!(
        get_pairs(&state, Some("pair0".to_string()), Some(1)).pairs,
        vec![pair("pair2", "to1", "other")]
    );
    assert_eq!(
        get_pair_by_denom(&state, ["from1".to_string(), "to1".to_string()]),
        Err(RouterError::PairNotFound)
    );
    assert_eq!(RouterError::PairNotFound.message(), "pair not found");
}

#[test]
fn a_route_needs_a_market_for_each_hop() {
    let mut state = setup_test();
    let multi = |offer: &str, ask: &str, via: &[&str]| ExecuteMsg::ExecuteMultiSwapOperation {
        operation: swap(offer, ask),
        allowed_intermediate_denom: via.iter().map(|s| s.to_string()).collect(),
        minimum_receive: None,
        to: Some("bob".to_string()),
    };
    // Directly, also against the order in which the market keeps its denoms.
    let res = execute(
        &mut state,
        &mock_env(),
        "alice".to_string(),
        &mock_ledger(),
        multi("to1", "from1", &[]),
    )
    .unwrap();
    assert_eq!(res.messages, vec![hop(swap("to1", "from1"), Some("bob"))]);
    // Through the first intermediate denom that works, backwards.
    let res = execute(
        &mut state,
        &mock_env(),
        "alice".to_string(),
        &mock_ledger(),
        multi("to3", "to1", &["from1", "to2", "to1"]),
    )
    .unwrap();
    assert_eq!(
        res.messages,
        vec![hop(swap("to3", "to2"), None), hop(swap("to2", "to1"), Some("bob"))]
    );
    let err = execute(
        &mut state,
        &mock_env(),
        "alice".to_string(),
        &mock_ledger(),
        multi("from1", "to3", &["to1", "to2"]),
    )
    .unwrap_err();
    assert_eq!(err, RouterError::PairNotFound);
    let err = simulate(&state, 5, vec![swap("from1", "to3")]).unwrap_err();
    assert_eq!(err, RouterError::PairNotFound);
}

#[test]
fn the_routers_ownership_changes_hands_on_acceptance() {
    let mut state = setup_test();
    let ledger = mock_ledger();
    let transfer = ExecuteMsg::TransferOwnership { new_owner: "jake".to_string() };
    let err =
        execute(&mut state, &mock_env(), "jake".to_string(), &ledger, ExecuteMsg::AcceptOwnership)
            .unwrap_err();
    assert_eq!(err, RouterError::NoOwnershipProposal);
    execute(&mut state, &mock_env(), "owner".to_string(), &ledger, transfer).unwrap();
    assert_eq!(query_config(&state).new_owner, Some("jake".to_string()));
    let err =
        execute(&mut state, &mock_env(), "pumpkin".to_string(), &ledger, ExecuteMsg::AcceptOwnership)
            .unwrap_err();
    assert_eq!(err.message(), "unauthorized: sender is not new owner");
    execute(&mut state, &mock_env(), "jake".to_string(), &ledger, ExecuteMsg::AcceptOwnership)
        .unwrap();
    assert_eq!(query_config(&state), ConfigResponse { owner: "jake".to_string(), new_owner: None });
}

#[test]
fn the_minimum_is_checked_against_what_was_held_before() {
    let mut state = setup_test();
    let ledger = with_balance("addr0000", "utoken", 10);
    let check = |prev: u128, min: u128| ExecuteMsg::AssertMinimumReceive {
        asset_info: "utoken".to_string(),
        prev_balance: prev,
        minimum_receive: min,
        receiver: "addr0000".to_string(),
    };
    execute(&mut state, &mock_env(), "x".to_string(), &ledger, check(4, 6)).unwrap();
    let err = execute(&mut state, &mock_env(), "x".to_string(), &ledger, check(4, 7)).unwrap_err();
    assert_eq!(err, RouterError::MinimumReceive { minimum_receive: 7, swap_amount: 6 });
    let err = execute(&mut state, &mock_env(), "x".to_string(), &ledger, check(11, 0)).unwrap_err();
    assert_eq!(err, RouterError::Underflow);
}

#[test]
fn every_question_about_the_router_has_its_answer() {
    let state = setup_test();
    let ask = |msg, returned: &[u128]| {
        eris::routing::contract::query(&state, msg, &returned.to_vec())
    };
    assert_eq!(
        ask(eris::router::QueryMsg::Config, &[]),
        Ok(eris::routing::contract::QueryResponse::Config(ConfigResponse {
            owner: "owner".to_string(),
            new_owner: None
        }))
    );
    assert_eq!(
        ask(eris::router::QueryMsg::Pairs { start_after: Some("pair2".to_string()), limit: None }, &[]),
        Ok(eris::routing::contract::QueryResponse::Pairs(PairsResponse {
            pairs: vec![pair("pair3", "to2", "to3")]
        }))
    );
    assert_eq!(
        ask(
            eris::router::QueryMsg::PairByDenoms {
                asset_infos: ["to3".to_string(), "to2".to_string()]
            },
            &[]
        ),
        Ok(eris::routing::contract::QueryResponse::PairByDenoms(PairByDenomsResponse {
            pair: pair("pair3", "to2", "to3")
        }))
    );
    let simulation = || eris::router::QueryMsg::SimulateSwapOperations {
        offer_amount: 1000,
        operations: vec![swap("from1", "to1"), swap("to1", "to2")],
    };
    assert_eq!(
        ask(simulation(), &[]),
        Ok(eris::routing::contract::QueryResponse::SimulateSwapOperations(
            SimulationStep::Simulate {
                pair_contract: "pair1".to_string(),
                offer_denom: "from1".to_string(),
                offer_amount: 1000
            }
        ))
    );
    assert_eq!(
        ask(simulation(), &[500]),
        Ok(eris::routing::contract::QueryResponse::SimulateSwapOperations(
            SimulationStep::Simulate {
                pair_contract: "pair2".to_string(),
                offer_denom: "to1".to_string(),
                offer_amount: 500
            }
        ))
    );
    assert_eq!(
        ask(simulation(), &[500, 499]),
        Ok(eris::routing::contract::QueryResponse::SimulateSwapOperations(SimulationStep::Done(
            SimulateSwapOperationsResponse { amount: 499 }
        )))
    );
    assert_eq!(
        ask(
            eris::router::QueryMsg::PairByDenoms {
                asset_infos: ["to3".to_string(), "from1".to_string()]
            },
            &[]
        ),
        Err(RouterError::PairNotFound)
    );
}
