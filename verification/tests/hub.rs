use eris::hub::Batch;
use eris::hub::CallbackMsg;
use eris::hub::Coin;
use eris::hub::ConfigResponse;
use eris::hub::DelegationStrategy;
use eris::hub::ExecuteMsg;
use eris::hub::FeeConfig;
use eris::hub::InstantiateMsg;
use eris::hub::PendingBatch;
use eris::hub::Stage;
use eris::hub::StateResponse;
use eris::hub::WithdrawType;
use eris::ratio::Decimal;
use eris::staking::constants::CONTRACT_DENOM;
use eris::staking::contract::execute;
use eris::staking::contract::MessageInfo;
use eris::staking::error::ContractError;
use eris::staking::error::OverflowOperation;
use eris::staking::execute::instantiate;
use eris::staking::math::compute_mint_amount;
use eris::staking::math::compute_unbond_amount;
use eris::staking::queries;
use eris::staking::state::Env;
use eris::staking::state::Ledger;
use eris::staking::state::State;
use eris::staking::types::Delegation;
use eris::staking::types::Msg;
use eris::staking::types::Response;

const MOCK_CONTRACT_ADDR: &str = "cosmos2contract";
const STAKE_DENOM: &str = "factory/cosmos2contract/stake";
const BW_DENOM: &str = "factory/anycontract/btoken";
const BW_DENOM2: &str = "factory/anycontract/btoken2";

fn coin(amount: u128, denom: &str) -> Coin {
    Coin { denom: denom.to_string(), amount }
}

fn stage(pairs: &[(&str, &str)]) -> Stage {
    pairs.iter().map(|(a, d)| (a.to_string(), d.to_string())).collect()
}

fn mock_env_at_timestamp(time: u64) -> Env {
    Env { time, contract: MOCK_CONTRACT_ADDR.to_string() }
}

// A block time well after every period used in these tests.
fn mock_env() -> Env {
    mock_env_at_timestamp(1_571_797_419)
}

fn mock_info(sender: &str, funds: &[Coin]) -> MessageInfo {
    MessageInfo { sender: sender.to_string(), funds: funds.to_vec() }
}

fn known_validators() -> Vec<String> {
    vec!["alice".to_string(), "bob".to_string(), "charlie".to_string()]
}

fn empty_ledger() -> Ledger {
    Ledger { delegations: vec![], balances: vec![], validators: known_validators() }
}

fn check_received_coin(amount: u128, amount_stake: u128) -> Msg {
    Msg::Callback(CallbackMsg::CheckReceivedCoin {
        snapshot: coin(amount, CONTRACT_DENOM),
        snapshot_stake: coin(amount_stake, STAKE_DENOM),
    })
}

fn setup_test() -> State {
    let (state, res) = instantiate(
        &mock_env_at_timestamp(10000),
        &empty_ledger(),
        InstantiateMsg {
            fin_multi_contract: "fin_multi".to_string(),
            owner: "owner".to_string(),
            denom: "stake".to_string(),
            epoch_period: 259200,   // 3 * 24 * 60 * 60 = 3 days
            unbond_period: 1814400, // 21 * 24 * 60 * 60 = 21 days
            validators: vec!["alice".to_string(), "bob".to_string(), "charlie".to_string()],
            protocol_fee_contract: "fee".to_string(),
            protocol_reward_fee: Decimal::checked_from_ratio(1u128, 100u128).unwrap(),
            operator: "operator".to_string(),
            stages_preset: Some(vec![stage(&[("fin1", "test")])]),
            delegation_strategy: None,
        },
    )
    .unwrap();

    assert_eq!(res.messages.len(), 1);
    assert_eq!(res.messages[0], Msg::CreateDenom { subdenom: "stake".to_string() });

    state
}

fn run(
    state: &mut State,
    env: &Env,
    info: MessageInfo,
    ledger: &Ledger,
    msg: ExecuteMsg,
) -> Result<Response, ContractError> {
    execute(state, env, &info, ledger, msg)
}

//--------------------------------------------------------------------------------------------------
// Execution
//--------------------------------------------------------------------------------------------------

#[test]
fn proper_instantiation() {
    let state = setup_test();

    let res: ConfigResponse = queries::config(&state);
    assert_eq!(
        res,
        ConfigResponse {
            owner: "owner".to_string(),
            new_owner: None,
            stake_token: STAKE_DENOM.to_string(),
            epoch_period: 259200,
            unbond_period: 1814400,
            validators: vec!["alice".to_string(), "bob".to_string(), "charlie".to_string()],
            fee_config: FeeConfig {
                protocol_fee_contract: "fee".to_string(),
                protocol_reward_fee: Decimal::checked_from_ratio(1u128, 100u128).unwrap(),
            },
            operator: "operator".to_string(),
            stages_preset: vec![stage(&[("fin1", "test")])],
        }
    );

    let res: StateResponse = queries::state(&state, &mock_env(), &empty_ledger()).unwrap();
    assert_eq!(
        res,
        StateResponse {
            total_ustake: 0,
            total_utoken: 0,
            exchange_rate: Decimal::one(),
            unlocked_coins: vec![],
            unbonding: 0,
            available: 0,
            tvl_utoken: 0,
        },
    );

    let res: PendingBatch = queries::pending_batch(&state);
    assert_eq!(
        res,
        PendingBatch {
            id: 1,
            ustake_to_burn: 0,
            est_unbond_start_time: 269200, // 10,000 + 259,200
        },
    );
}

#[test]
fn harvesting_with_options() {
    let mut state = setup_test();

    // Assume users have bonded a total of 1,000,000 utoken and minted the same amount of ustake
    let mut ledger = empty_ledger();
    ledger.delegations = vec![
        Delegation::new("alice", 341667),
        Delegation::new("bob", 341667),
        Delegation::new("charlie", 341666),
    ];

    let res = run(
        &mut state,
        &mock_env(),
        mock_info("worker", &[]),
        &ledger,
        ExecuteMsg::Harvest {
            stages: Some(vec![stage(&[("fin1", "test")])]),
            withdrawals: Some(vec![(
                WithdrawType::BlackWhale,
                "bw1".to_string(),
                BW_DENOM.to_string(),
            )]),
        },
    )
    .unwrap();

    assert_eq!(res.messages.len(), 7);
    assert_eq!(
        res.messages[0],
        Msg::WithdrawDelegatorReward { validator: "alice".to_string() }
    );
    assert_eq!(res.messages[1], Msg::WithdrawDelegatorReward { validator: "bob".to_string() });
    assert_eq!(
        res.messages[2],
        Msg::WithdrawDelegatorReward { validator: "charlie".to_string() }
    );

    assert_eq!(
        res.messages[3],
        Msg::Callback(CallbackMsg::ClaimFunds {
            withdrawals: Some(vec![(
                WithdrawType::BlackWhale,
                "bw1".to_string(),
                BW_DENOM.to_string()
            )]),
        })
    );

    assert_eq!(
        res.messages[4],
        Msg::Callback(CallbackMsg::Swap {
            stages: Some(vec![stage(&[("fin1", "test")])]),
            sender: "worker".to_string()
        })
    );

    assert_eq!(res.messages[5], check_received_coin(0, 0));

    assert_eq!(res.messages[6], Msg::Callback(CallbackMsg::Reinvest));
}

#[test]
fn claim_funds() {
    let mut state = setup_test();
    let mut ledger = empty_ledger();
    ledger.balances = vec![coin(100, BW_DENOM)];

    let err = run(
        &mut state,
        &mock_env(),
        mock_info("worker", &[]),
        &ledger,
        ExecuteMsg::Callback(CallbackMsg::ClaimFunds {
            withdrawals: Some(vec![(
                WithdrawType::BlackWhale,
                "bw1".to_string(),
                BW_DENOM.to_string(),
            )]),
        }),
    )
    .unwrap_err();
    assert_eq!(err, ContractError::CallbackOnlyCalledByContract);
    assert_eq!(err.message(), "callbacks can only be invoked by the contract itself");

    let res = run(
        &mut state,
        &mock_env(),
        mock_info(MOCK_CONTRACT_ADDR, &[]),
        &ledger,
        ExecuteMsg::Callback(CallbackMsg::ClaimFunds {
            withdrawals: Some(vec![
                (WithdrawType::BlackWhale, "bw1".to_string(), BW_DENOM.to_string()),
                (WithdrawType::BlackWhale, "bw2".to_string(), BW_DENOM2.to_string()),
            ]),
        }),
    )
    .unwrap();

    assert_eq!(res.messages.len(), 1);

    let contract = "bw1";
    let amount = 100u128;
    let denom = BW_DENOM;

    assert_eq!(
        res.messages[0],
        Msg::VaultWithdraw {
            kind: WithdrawType::BlackWhale,
            vault: contract.to_string(),
            denom: denom.to_string(),
            amount,
        }
    );
}

#[test]
fn swap() {
    let mut state = setup_test();
    let mut ledger = empty_ledger();

    let err = run(
        &mut state,
        &mock_env(),
        mock_info("worker", &[]),
        &ledger,
        ExecuteMsg::Callback(CallbackMsg::Swap {
            stages: Some(vec![stage(&[("fin1", "test")])]),
            sender: "worker".to_string(),
        }),
    )
    .unwrap_err();
    assert_eq!(err.message(), "callbacks can only be invoked by the contract itself");

    let err = run(
        &mut state,
        &mock_env(),
        mock_info(MOCK_CONTRACT_ADDR, &[]),
        &ledger,
        ExecuteMsg::Callback(CallbackMsg::Swap {
            stages: Some(vec![stage(&[("fin1", CONTRACT_DENOM)])]),
            sender: "worker".to_string(),
        }),
    )
    .unwrap_err();
    assert_eq!(err.message(), "unauthorized: sender is not operator");

    let err = run(
        &mut state,
        &mock_env(),
        mock_info(MOCK_CONTRACT_ADDR, &[]),
        &ledger,
        ExecuteMsg::Callback(CallbackMsg::Swap {
            stages: Some(vec![stage(&[("fin1", CONTRACT_DENOM)])]),
            sender: "operator".to_string(),
        }),
    )
    .unwrap_err();
    assert_eq!(err.message(), format!("swap from {} is not allowed", CONTRACT_DENOM));

    let err = run(
        &mut state,
        &mock_env(),
        mock_info(MOCK_CONTRACT_ADDR, &[]),
        &ledger,
        ExecuteMsg::Callback(CallbackMsg::Swap {
            stages: Some(vec![stage(&[("fin2", STAKE_DENOM)])]),
            sender: "operator".to_string(),
        }),
    )
    .unwrap_err();
    assert_eq!(err.message(), format!("swap from {} is not allowed", STAKE_DENOM));

    ledger.balances = vec![coin(100, "test"), coin(200, "abc"), coin(1000, "not_relevant")];

    let stages = vec![
        stage(&[("fin1", "test")]),
        stage(&[("fin2", "abc"), ("fin3", "test2")]),
        stage(&[("fin4", "abc")]),
    ];

    let res = run(
        &mut state,
        &mock_env(),
        mock_info(MOCK_CONTRACT_ADDR, &[]),
        &ledger,
        ExecuteMsg::Callback(CallbackMsg::Swap {
            stages: Some(stages.clone()),
            sender: "operator".to_string(),
        }),
    )
    .unwrap();

    assert_eq!(res.messages.len(), 1);
    assert_eq!(
        res.messages[0],
        Msg::Swap {
            contract: "fin_multi".to_string(),
            funds: vec![coin(100, "test"), coin(200, "abc")],
            stages,
        }
    );

    // SWAP WITHOUT STAGES USES DEFAULT

    let res = run(
        &mut state,
        &mock_env(),
        mock_info(MOCK_CONTRACT_ADDR, &[]),
        &ledger,
        ExecuteMsg::Callback(CallbackMsg::Swap { stages: None, sender: "anyone".to_string() }),
    )
    .unwrap();

    assert_eq!(res.messages.len(), 1);
    assert_eq!(
        res.messages[0],
        Msg::Swap {
            contract: "fin_multi".to_string(),
            funds: vec![coin(100, "test")],
            stages: vec![stage(&[("fin1", "test")])],
        }
    );
}

//--------------------------------------------------------------------------------------------------
// The unbonding queue, end to end
//--------------------------------------------------------------------------------------------------

fn bonded_ledger(a: u128, b: u128, c: u128) -> Ledger {
    let mut ledger = empty_ledger();
    ledger.delegations = vec![
        Delegation::new("alice", a),
        Delegation::new("bob", b),
        Delegation::new("charlie", c),
    ];
    ledger
}

#[test]
fn bonding_mints_at_the_current_rate_and_delegates_to_the_least() {
    let mut state = setup_test();
    let mut ledger = empty_ledger();
    ledger.balances = vec![coin(1_000_000, CONTRACT_DENOM)];

    // Into the empty pool: one to one, to the first validator.
    let res = run(
        &mut state,
        &mock_env(),
        mock_info("user_1", &[coin(1_000_000, CONTRACT_DENOM)]),
        &ledger,
        ExecuteMsg::Bond { receiver: None },
    )
    .unwrap();
    assert_eq!(
        res.messages,
        vec![
            Msg::Delegate { validator: "alice".to_string(), amount: 1_000_000 },
            Msg::Mint {
                denom: STAKE_DENOM.to_string(),
                amount: 1_000_000,
                recipient: "user_1".to_string()
            },
            check_received_coin(0, 0),
        ]
    );
    assert_eq!(state.stake_token.total_supply, 1_000_000);

    // Rewards have raised the rate: 1,025,000 base for 1,000,000 stake.
    let mut ledger = bonded_ledger(341667, 341667, 341666);
    ledger.balances = vec![coin(12345, CONTRACT_DENOM), coin(69420, STAKE_DENOM)];
    let res = run(
        &mut state,
        &mock_env(),
        mock_info("user_2", &[coin(12345, CONTRACT_DENOM)]),
        &ledger,
        ExecuteMsg::Bond { receiver: Some("user_3".to_string()) },
    )
    .unwrap();
    // 1,000,000 * 12345 / 1,025,000 = 12043.9
    assert_eq!(
        res.messages,
        vec![
            Msg::Delegate { validator: "charlie".to_string(), amount: 12345 },
            Msg::Mint {
                denom: STAKE_DENOM.to_string(),
                amount: 12043,
                recipient: "user_3".to_string()
            },
            check_received_coin(0, 69420),
        ]
    );
    assert_eq!(state.stake_token.total_supply, 1_012_043);

    let res = queries::state(&state, &mock_env(), &bonded_ledger(341667, 341667, 341666 + 12345))
        .unwrap();
    assert_eq!(res.total_utoken, 1_037_345);
    // 1037345 / 1012043 = 1.025000913992784891...
    assert_eq!(res.exchange_rate, Decimal::raw(1_025_000_913_992_784_891));
}

#[test]
fn donating_mints_nothing_and_can_be_switched_off() {
    let mut state = setup_test();
    // A new hub has the switch unset, and accepts donations.
    assert_eq!(state.allow_donations, None);
    state.stake_token.total_supply = 300;
    let mut ledger = bonded_ledger(100, 90, 110);
    ledger.balances = vec![coin(50, CONTRACT_DENOM)];

    let res = run(
        &mut state,
        &mock_env(),
        mock_info("user_1", &[coin(50, CONTRACT_DENOM)]),
        &ledger,
        ExecuteMsg::Donate,
    )
    .unwrap();
    assert_eq!(
        res.messages,
        vec![
            Msg::Delegate { validator: "bob".to_string(), amount: 50 },
            check_received_coin(0, 0),
        ]
    );
    assert_eq!(state.stake_token.total_supply, 300);

    run(
        &mut state,
        &mock_env(),
        mock_info("owner", &[]),
        &ledger,
        ExecuteMsg::UpdateConfig {
            protocol_fee_contract: None,
            protocol_reward_fee: None,
            operator: None,
            stages_preset: None,
            allow_donations: Some(false),
            delegation_strategy: None,
        },
    )
    .unwrap();
    let before = format!("{:?}", state);
    let err = run(
        &mut state,
        &mock_env(),
        mock_info("user_1", &[coin(50, CONTRACT_DENOM)]),
        &ledger,
        ExecuteMsg::Donate,
    )
    .unwrap_err();
    assert_eq!(err, ContractError::DonationsDisabled);
    assert_eq!(format!("{:?}", state), before);
}

#[test]
fn the_least_delegation_wins_and_ties_go_to_the_first() {
    let mut state = setup_test();
    let mut ledger = bonded_ledger(5, 3, 3);
    ledger.balances = vec![coin(10, CONTRACT_DENOM)];
    let res = run(
        &mut state,
        &mock_env(),
        mock_info("user_1", &[coin(10, CONTRACT_DENOM)]),
        &ledger,
        ExecuteMsg::Bond { receiver: None },
    )
    .unwrap();
    assert_eq!(res.messages[0], Msg::Delegate { validator: "bob".to_string(), amount: 10 });

    // With defined shares only the validators that hold a delegation count.
    state.delegation_strategy = Some(DelegationStrategy::Defined);
    ledger.delegations = vec![Delegation::new("zed", 7), Delegation::new("charlie", 9)];
    let res = run(
        &mut state,
        &mock_env(),
        mock_info("user_1", &[coin(10, CONTRACT_DENOM)]),
        &ledger,
        ExecuteMsg::Bond { receiver: None },
    )
    .unwrap();
    assert_eq!(res.messages[0], Msg::Delegate { validator: "zed".to_string(), amount: 10 });

    // And the first whitelisted validator where none holds any.
    ledger.delegations = vec![];
    let res = run(
        &mut state,
        &mock_env(),
        mock_info("user_1", &[coin(10, CONTRACT_DENOM)]),
        &ledger,
        ExecuteMsg::Bond { receiver: None },
    )
    .unwrap();
    assert_eq!(res.messages[0], Msg::Delegate { validator: "alice".to_string(), amount: 10 });
}

#[test]
fn queuing_accumulates_and_calls_for_submission_when_due() {
    let mut state = setup_test();
    state.stake_token.total_supply = 1000;
    let ledger = bonded_ledger(400, 300, 300);

    let res = run(
        &mut state,
        &mock_env_at_timestamp(12345),
        mock_info("user_1", &[coin(23, STAKE_DENOM)]),
        &ledger,
        ExecuteMsg::QueueUnbond { receiver: None },
    )
    .unwrap();
    assert_eq!(res.messages, vec![]);
    run(
        &mut state,
        &mock_env_at_timestamp(12346),
        mock_info("user_1", &[coin(10, STAKE_DENOM)]),
        &ledger,
        ExecuteMsg::QueueUnbond { receiver: None },
    )
    .unwrap();
    // Due from 269200 on: the hub is told to submit.
    let res = run(
        &mut state,
        &mock_env_at_timestamp(269201),
        mock_info("user_2", &[coin(69, STAKE_DENOM)]),
        &ledger,
        ExecuteMsg::QueueUnbond { receiver: Some("user_3".to_string()) },
    )
    .unwrap();
    assert_eq!(res.messages, vec![Msg::SubmitBatch]);

    assert_eq!(
        queries::pending_batch(&state),
        PendingBatch { id: 1, ustake_to_burn: 102, est_unbond_start_time: 269200 }
    );
    let by_batch = queries::unbond_requests_by_batch(&state, 1, None, None);
    assert_eq!(by_batch.len(), 2);
    assert_eq!((by_batch[0].user.as_str(), by_batch[0].shares), ("user_1", 33));
    assert_eq!((by_batch[1].user.as_str(), by_batch[1].shares), ("user_3", 69));
    let page = queries::unbond_requests_by_batch(&state, 1, Some("user_1".to_string()), None);
    assert_eq!(page.len(), 1);
    assert_eq!(page[0].user, "user_3");

    // Only one coin, and only the stake token.
    let err = run(
        &mut state,
        &mock_env_at_timestamp(12345),
        mock_info("user_1", &[]),
        &ledger,
        ExecuteMsg::QueueUnbond { receiver: None },
    )
    .unwrap_err();
    assert_eq!(err.message(), "expecting only single coin");
    let err = run(
        &mut state,
        &mock_env_at_timestamp(12345),
        mock_info("user_1", &[coin(5, "hacker")]),
        &ledger,
        ExecuteMsg::QueueUnbond { receiver: None },
    )
    .unwrap_err();
    assert_eq!(err.message(), "expecting Stake token, received hacker");
}

#[test]
fn submitting_burns_the_shares_and_draws_from_the_validators() {
    let mut state = setup_test();
    state.stake_token.total_supply = 300;
    let mut ledger = bonded_ledger(100, 110, 120);
    ledger.balances = vec![coin(7, CONTRACT_DENOM)];

    run(
        &mut state,
        &mock_env_at_timestamp(20000),
        mock_info("user_1", &[coin(30, STAKE_DENOM)]),
        &ledger,
        ExecuteMsg::QueueUnbond { receiver: None },
    )
    .unwrap();

    let before = format!("{:?}", state);
    let err = run(
        &mut state,
        &mock_env_at_timestamp(269199),
        mock_info("anyone", &[]),
        &ledger,
        ExecuteMsg::SubmitBatch,
    )
    .unwrap_err();
    assert_eq!(err, ContractError::SubmitBatchAfter(269200));
    assert_eq!(err.message(), "batch can only be submitted for unbonding after 269200");
    assert_eq!(format!("{:?}", state), before);

    let res = run(
        &mut state,
        &mock_env_at_timestamp(269200),
        mock_info("anyone", &[]),
        &ledger,
        ExecuteMsg::SubmitBatch,
    )
    .unwrap();
    // 330 * 30 / 300 = 33
    assert_eq!(
        res.messages,
        vec![
            Msg::Undelegate { validator: "alice".to_string(), amount: 1 },
            Msg::Undelegate { validator: "bob".to_string(), amount: 11 },
            Msg::Undelegate { validator: "charlie".to_string(), amount: 21 },
            Msg::Burn { denom: STAKE_DENOM.to_string(), amount: 30 },
            check_received_coin(7, 0),
        ]
    );
    assert_eq!(state.stake_token.total_supply, 270);
    assert_eq!(
        queries::previous_batch(&state, 1),
        Ok(Batch {
            id: 1,
            reconciled: false,
            total_shares: 30,
            utoken_unclaimed: 33,
            est_unbond_end_time: 269200 + 1814400,
        })
    );
    assert_eq!(
        queries::pending_batch(&state),
        PendingBatch { id: 2, ustake_to_burn: 0, est_unbond_start_time: 269200 + 259200 }
    );
    assert_eq!(queries::previous_batch(&state, 2), Err(ContractError::BatchNotFound(2)));
    assert_eq!(ContractError::BatchNotFound(2).message(), "batch 2 not found");
}

fn state_with_batch(unclaimed: u128, shares: u128, reconciled: bool) -> State {
    let mut state = setup_test();
    state.previous_batches = vec![Batch {
        id: 1,
        reconciled,
        total_shares: shares,
        utoken_unclaimed: unclaimed,
        est_unbond_end_time: 10000,
    }];
    state.pending_batch = PendingBatch { id: 2, ustake_to_burn: 0, est_unbond_start_time: 20000 };
    state
}

#[test]
fn a_shortfall_is_deducted_from_the_batch() {
    let mut state = state_with_batch(33, 33, false);
    let mut ledger = empty_ledger();
    ledger.balances = vec![coin(30, CONTRACT_DENOM)];

    let res = run(
        &mut state,
        &mock_env_at_timestamp(10001),
        mock_info("anyone", &[]),
        &ledger,
        ExecuteMsg::Reconcile,
    )
    .unwrap();
    assert_eq!(res.messages, vec![]);
    assert_eq!(
        state.previous_batches,
        vec![Batch {
            id: 1,
            reconciled: true,
            total_shares: 33,
            utoken_unclaimed: 30,
            est_unbond_end_time: 10000,
        }]
    );
}

#[test]
fn reconciling_spreads_the_shortfall_and_counts_the_unlocked_coins() {
    let mut state = setup_test();
    let batch = |id: u64, reconciled: bool, unclaimed: u128, end: u64| Batch {
        id,
        reconciled,
        total_shares: 100,
        utoken_unclaimed: unclaimed,
        est_unbond_end_time: end,
    };
    state.previous_batches = vec![
        batch(1, true, 10000, 10000),
        batch(2, false, 1385, 20000),
        batch(3, false, 1506, 30000),
        batch(4, false, 1629, 40000),
    ];
    state.unlocked_coins = vec![coin(10000, CONTRACT_DENOM), coin(234, "ukrw")];
    let mut ledger = empty_ledger();
    // expected 1385 + 1506 + 10000 = 12891; held 12345: 546 short, 273 each
    ledger.balances = vec![coin(12345, CONTRACT_DENOM)];

    run(
        &mut state,
        &mock_env_at_timestamp(35000),
        mock_info("anyone", &[]),
        &ledger,
        ExecuteMsg::Reconcile,
    )
    .unwrap();
    assert_eq!(
        state.previous_batches,
        vec![
            batch(1, true, 10000, 10000),
            batch(2, true, 1112, 20000),
            batch(3, true, 1233, 30000),
            batch(4, false, 1629, 40000),
        ]
    );

    // The remainder goes to the first batches.
    state.previous_batches = vec![batch(2, false, 100, 20000), batch(3, false, 100, 30000)];
    state.unlocked_coins = vec![];
    ledger.balances = vec![coin(195, CONTRACT_DENOM)];
    run(&mut state, &mock_env_at_timestamp(35000), mock_info("x", &[]), &ledger, ExecuteMsg::Reconcile)
        .unwrap();
    assert_eq!(
        state.previous_batches,
        vec![batch(2, true, 97, 20000), batch(3, true, 98, 30000)]
    );
}

#[test]
fn reconciling_twice_changes_nothing_the_second_time() {
    let mut state = state_with_batch(33, 33, false);
    let mut ledger = empty_ledger();
    ledger.balances = vec![coin(30, CONTRACT_DENOM)];
    let env = mock_env_at_timestamp(10001);

    run(&mut state, &env, mock_info("anyone", &[]), &ledger, ExecuteMsg::Reconcile).unwrap();
    let after_first = format!("{:?}", state);
    // Whatever the hub holds by now.
    ledger.balances = vec![coin(1, CONTRACT_DENOM)];
    let res =
        run(&mut state, &env, mock_info("anyone", &[]), &ledger, ExecuteMsg::Reconcile).unwrap();
    assert_eq!(res, Response { messages: vec![], event: None });
    assert_eq!(format!("{:?}", state), after_first);
}

#[test]
fn a_surplus_only_marks_the_batches() {
    let mut state = state_with_batch(33, 33, false);
    let mut ledger = empty_ledger();
    ledger.balances = vec![coin(40, CONTRACT_DENOM)];
    run(
        &mut state,
        &mock_env_at_timestamp(10001),
        mock_info("anyone", &[]),
        &ledger,
        ExecuteMsg::Reconcile,
    )
    .unwrap();
    assert_eq!(state.previous_batches[0].utoken_unclaimed, 33);
    assert!(state.previous_batches[0].reconciled);

    // Not before the batch has finished unbonding.
    let mut state = state_with_batch(33, 33, false);
    run(
        &mut state,
        &mock_env_at_timestamp(10000),
        mock_info("anyone", &[]),
        &ledger,
        ExecuteMsg::Reconcile,
    )
    .unwrap();
    assert!(!state.previous_batches[0].reconciled);
}

#[test]
fn a_shortfall_beyond_a_batch_fails_and_changes_nothing() {
    let mut state = state_with_batch(5, 5, false);
    state.unlocked_coins = vec![coin(100, CONTRACT_DENOM)];
    let mut ledger = empty_ledger();
    ledger.balances = vec![coin(10, CONTRACT_DENOM)];
    let before = format!("{:?}", state);
    let err = run(
        &mut state,
        &mock_env_at_timestamp(10001),
        mock_info("anyone", &[]),
        &ledger,
        ExecuteMsg::Reconcile,
    )
    .unwrap_err();
    assert_eq!(err.message(), "cannot sub without overflow");
    assert_eq!(format!("{:?}", state), before);
}

#[test]
fn withdrawing_pays_the_share_and_closes_the_batch() {
    let mut state = state_with_batch(30, 33, true);
    state.unbond_requests = vec![eris::hub::UnbondRequest {
        id: 1,
        user: "user_1".to_string(),
        shares: 33,
    }];
    let ledger = empty_ledger();

    let res = run(
        &mut state,
        &mock_env_at_timestamp(10001),
        mock_info("user_1", &[]),
        &ledger,
        ExecuteMsg::WithdrawUnbonded { receiver: None },
    )
    .unwrap();
    assert_eq!(res.messages, vec![Msg::Send { to_address: "user_1".to_string(), amount: 30 }]);
    assert_eq!(state.previous_batches, vec![]);
    assert_eq!(state.unbond_requests, vec![]);
}

#[test]
fn withdrawing_takes_only_what_is_reconciled_and_finished() {
    let mut state = setup_test();
    let request = |id: u64, user: &str, shares: u128| eris::hub::UnbondRequest {
        id,
        user: user.to_string(),
        shares,
    };
    state.unbond_requests = vec![
        request(1, "user_1", 23456),
        request(1, "user_3", 69420),
        request(2, "user_1", 34567),
        request(3, "user_1", 45678),
        request(4, "user_1", 56789),
    ];
    state.previous_batches = vec![
        Batch {
            id: 1,
            reconciled: true,
            total_shares: 92876,
            utoken_unclaimed: 95197, // 1.025 per share
            est_unbond_end_time: 10000,
        },
        Batch {
            id: 2,
            reconciled: true,
            total_shares: 34567,
            utoken_unclaimed: 35604,
            est_unbond_end_time: 20000,
        },
        Batch {
            id: 3,
            reconciled: false, // finished, not reconciled
            total_shares: 45678,
            utoken_unclaimed: 47276,
            est_unbond_end_time: 20000,
        },
        Batch {
            id: 4,
            reconciled: true,
            total_shares: 56789,
            utoken_unclaimed: 59038,
            est_unbond_end_time: 30000, // reconciled, not finished
        },
    ];
    state.pending_batch = PendingBatch { id: 5, ustake_to_burn: 0, est_unbond_start_time: 50000 };
    let ledger = empty_ledger();

    // Nothing has finished yet.
    let err = run(
        &mut state,
        &mock_env_at_timestamp(5000),
        mock_info("user_1", &[]),
        &ledger,
        ExecuteMsg::WithdrawUnbonded { receiver: None },
    )
    .unwrap_err();
    assert_eq!(err.message(), "withdrawable amount can't be zero");

    // 95197 * 23456 / 92876 = 24042; 35604 in full
    let res = run(
        &mut state,
        &mock_env_at_timestamp(25000),
        mock_info("user_1", &[]),
        &ledger,
        ExecuteMsg::WithdrawUnbonded { receiver: Some("user_2".to_string()) },
    )
    .unwrap();
    assert_eq!(
        res.messages,
        vec![Msg::Send { to_address: "user_2".to_string(), amount: 59646 }]
    );
    assert_eq!(
        state.previous_batches[0],
        Batch {
            id: 1,
            reconciled: true,
            total_shares: 69420,
            utoken_unclaimed: 71155,
            est_unbond_end_time: 10000,
        }
    );
    assert_eq!(state.previous_batches.len(), 3);
    assert_eq!(state.previous_batches[1].id, 3);
    assert_eq!(
        state.unbond_requests,
        vec![
            request(1, "user_3", 69420),
            request(3, "user_1", 45678),
            request(4, "user_1", 56789)
        ]
    );

    let by_user =
        queries::unbond_requests_by_user(&state, "user_1".to_string(), None, None);
    assert_eq!(by_user.iter().map(|r| r.id).collect::<Vec<_>>(), vec![3, 4]);
    let by_user =
        queries::unbond_requests_by_user(&state, "user_1".to_string(), Some(3), Some(5));
    assert_eq!(by_user.iter().map(|r| (r.id, r.shares)).collect::<Vec<_>>(), vec![(4, 56789)]);
}

#[test]
fn shares_in_batches_are_backed_by_requests_throughout() {
    let mut state = setup_test();
    let mut ledger = bonded_ledger(1000, 1000, 1000);
    ledger.balances = vec![coin(1_000_000, CONTRACT_DENOM)];
    let check = |state: &State| {
        let in_requests: u128 = state.unbond_requests.iter().map(|r| r.shares).sum();
        let in_batches: u128 = state.previous_batches.iter().map(|b| b.total_shares).sum();
        assert_eq!(in_batches + state.pending_batch.ustake_to_burn, in_requests);
    };
    state.stake_token.total_supply = 3000;
    let mut now = 12000;
    for round in 0..4u128 {
        for (user, shares) in [("a", 100 + round), ("b", 250), ("a", 7)] {
            run(
                &mut state,
                &mock_env_at_timestamp(now),
                mock_info(user, &[coin(shares, STAKE_DENOM)]),
                &ledger,
                ExecuteMsg::QueueUnbond { receiver: None },
            )
            .unwrap();
            check(&state);
        }
        now = state.pending_batch.est_unbond_start_time;
        run(&mut state, &mock_env_at_timestamp(now), mock_info("x", &[]), &ledger, ExecuteMsg::SubmitBatch)
            .unwrap();
        check(&state);
    }
    assert_eq!(state.stake_token.total_supply, 3000 - 4 * 357 - 6);
    assert_eq!(state.previous_batches.len(), 4);
    now += 1814401;
    run(&mut state, &mock_env_at_timestamp(now), mock_info("x", &[]), &ledger, ExecuteMsg::Reconcile)
        .unwrap();
    check(&state);
    run(
        &mut state,
        &mock_env_at_timestamp(now),
        mock_info("a", &[]),
        &ledger,
        ExecuteMsg::WithdrawUnbonded { receiver: None },
    )
    .unwrap();
    check(&state);
    assert_eq!(state.unbond_requests.iter().filter(|r| r.user == "a").count(), 0);
    run(
        &mut state,
        &mock_env_at_timestamp(now),
        mock_info("b", &[]),
        &ledger,
        ExecuteMsg::WithdrawUnbonded { receiver: None },
    )
    .unwrap();
    check(&state);
    assert_eq!(state.previous_batches, vec![]);
}

#[test]
fn nothing_expected_is_nothing_to_reconcile() {
    // A batch is due, but neither it nor the unlocked coins expect anything.
    let mut state = state_with_batch(0, 0, false);
    let mut ledger = empty_ledger();
    let res = run(
        &mut state,
        &mock_env_at_timestamp(10001),
        mock_info("anyone", &[]),
        &ledger,
        ExecuteMsg::Reconcile,
    )
    .unwrap();
    assert_eq!(res, Response { messages: vec![], event: None });
    assert!(!state.previous_batches[0].reconciled);

    // The unlocked coins count as expected: held in full, the batch is settled.
    state.unlocked_coins = vec![coin(10, CONTRACT_DENOM)];
    ledger.balances = vec![coin(10, CONTRACT_DENOM)];
    run(
        &mut state,
        &mock_env_at_timestamp(10001),
        mock_info("anyone", &[]),
        &ledger,
        ExecuteMsg::Reconcile,
    )
    .unwrap();
    assert_eq!(state.previous_batches[0].utoken_unclaimed, 0);
    assert!(state.previous_batches[0].reconciled);

    // Held short, an empty batch has nothing to give.
    let mut state = state_with_batch(0, 0, false);
    state.unlocked_coins = vec![coin(10, CONTRACT_DENOM)];
    ledger.balances = vec![coin(5, CONTRACT_DENOM)];
    let err = run(
        &mut state,
        &mock_env_at_timestamp(10001),
        mock_info("anyone", &[]),
        &ledger,
        ExecuteMsg::Reconcile,
    )
    .unwrap_err();
    assert_eq!(err, ContractError::Overflow(OverflowOperation::Sub));
}

#[test]
fn a_round_trip_pays_back_no_more_than_was_paid_in() {
    for (supply, bonded) in [(300u128, 300u128), (1_000_000, 1_025_000), (7, 1000), (1000, 7)] {
        for deposit in [0u128, 1, 2, 3, 10, 999, 12345, 1_000_000_007] {
            let before = [Delegation::new("alice", bonded)];
            let minted = compute_mint_amount(supply, deposit, &before).unwrap();
            let after = [Delegation::new("alice", bonded + deposit)];
            let back = compute_unbond_amount(supply + minted, minted, &after).unwrap();
            assert!(back <= deposit, "{supply} {bonded} {deposit}: {minted} -> {back}");
            // The rate has not fallen: bonded / supply <= (bonded + deposit) / (supply + minted)
            assert!(bonded * (supply + minted) <= (bonded + deposit) * supply);
        }
    }
}

#[test]
fn a_new_hub_accepts_a_donation() {
    // Straight after the hub is created, with nothing configured since.
    let mut state = setup_test();
    let mut ledger = empty_ledger();
    ledger.balances = vec![coin(777, CONTRACT_DENOM)];
    let res = run(
        &mut state,
        &mock_env(),
        mock_info("user_1", &[coin(777, CONTRACT_DENOM)]),
        &ledger,
        ExecuteMsg::Donate,
    )
    .unwrap();
    // All of it is delegated, nothing is minted, and the supply stays.
    assert_eq!(
        res.messages,
        vec![
            Msg::Delegate { validator: "alice".to_string(), amount: 777 },
            check_received_coin(0, 0),
        ]
    );
    assert!(!res.messages.iter().any(|m| matches!(m, Msg::Mint { .. })));
    assert_eq!(state.stake_token.total_supply, 0);

    // The same with stake in the pool: the supply stays, the rate rises.
    state.stake_token.total_supply = 1000;
    let mut ledger = bonded_ledger(400, 300, 300);
    ledger.balances = vec![coin(50, CONTRACT_DENOM)];
    let res = run(
        &mut state,
        &mock_env(),
        mock_info("user_2", &[coin(50, CONTRACT_DENOM)]),
        &ledger,
        ExecuteMsg::Donate,
    )
    .unwrap();
    assert_eq!(
        res.messages,
        vec![Msg::Delegate { validator: "bob".to_string(), amount: 50 }, check_received_coin(0, 0)]
    );
    assert_eq!(state.stake_token.total_supply, 1000);

    // Switched on explicitly, it is accepted as well.
    state.allow_donations = Some(true);
    run(
        &mut state,
        &mock_env(),
        mock_info("user_2", &[coin(50, CONTRACT_DENOM)]),
        &ledger,
        ExecuteMsg::Donate,
    )
    .unwrap();
    assert_eq!(state.stake_token.total_supply, 1000);
}
