use eris::hub::Batch;
use eris::hub::CallbackMsg;
use eris::hub::Coin;
use eris::hub::DelegationStrategy;
use eris::hub::ExecuteMsg;
use eris::hub::FeeConfig;
use eris::hub::InstantiateMsg;
use eris::hub::PendingBatch;
use eris::hub::StakeToken;
use eris::hub::UnbondRequest;
use eris::hub::UnbondRequestsByBatchResponseItem;
use eris::hub::UnbondRequestsByUserResponseItem;
use eris::hub::UnbondState;
use eris::names::dedupe;
use eris::ratio::Decimal;
use eris::ratio::DecimalCheckedOps;
use eris::ratio::RatioError;
use eris::staking::constants::get_reward_fee_cap;
use eris::staking::constants::CONTRACT_DENOM;
use eris::staking::contract::execute;
use eris::staking::contract::MessageInfo;
use eris::staking::error::ContractError;
use eris::staking::error::OverflowOperation;
use eris::staking::error::Quantity;
use eris::staking::execute::instantiate;
use eris::staking::helpers::parse_received_fund;
use eris::staking::queries;
use eris::staking::state::Env;
use eris::staking::state::Ledger;
use eris::staking::state::State;
use eris::staking::types::Delegation;
use eris::staking::types::Event;
use eris::staking::types::Msg;
use eris::staking::types::Response;
use eris::text::to_decimal;

const HUB: &str = "cosmos2contract";
const STAKE: &str = "factory/cosmos2contract/stake";

fn coin(amount: u128, denom: &str) -> Coin {
    Coin { denom: denom.to_string(), amount }
}

fn names(list: &[&str]) -> Vec<String> {
    list.iter().map(|s| s.to_string()).collect()
}

fn env(time: u64) -> Env {
    Env { time, contract: HUB.to_string() }
}

fn info(sender: &str) -> MessageInfo {
    MessageInfo { sender: sender.to_string(), funds: vec![] }
}

fn ledger(delegations: &[(&str, u128)], balances: &[(u128, &str)]) -> Ledger {
    Ledger {
        delegations: delegations.iter().map(|(v, a)| Delegation::new(v, *a)).collect(),
        balances: balances.iter().map(|(a, d)| coin(*a, d)).collect(),
        validators: names(&["alice", "bob", "charlie", "dave"]),
    }
}

fn init_msg() -> InstantiateMsg {
    InstantiateMsg {
        fin_multi_contract: "fin_multi".to_string(),
        owner: "owner".to_string(),
        operator: "operator".to_string(),
        stages_preset: None,
        denom: "stake".to_string(),
        epoch_period: 259200,
        unbond_period: 1814400,
        validators: names(&["alice", "bob", "charlie"]),
        protocol_fee_contract: "fee".to_string(),
        protocol_reward_fee: Decimal::checked_from_ratio(1, 100).unwrap(),
        delegation_strategy: None,
    }
}

fn hub() -> State {
    instantiate(&env(10000), &ledger(&[], &[]), init_msg()).unwrap().0
}

fn run(state: &mut State, sender: &str, l: &Ledger, msg: ExecuteMsg) -> Result<Response, ContractError> {
    execute(state, &env(20000), &info(sender), l, msg)
}

fn by_hub(state: &mut State, l: &Ledger, msg: CallbackMsg) -> Result<Response, ContractError> {
    run(state, HUB, l, ExecuteMsg::Callback(msg))
}

fn snapshot(amount: u128, amount_stake: u128) -> Msg {
    Msg::Callback(CallbackMsg::CheckReceivedCoin {
        snapshot: coin(amount, CONTRACT_DENOM),
        snapshot_stake: coin(amount_stake, STAKE),
    })
}

//--------------------------------------------------------------------------------------------------
// Creating the hub
//--------------------------------------------------------------------------------------------------

#[test]
fn the_hub_is_created_with_checked_parameters() {
    let l = ledger(&[], &[]);
    let check = |change: fn(&mut InstantiateMsg)| {
        let mut msg = init_msg();
        change(&mut msg);
        instantiate(&env(10000), &l, msg).map(|(state, _)| state)
    };
    assert_eq!(
        check(|m| m.protocol_reward_fee = Decimal::raw(100_000_000_000_000_001)).unwrap_err(),
        ContractError::ProtocolRewardFeeTooHigh
    );
    assert_eq!(check(|m| m.protocol_reward_fee = get_reward_fee_cap()).unwrap().fee_config, FeeConfig {
        protocol_fee_contract: "fee".to_string(),
        protocol_reward_fee: Decimal::raw(100_000_000_000_000_000),
    });
    let err = check(|m| m.epoch_period = 0).unwrap_err();
    assert_eq!(err, ContractError::CantBeZero(Quantity::EpochPeriod));
    assert_eq!(err.message(), "epoch_period can't be zero");
    let err = check(|m| m.unbond_period = 0).unwrap_err();
    assert_eq!(err.message(), "unbond_period can't be zero");
    let err = check(|m| m.validators = names(&["alice", "zoe", "bob", "yan"])).unwrap_err();
    assert_eq!(err, ContractError::ValidatorNotFound("zoe".to_string()));
    assert_eq!(err.message(), "validator zoe does not exist");
    let err = check(|m| m.epoch_period = u64::MAX).unwrap_err();
    assert_eq!(err, ContractError::Overflow(OverflowOperation::Add));
    let err = check(|m| {
        m.stages_preset = Some(vec![vec![("fin".to_string(), STAKE.to_string())]])
    })
    .unwrap_err();
    assert_eq!(err, ContractError::SwapFromNotAllowed(STAKE.to_string()));

    let state = check(|m| {
        m.validators = names(&["bob", "alice", "bob", "charlie", "alice"]);
        m.delegation_strategy = Some(DelegationStrategy::Defined);
    })
    .unwrap();
    assert_eq!(state.validators, names(&["bob", "alice", "charlie"]));
    assert_eq!(state.delegation_strategy, Some(DelegationStrategy::Defined));
    assert_eq!(state.allow_donations, None);
    assert_eq!(state.stake_token, StakeToken { denom: STAKE.to_string(), total_supply: 0 });
    assert_eq!(hub().delegation_strategy, Some(DelegationStrategy::Uniform));
}

#[test]
fn repeated_names_are_dropped_in_place() {
    let mut list = names(&["a", "b", "a", "c", "c", "b", "d"]);
    dedupe(&mut list);
    assert_eq!(list, names(&["a", "b", "c", "d"]));
    let mut none: Vec<String> = vec![];
    dedupe(&mut none);
    assert_eq!(none, names(&[]));
}

//--------------------------------------------------------------------------------------------------
// Funds that come with a call
//--------------------------------------------------------------------------------------------------

#[test]
fn a_deposit_is_one_coin_of_the_base_token() {
    let base = CONTRACT_DENOM.to_string();
    assert_eq!(parse_received_fund(&vec![coin(69420, CONTRACT_DENOM)], &base), Ok(69420));
    let err = parse_received_fund(&vec![], &base).unwrap_err();
    assert_eq!(err, ContractError::MustDepositExactlyOneCoin(0));
    assert_eq!(err.message(), "must deposit exactly one coin; received 0");
    let err =
        parse_received_fund(&vec![coin(1, CONTRACT_DENOM), coin(2, "uusd")], &base).unwrap_err();
    assert_eq!(err.message(), "must deposit exactly one coin; received 2");
    let err = parse_received_fund(&vec![coin(12345, "uusd")], &base).unwrap_err();
    assert_eq!(err, ContractError::UnexpectedDeposit("uusd".to_string()));
    assert_eq!(err.message(), "expected ukuji deposit, received uusd");
    let err = parse_received_fund(&vec![coin(0, CONTRACT_DENOM)], &base).unwrap_err();
    assert_eq!(err, ContractError::ZeroDeposit);
    assert_eq!(err.message(), "deposit amount must be non-zero");

    let mut state = hub();
    let err = execute(
        &mut state,
        &env(20000),
        &MessageInfo { sender: "user".to_string(), funds: vec![coin(5, "uusd")] },
        &ledger(&[], &[]),
        ExecuteMsg::Bond { receiver: None },
    )
    .unwrap_err();
    assert_eq!(err, ContractError::UnexpectedDeposit("uusd".to_string()));
}

#[test]
fn bonding_needs_a_validator_and_the_funds_on_the_balance() {
    let mut state = hub();
    let funds = MessageInfo { sender: "user".to_string(), funds: vec![coin(50, CONTRACT_DENOM)] };
    // The funds have not arrived on the balance.
    let err = execute(
        &mut state,
        &env(20000),
        &funds,
        &ledger(&[], &[(49, CONTRACT_DENOM)]),
        ExecuteMsg::Bond { receiver: None },
    )
    .unwrap_err();
    assert_eq!(err, ContractError::Overflow(OverflowOperation::Sub));
    // The supply cannot take what would be minted.
    state.stake_token.total_supply = u128::MAX;
    let l = ledger(&[("alice", u128::MAX)], &[(50, CONTRACT_DENOM)]);
    let err =
        execute(&mut state, &env(20000), &funds, &l, ExecuteMsg::Bond { receiver: None }).unwrap_err();
    assert_eq!(err, ContractError::Overflow(OverflowOperation::Add));
    assert_eq!(err.message(), "cannot add without overflow");

    state.validators = vec![];
    let err =
        execute(&mut state, &env(20000), &funds, &l, ExecuteMsg::Bond { receiver: None }).unwrap_err();
    assert_eq!(err, ContractError::NoValidators);
    assert_eq!(err.message(), "no validator to delegate to");
}

//--------------------------------------------------------------------------------------------------
// Rewards
//--------------------------------------------------------------------------------------------------

#[test]
fn what_has_arrived_is_unlocked_and_stake_token_is_burned() {
    let mut state = hub();
    state.stake_token.total_supply = 1000;
    state.unlocked_coins = vec![coin(234, "ukrw"), coin(100, CONTRACT_DENOM)];
    let l = ledger(&[], &[(500, CONTRACT_DENOM), (70, STAKE), (9, "ukrw")]);

    let check = |a: u128, b: u128| CallbackMsg::CheckReceivedCoin {
        snapshot: coin(a, CONTRACT_DENOM),
        snapshot_stake: coin(b, STAKE),
    };
    let err = run(&mut state, "jake", &l, ExecuteMsg::Callback(check(0, 0))).unwrap_err();
    assert_eq!(err, ContractError::CallbackOnlyCalledByContract);

    let res = by_hub(&mut state, &l, check(300, 30)).unwrap();
    assert_eq!(res.messages, vec![Msg::Burn { denom: STAKE.to_string(), amount: 40 }]);
    assert_eq!(res.event, Some(Event::Received { received: Some(coin(200, CONTRACT_DENOM)) }));
    assert_eq!(state.unlocked_coins, vec![coin(234, "ukrw"), coin(300, CONTRACT_DENOM)]);
    assert_eq!(state.stake_token.total_supply, 960);

    // Nothing has arrived.
    let res = by_hub(&mut state, &l, check(500, 70)).unwrap();
    assert_eq!(res, Response { messages: vec![], event: Some(Event::Received { received: None }) });
    assert_eq!(state.unlocked_coins, vec![coin(234, "ukrw"), coin(300, CONTRACT_DENOM)]);

    // A denom that was not unlocked before goes to the end.
    let res = by_hub(
        &mut state,
        &ledger(&[], &[(5, "test")]),
        CallbackMsg::CheckReceivedCoin { snapshot: coin(2, "test"), snapshot_stake: coin(0, STAKE) },
    )
    .unwrap();
    assert_eq!(res.messages, vec![]);
    assert_eq!(state.unlocked_coins.last(), Some(&coin(3, "test")));

    // More stake token than there is supply cannot be burned.
    let before = format!("{:?}", state);
    let err =
        by_hub(&mut state, &ledger(&[], &[(961, STAKE), (9, CONTRACT_DENOM)]), check(0, 0)).unwrap_err();
    assert_eq!(err, ContractError::Overflow(OverflowOperation::Sub));
    assert_eq!(format!("{:?}", state), before);
}

#[test]
fn reinvesting_takes_the_fee_and_bonds_the_rest() {
    let mut state = hub();
    let l = ledger(&[("alice", 333334), ("bob", 333333), ("charlie", 333333)], &[]);

    let err = by_hub(&mut state, &l, CallbackMsg::Reinvest).unwrap_err();
    assert_eq!(err, ContractError::NoTokensAvailable);
    assert_eq!(err.message(), "no ukuji available to be bonded");

    state.unlocked_coins = vec![coin(234, "ukrw"), coin(1234, CONTRACT_DENOM), coin(69420, "test")];
    let res = by_hub(&mut state, &l, CallbackMsg::Reinvest).unwrap();
    // 1% of 1234 is 12.34
    assert_eq!(
        res.messages,
        vec![
            Msg::Delegate { validator: "bob".to_string(), amount: 1222 },
            Msg::Send { to_address: "fee".to_string(), amount: 12 },
        ]
    );
    assert_eq!(
        res.event,
        Some(Event::Harvested { utoken_bonded: 1222, utoken_protocol_fee: 12 })
    );
    assert_eq!(state.unlocked_coins, vec![coin(234, "ukrw"), coin(69420, "test")]);

    // No fee, no transfer.
    state.unlocked_coins = vec![coin(99, CONTRACT_DENOM)];
    let res = by_hub(&mut state, &l, CallbackMsg::Reinvest).unwrap();
    assert_eq!(res.messages, vec![Msg::Delegate { validator: "bob".to_string(), amount: 99 }]);
}

#[test]
fn a_fraction_of_an_amount_is_floored_and_checked() {
    let percent = Decimal::checked_from_ratio(1, 100).unwrap();
    assert_eq!(percent, Decimal::raw(10_000_000_000_000_000));
    assert_eq!(Decimal::checked_from_ratio(1, 3).unwrap().atomics, 333_333_333_333_333_333);
    assert_eq!(Decimal::checked_from_ratio(5, 0), Err(RatioError::DivideByZero));
    assert_eq!(Decimal::checked_from_ratio(u128::MAX, 1), Err(RatioError::Overflow));
    assert_eq!(Decimal::one().atomics, 1_000_000_000_000_000_000);
    assert!(Decimal::zero().is_zero());
    assert!(Decimal::one().gt(&percent));
    assert!(!percent.gt(&percent));

    assert_eq!(percent.checked_mul_uint(1234), Ok(12));
    assert_eq!(percent.checked_mul_uint(99), Ok(0));
    assert_eq!(Decimal::zero().checked_mul_uint(u128::MAX), Ok(0));
    assert_eq!(Decimal::one().checked_mul_uint(u128::MAX), Ok(u128::MAX));
    assert_eq!(Decimal::raw(u128::MAX).checked_mul_uint(u128::MAX), Err(RatioError::Overflow));
    assert_eq!(percent.checked_add(percent), Ok(Decimal::raw(20_000_000_000_000_000)));
    assert_eq!(Decimal::raw(u128::MAX).checked_add(percent), Err(RatioError::Overflow));
}

//--------------------------------------------------------------------------------------------------
// The whitelist and the rebalancing
//--------------------------------------------------------------------------------------------------

#[test]
fn the_whitelist_is_the_owners() {
    let mut state = hub();
    let l = ledger(&[], &[]);
    let add = |v: &str| ExecuteMsg::AddValidator { validator: v.to_string() };
    let remove = |v: &str| ExecuteMsg::RemoveValidator { validator: v.to_string() };

    let err = run(&mut state, "jake", &l, add("dave")).unwrap_err();
    assert_eq!(err, ContractError::UnauthorizedSenderNotOwner);
    assert_eq!(err.message(), "unauthorized: sender is not owner");
    let err = run(&mut state, "owner", &l, add("alice")).unwrap_err();
    assert_eq!(err, ContractError::ValidatorAlreadyWhitelisted("alice".to_string()));
    assert_eq!(err.message(), "validator alice is already whitelisted");
    let err = run(&mut state, "owner", &l, add("zoe")).unwrap_err();
    assert_eq!(err, ContractError::ValidatorNotFound("zoe".to_string()));

    let res = run(&mut state, "owner", &l, add("dave")).unwrap();
    assert_eq!(res.messages, vec![]);
    assert_eq!(res.event, Some(Event::ValidatorAdded { validator: "dave".to_string() }));
    assert_eq!(state.validators, names(&["alice", "bob", "charlie", "dave"]));

    let err = run(&mut state, "jake", &l, remove("alice")).unwrap_err();
    assert_eq!(err, ContractError::UnauthorizedSenderNotOwner);
    let err = run(&mut state, "owner", &l, remove("zoe")).unwrap_err();
    assert_eq!(err, ContractError::ValidatorNotWhitelisted("zoe".to_string()));
    assert_eq!(err.message(), "validator zoe is not whitelisted");
}

#[test]
fn removing_a_validator_spreads_its_stake() {
    let mut state = hub();
    state.validators.push("dave".to_string());
    let l = ledger(
        &[("alice", 100), ("bob", 100), ("charlie", 100), ("dave", 60)],
        &[(3, CONTRACT_DENOM)],
    );
    let res =
        run(&mut state, "owner", &l, ExecuteMsg::RemoveValidator { validator: "dave".to_string() })
            .unwrap();
    assert_eq!(
        res.messages,
        vec![
            Msg::Redelegate { src: "dave".to_string(), dst: "alice".to_string(), amount: 20 },
            Msg::Redelegate { src: "dave".to_string(), dst: "bob".to_string(), amount: 20 },
            Msg::Redelegate { src: "dave".to_string(), dst: "charlie".to_string(), amount: 20 },
            snapshot(3, 0),
        ]
    );
    assert_eq!(state.validators, names(&["alice", "bob", "charlie"]));

    // A validator without stake leaves without effects.
    let res =
        run(&mut state, "owner", &l, ExecuteMsg::RemoveValidator { validator: "bob".to_string() });
    assert_eq!(
        res.unwrap().messages,
        vec![
            Msg::Redelegate { src: "bob".to_string(), dst: "alice".to_string(), amount: 50 },
            Msg::Redelegate { src: "bob".to_string(), dst: "charlie".to_string(), amount: 50 },
            snapshot(3, 0),
        ]
    );
    let res = run(
        &mut state,
        "owner",
        &ledger(&[("alice", 7)], &[]),
        ExecuteMsg::RemoveValidator { validator: "charlie".to_string() },
    )
    .unwrap();
    assert_eq!(res.messages, vec![]);
    assert_eq!(state.validators, names(&["alice"]));

    // The last validator has no one to hand its stake to.
    let err = run(
        &mut state,
        "owner",
        &ledger(&[("alice", 7)], &[]),
        ExecuteMsg::RemoveValidator { validator: "alice".to_string() },
    )
    .unwrap_err();
    assert_eq!(err, ContractError::DivideByZero);
    assert_eq!(err.message(), "cannot divide by zero");
    assert_eq!(state.validators, names(&["alice"]));

    // With defined shares the stake stays where it is.
    state.delegation_strategy = Some(DelegationStrategy::Defined);
    let res = run(
        &mut state,
        "owner",
        &ledger(&[("alice", 7)], &[]),
        ExecuteMsg::RemoveValidator { validator: "alice".to_string() },
    )
    .unwrap();
    assert_eq!(res.messages, vec![]);
    assert_eq!(state.validators, names(&[]));
}

#[test]
fn rebalancing_is_the_owners_and_skips_small_moves() {
    let mut state = hub();
    let l = ledger(&[("alice", 150), ("bob", 50), ("charlie", 100)], &[(9, STAKE)]);
    let err =
        run(&mut state, "jake", &l, ExecuteMsg::Rebalance { min_redelegation: None }).unwrap_err();
    assert_eq!(err, ContractError::UnauthorizedSenderNotOwner);

    let res =
        run(&mut state, "owner", &l, ExecuteMsg::Rebalance { min_redelegation: None }).unwrap();
    assert_eq!(
        res.messages,
        vec![
            Msg::Redelegate { src: "alice".to_string(), dst: "bob".to_string(), amount: 50 },
            snapshot(0, 9),
        ]
    );
    assert_eq!(res.event, Some(Event::Rebalanced { utoken_moved: 50 }));

    let l = ledger(&[("alice", 130), ("bob", 90), ("charlie", 95), ("dave", 85)], &[]);
    let res =
        run(&mut state, "owner", &l, ExecuteMsg::Rebalance { min_redelegation: Some(10) }).unwrap();
    // 100 each: alice gives 10 to bob, 5 to charlie, 15 to dave
    assert_eq!(
        res.messages,
        vec![
            Msg::Redelegate { src: "alice".to_string(), dst: "bob".to_string(), amount: 10 },
            Msg::Redelegate { src: "alice".to_string(), dst: "dave".to_string(), amount: 15 },
            snapshot(0, 0),
        ]
    );
    assert_eq!(res.event, Some(Event::Rebalanced { utoken_moved: 25 }));
    let res =
        run(&mut state, "owner", &l, ExecuteMsg::Rebalance { min_redelegation: Some(16) }).unwrap();
    assert_eq!(res.messages, vec![]);

    let err = run(&mut state, "owner", &ledger(&[], &[]), ExecuteMsg::Rebalance {
        min_redelegation: None,
    })
    .unwrap_err();
    assert_eq!(err, ContractError::DivideByZero);
}

//--------------------------------------------------------------------------------------------------
// Ownership and configuration
//--------------------------------------------------------------------------------------------------

#[test]
fn ownership_changes_hands_on_acceptance() {
    let mut state = hub();
    let l = ledger(&[], &[]);
    let transfer = || ExecuteMsg::TransferOwnership { new_owner: "jake".to_string() };

    let err = run(&mut state, "jake", &l, transfer()).unwrap_err();
    assert_eq!(err, ContractError::UnauthorizedSenderNotOwner);
    let err = run(&mut state, "jake", &l, ExecuteMsg::AcceptOwnership).unwrap_err();
    assert_eq!(err, ContractError::NoOwnershipProposal);
    assert_eq!(err.message(), "no ownership transfer is pending");

    run(&mut state, "owner", &l, transfer()).unwrap();
    assert_eq!(state.owner, "owner");
    assert_eq!(queries::config(&state).new_owner, Some("jake".to_string()));

    let err = run(&mut state, "pumpkin", &l, ExecuteMsg::AcceptOwnership).unwrap_err();
    assert_eq!(err, ContractError::UnauthorizedSenderNotNewOwner);
    assert_eq!(err.message(), "unauthorized: sender is not new owner");

    let err = run(&mut state, "jake", &l, ExecuteMsg::DropOwnershipProposal).unwrap_err();
    assert_eq!(err, ContractError::UnauthorizedSenderNotOwner);
    run(&mut state, "owner", &l, ExecuteMsg::DropOwnershipProposal).unwrap();
    assert_eq!(state.new_owner, None);

    run(&mut state, "owner", &l, transfer()).unwrap();
    let res = run(&mut state, "jake", &l, ExecuteMsg::AcceptOwnership).unwrap();
    assert_eq!(
        res.event,
        Some(Event::OwnershipTransferred {
            new_owner: "jake".to_string(),
            previous_owner: "owner".to_string()
        })
    );
    assert_eq!(state.owner, "jake");
    assert_eq!(state.new_owner, None);
}

fn update() -> ExecuteMsg {
    ExecuteMsg::UpdateConfig {
        protocol_fee_contract: None,
        protocol_reward_fee: None,
        operator: None,
        stages_preset: None,
        allow_donations: None,
        delegation_strategy: None,
    }
}

#[test]
fn the_configuration_is_the_owners_and_keeps_what_is_not_named() {
    let mut state = hub();
    let l = ledger(&[], &[]);
    let err = run(&mut state, "jake", &l, update()).unwrap_err();
    assert_eq!(err, ContractError::UnauthorizedSenderNotOwner);

    let before = format!("{:?}", state);
    run(&mut state, "owner", &l, update()).unwrap();
    assert_eq!(format!("{:?}", state), before);

    let err = run(&mut state, "owner", &l, ExecuteMsg::UpdateConfig {
        protocol_fee_contract: Some("fee-new".to_string()),
        protocol_reward_fee: Some(Decimal::checked_from_ratio(11, 100).unwrap()),
        operator: None,
        stages_preset: None,
        allow_donations: None,
        delegation_strategy: None,
    })
    .unwrap_err();
    assert_eq!(err, ContractError::ProtocolRewardFeeTooHigh);
    assert_eq!(err.message(), "protocol_reward_fee greater than max");
    assert_eq!(format!("{:?}", state), before);

    let err = run(&mut state, "owner", &l, ExecuteMsg::UpdateConfig {
        protocol_fee_contract: None,
        protocol_reward_fee: None,
        operator: Some("worker".to_string()),
        stages_preset: Some(vec![
            vec![("fin1".to_string(), "test".to_string())],
            vec![("fin2".to_string(), "abc".to_string()), ("fin3".to_string(), "ukuji".to_string())],
        ]),
        allow_donations: None,
        delegation_strategy: None,
    })
    .unwrap_err();
    assert_eq!(err, ContractError::SwapFromNotAllowed("ukuji".to_string()));
    assert_eq!(format!("{:?}", state), before);

    run(&mut state, "owner", &l, ExecuteMsg::UpdateConfig {
        protocol_fee_contract: Some("fee-new".to_string()),
        protocol_reward_fee: Some(Decimal::checked_from_ratio(10, 100).unwrap()),
        operator: Some("worker".to_string()),
        stages_preset: Some(vec![vec![("fin1".to_string(), "test".to_string())]]),
        allow_donations: Some(true),
        delegation_strategy: Some(DelegationStrategy::Defined),
    })
    .unwrap();
    let config = queries::config(&state);
    assert_eq!(config.fee_config, FeeConfig {
        protocol_fee_contract: "fee-new".to_string(),
        protocol_reward_fee: Decimal::raw(100_000_000_000_000_000),
    });
    assert_eq!(config.operator, "worker");
    assert_eq!(config.stages_preset, vec![vec![("fin1".to_string(), "test".to_string())]]);
    assert_eq!(state.allow_donations, Some(true));
    assert_eq!(state.delegation_strategy, Some(DelegationStrategy::Defined));
    assert_eq!(state.owner, "owner");
}

//--------------------------------------------------------------------------------------------------
// Queries
//--------------------------------------------------------------------------------------------------

fn batch(id: u64, reconciled: bool, unclaimed: u128, end: u64) -> Batch {
    Batch { id, reconciled, total_shares: 1000, utoken_unclaimed: unclaimed, est_unbond_end_time: end }
}

fn request(id: u64, user: &str, shares: u128) -> UnbondRequest {
    UnbondRequest { id, user: user.to_string(), shares }
}

#[test]
fn the_aggregate_figures_add_up() {
    let mut state = hub();
    state.stake_token.total_supply = 1_000_000;
    state.unlocked_coins = vec![coin(5, "test")];
    state.previous_batches = vec![
        batch(1, false, 1100, 30000),
        batch(2, false, 1030, 25000),
        batch(3, true, 3000, 30000),
        batch(4, false, 1000, 20000),
    ];
    let l = ledger(
        &[("alice", 341667), ("bob", 341667), ("charlie", 341666), ("zoe", 77)],
        &[(250, CONTRACT_DENOM), (8, "test")],
    );
    let res = queries::state(&state, &env(20000), &l).unwrap();
    assert_eq!(res.total_ustake, 1_000_000);
    assert_eq!(res.total_utoken, 1_025_000);
    assert_eq!(res.exchange_rate, Decimal::checked_from_ratio(1025, 1000).unwrap());
    assert_eq!(res.exchange_rate.atomics, 1_025_000_000_000_000_000);
    assert_eq!(res.unlocked_coins, vec![coin(5, "test")]);
    assert_eq!(res.unbonding, 2130);
    assert_eq!(res.available, 250);
    assert_eq!(res.tvl_utoken, 1_025_000 + 2130 + 250);

    state.stake_token.total_supply = 1;
    let l = ledger(&[("alice", u128::MAX)], &[]);
    assert_eq!(
        queries::state(&state, &env(20000), &l),
        Err(ContractError::Overflow(OverflowOperation::Mul))
    );
    assert_eq!(ContractError::Overflow(OverflowOperation::Mul).message(), "cannot mul without overflow");
    let l = ledger(&[("alice", u128::MAX), ("bob", 1)], &[]);
    assert_eq!(
        queries::state(&state, &env(20000), &l),
        Err(ContractError::Overflow(OverflowOperation::Add))
    );
}

#[test]
fn batches_are_listed_in_pages() {
    let mut state = hub();
    state.previous_batches = (1..=40).map(|id| batch(id, id % 2 == 0, 1, 1)).collect();
    let ids = |start, limit| {
        queries::previous_batches(&state, start, limit).iter().map(|b| b.id).collect::<Vec<_>>()
    };
    assert_eq!(ids(None, None), (1..=10).collect::<Vec<_>>());
    assert_eq!(ids(Some(7), Some(3)), vec![8, 9, 10]);
    assert_eq!(ids(None, Some(100)), (1..=30).collect::<Vec<_>>());
    assert_eq!(ids(Some(38), None), vec![39, 40]);
    assert_eq!(ids(Some(40), None), Vec::<u64>::new());
    assert_eq!(ids(None, Some(0)), Vec::<u64>::new());
}

#[test]
fn requests_are_listed_by_batch_and_by_user() {
    let mut state = hub();
    state.pending_batch = PendingBatch { id: 3, ustake_to_burn: 0, est_unbond_start_time: 50000 };
    state.previous_batches = vec![batch(1, true, 7, 15000), batch(2, false, 8, 25000)];
    state.unbond_requests = vec![
        request(1, "alice", 123),
        request(1, "bob", 234),
        request(1, "charlie", 345),
        request(2, "alice", 456),
        request(2, "bob", 567),
        request(3, "alice", 678),
    ];
    let by_batch = |id, start: Option<&str>, limit| {
        queries::unbond_requests_by_batch(&state, id, start.map(|s| s.to_string()), limit)
            .into_iter()
            .map(|r| (r.user, r.shares))
            .collect::<Vec<_>>()
    };
    assert_eq!(
        by_batch(1, None, None),
        vec![("alice".to_string(), 123), ("bob".to_string(), 234), ("charlie".to_string(), 345)]
    );
    assert_eq!(by_batch(1, Some("alice"), Some(1)), vec![("bob".to_string(), 234)]);
    assert_eq!(by_batch(2, Some("bo"), None), vec![("bob".to_string(), 567)]);
    assert_eq!(by_batch(4, None, None), vec![]);

    let details = queries::unbond_requests_by_user_details(
        &state,
        &env(20000),
        "alice".to_string(),
        None,
        None,
    )
    .unwrap();
    assert_eq!(
        details.iter().map(|d| (d.id, d.shares, d.state)).collect::<Vec<_>>(),
        vec![
            (1, 123, UnbondState::Completed),
            (2, 456, UnbondState::Unbonding),
            (3, 678, UnbondState::Pending)
        ]
    );
    assert_eq!(details[0].batch, Some(batch(1, true, 7, 15000)));
    assert_eq!(details[0].pending, None);
    assert_eq!(details[2].batch, None);
    assert_eq!(details[2].pending, Some(state.pending_batch));

    // A request whose batch is gone cannot be told of.
    state.previous_batches.remove(0);
    let err = queries::unbond_requests_by_user_details(
        &state,
        &env(20000),
        "alice".to_string(),
        None,
        None,
    )
    .unwrap_err();
    assert_eq!(err, ContractError::BatchNotFound(1));
    let page = queries::unbond_requests_by_user_details(
        &state,
        &env(20000),
        "alice".to_string(),
        Some(1),
        Some(1),
    )
    .unwrap();
    assert_eq!(page.len(), 1);
    assert_eq!(page[0].id, 2);

    assert_eq!(
        UnbondRequestsByBatchResponseItem::from(request(1, "bob", 234)),
        UnbondRequestsByBatchResponseItem { user: "bob".to_string(), shares: 234 }
    );
    assert_eq!(
        UnbondRequestsByUserResponseItem::from(request(1, "bob", 234)),
        UnbondRequestsByUserResponseItem { id: 1, shares: 234 }
    );
}

#[test]
fn numbers_are_written_in_decimal() {
    for n in [0u128, 1, 9, 10, 11, 99, 100, 101, 269200, 1_000_000_007, u64::MAX as u128, u128::MAX] {
        assert_eq!(to_decimal(n), n.to_string());
    }
}

#[test]
fn queued_shares_cannot_leave_their_width() {
    let mut state = hub();
    state.pending_batch.ustake_to_burn = u128::MAX - 5;
    let before = format!("{:?}", state);
    let err = execute(
        &mut state,
        &env(20000),
        &MessageInfo { sender: "user".to_string(), funds: vec![coin(6, STAKE)] },
        &ledger(&[], &[]),
        ExecuteMsg::QueueUnbond { receiver: None },
    )
    .unwrap_err();
    assert_eq!(err, ContractError::Overflow(OverflowOperation::Add));
    assert_eq!(format!("{:?}", state), before);
}

#[test]
fn every_question_about_the_hub_has_its_answer() {
    let mut state = hub();
    state.previous_batches = vec![batch(1, true, 7, 15000), batch(2, false, 8, 25000)];
    state.pending_batch = PendingBatch { id: 3, ustake_to_burn: 678, est_unbond_start_time: 50000 };
    state.unbond_requests = vec![request(1, "alice", 123), request(3, "alice", 678)];
    let l = ledger(&[("alice", 5)], &[(2, CONTRACT_DENOM)]);
    let ask = |msg| eris::staking::contract::query(&state, &env(20000), &l, msg);

    assert_eq!(
        ask(eris::hub::QueryMsg::Config),
        Ok(eris::hub::QueryResponse::Config(queries::config(&state)))
    );
    assert_eq!(
        ask(eris::hub::QueryMsg::State),
        Ok(eris::hub::QueryResponse::State(queries::state(&state, &env(20000), &l).unwrap()))
    );
    assert_eq!(
        ask(eris::hub::QueryMsg::PendingBatch),
        Ok(eris::hub::QueryResponse::PendingBatch(state.pending_batch))
    );
    assert_eq!(
        ask(eris::hub::QueryMsg::PreviousBatch(2)),
        Ok(eris::hub::QueryResponse::PreviousBatch(batch(2, false, 8, 25000)))
    );
    assert_eq!(
        ask(eris::hub::QueryMsg::PreviousBatch(3)),
        Err(ContractError::BatchNotFound(3))
    );
    assert_eq!(
        ask(eris::hub::QueryMsg::PreviousBatches { start_after: Some(1), limit: None }),
        Ok(eris::hub::QueryResponse::PreviousBatches(vec![batch(2, false, 8, 25000)]))
    );
    assert_eq!(
        ask(eris::hub::QueryMsg::UnbondRequestsByBatch { id: 3, start_after: None, limit: None }),
        Ok(eris::hub::QueryResponse::UnbondRequestsByBatch(vec![
            UnbondRequestsByBatchResponseItem { user: "alice".to_string(), shares: 678 }
        ]))
    );
    assert_eq!(
        ask(eris::hub::QueryMsg::UnbondRequestsByUser {
            user: "alice".to_string(),
            start_after: None,
            limit: Some(1)
        }),
        Ok(eris::hub::QueryResponse::UnbondRequestsByUser(vec![
            UnbondRequestsByUserResponseItem { id: 1, shares: 123 }
        ]))
    );
    let details = ask(eris::hub::QueryMsg::UnbondRequestsByUserDetails {
        user: "alice".to_string(),
        start_after: Some(1),
        limit: None,
    });
    match details {
        Ok(eris::hub::QueryResponse::UnbondRequestsByUserDetails(items)) => {
            assert_eq!(items.len(), 1);
            assert_eq!(items[0].state, UnbondState::Pending);
            assert_eq!(items[0].pending, Some(state.pending_batch));
        }
        other => panic!("{:?}", other),
    }
}
