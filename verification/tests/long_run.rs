use eris::hub::Coin;
use eris::hub::ExecuteMsg;
use eris::hub::InstantiateMsg;
use eris::ratio::Decimal;
use eris::staking::constants::CONTRACT_DENOM;
use eris::staking::contract::execute;
use eris::staking::contract::MessageInfo;
use eris::staking::error::ContractError;
use eris::staking::error::OverflowOperation;
use eris::staking::error::Quantity;
use eris::staking::execute::instantiate;
use eris::staking::state::Env;
use eris::staking::state::Ledger;
use eris::staking::state::State;
use eris::staking::types::Delegation;
use eris::staking::types::Msg;

const HUB: &str = "hub";
const STAKE: &str = "factory/hub/stake";
const USERS: [&str; 4] = ["ann", "ben", "cleo", "dan"];

// A small generator of numbers that look random and are the same each run.
struct Dice(u64);

impl Dice {
    fn roll(&mut self, sides: u64) -> u64 {
        self.0 ^= self.0 << 13;
        self.0 ^= self.0 >> 7;
        self.0 ^= self.0 << 17;
        self.0 % sides
    }
}

// The host: it keeps the delegations, the hub's balance and the minted
// supply, and carries out what the hub asks for.
struct Host {
    ledger: Ledger,
    minted: u128,
    paid_out: u128,
    unbonding: u128,
}

impl Host {
    // Whether the hub holds what the effects spend. Where it does not, the
    // host undoes the whole call.
    fn can_carry_out(&self, messages: &[Msg]) -> bool {
        let spent: u128 = messages
            .iter()
            .map(|msg| match msg {
                Msg::Delegate { amount, .. } | Msg::Send { amount, .. } => *amount,
                _ => 0,
            })
            .sum();
        spent <= self.ledger.balances[0].amount
    }

    fn carry_out(&mut self, messages: &[Msg]) {
        for msg in messages {
            match msg {
                Msg::Delegate { validator, amount } => {
                    self.take(*amount);
                    self.delegation(validator).amount += amount;
                }
                Msg::Undelegate { validator, amount } => {
                    assert!(*amount > 0);
                    self.delegation(validator).amount -= amount;
                    self.unbonding += amount;
                }
                Msg::Mint { amount, .. } => self.minted += amount,
                Msg::Burn { amount, .. } => self.minted -= amount,
                Msg::Send { amount, .. } => {
                    self.take(*amount);
                    self.paid_out += amount;
                }
                Msg::Callback(_) | Msg::SubmitBatch => {}
                other => panic!("{:?}", other),
            }
        }
    }

    fn delegation(&mut self, validator: &str) -> &mut Delegation {
        if !self.ledger.delegations.iter().any(|d| d.validator == validator) {
            self.ledger.delegations.push(Delegation::new(validator, 0));
        }
        self.ledger.delegations.iter_mut().find(|d| d.validator == validator).unwrap()
    }

    fn take(&mut self, amount: u128) {
        self.ledger.balances[0].amount -= amount;
    }

    fn give(&mut self, amount: u128) {
        self.ledger.balances[0].amount += amount;
    }
}

fn books_are_balanced(state: &State, host: &Host) {
    // The supply is what has been minted and not been burned.
    assert_eq!(state.stake_token.total_supply, host.minted);
    // The batches hold the shares of the requests.
    let requested: u128 = state.unbond_requests.iter().map(|r| r.shares).sum();
    let held: u128 = state.previous_batches.iter().map(|b| b.total_shares).sum();
    assert_eq!(held + state.pending_batch.ustake_to_burn, requested);
    for batch in &state.previous_batches {
        let in_batch: u128 =
            state.unbond_requests.iter().filter(|r| r.id == batch.id).map(|r| r.shares).sum();
        assert_eq!(in_batch, batch.total_shares);
        assert!(batch.id < state.pending_batch.id);
    }
    // Batches and requests are kept in order.
    assert!(state.previous_batches.windows(2).all(|w| w[0].id < w[1].id));
    assert!(state
        .unbond_requests
        .windows(2)
        .all(|w| (w[0].id, w[0].user.as_str()) < (w[1].id, w[1].user.as_str())));
}

#[test]
fn a_long_run_of_calls_keeps_the_books_balanced() {
    let mut dice = Dice(0x9E3779B97F4A7C15);
    let mut host = Host {
        ledger: Ledger {
            delegations: vec![],
            balances: vec![Coin { denom: CONTRACT_DENOM.to_string(), amount: 0 }],
            validators: vec!["v1".to_string(), "v2".to_string(), "v3".to_string()],
        },
        minted: 0,
        paid_out: 0,
        unbonding: 0,
    };
    let (mut state, _) = instantiate(
        &Env { time: 0, contract: HUB.to_string() },
        &host.ledger,
        InstantiateMsg {
            fin_multi_contract: "fin".to_string(),
            owner: "owner".to_string(),
            operator: "operator".to_string(),
            stages_preset: None,
            denom: "stake".to_string(),
            epoch_period: 100,
            unbond_period: 250,
            validators: host.ledger.validators.clone(),
            protocol_fee_contract: "fee".to_string(),
            protocol_reward_fee: Decimal::zero(),
            delegation_strategy: None,
        },
    )
    .unwrap();
    let mut holdings = [0u128; 4];
    let mut now = 1u64;
    let mut paid_in = 0u128;
    let mut submitted = 0;
    let mut withdrawn = 0;
    let mut undone = 0;

    for _ in 0..3000 {
        now += dice.roll(40);
        let env = Env { time: now, contract: HUB.to_string() };
        let who = dice.roll(4) as usize;
        let user = USERS[who];
        let before = format!("{:?}", state);
        let saved = state.clone();
        let call = |state: &mut State, host: &Host, funds: Vec<Coin>, msg: ExecuteMsg| {
            let info = MessageInfo { sender: user.to_string(), funds };
            execute(state, &env, &info, &host.ledger, msg)
        };
        let kind = dice.roll(6);
        let outcome = match kind {
            0 | 1 => {
                let amount = 1 + dice.roll(5000) as u128;
                host.give(amount);
                paid_in += amount;
                let funds = vec![Coin { denom: CONTRACT_DENOM.to_string(), amount }];
                let supply = state.stake_token.total_supply;
                let res = call(&mut state, &host, funds, ExecuteMsg::Bond { receiver: None });
                holdings[who] += state.stake_token.total_supply - supply;
                res
            }
            2 => {
                if holdings[who] == 0 {
                    continue;
                }
                let shares = 1 + dice.roll(holdings[who] as u64) as u128;
                holdings[who] -= shares;
                let funds = vec![Coin { denom: STAKE.to_string(), amount: shares }];
                call(&mut state, &host, funds, ExecuteMsg::QueueUnbond { receiver: None })
            }
            3 => {
                let res = call(&mut state, &host, vec![], ExecuteMsg::SubmitBatch);
                if res.is_ok() {
                    submitted += 1;
                }
                res
            }
            4 => {
                // What has finished unbonding arrives, less what was slashed.
                let arrived = host.unbonding - host.unbonding * dice.roll(3) as u128 / 100;
                host.unbonding = 0;
                host.give(arrived);
                call(&mut state, &host, vec![], ExecuteMsg::Reconcile)
            }
            _ => {
                let res =
                    call(&mut state, &host, vec![], ExecuteMsg::WithdrawUnbonded { receiver: None });
                if res.is_ok() {
                    withdrawn += 1;
                }
                res
            }
        };
        match outcome {
            Ok(response) if host.can_carry_out(&response.messages) => {
                host.carry_out(&response.messages)
            }
            Ok(_) => {
                // A refund that the hub cannot pay: a shortfall went
                // unnoticed behind funds that are owed to other batches.
                assert_eq!(kind, 5);
                withdrawn -= 1;
                state = saved;
                undone += 1;
            }
            Err(e) => {
                // A call that fails leaves everything as it was. A shortfall
                // that one of the batches cannot carry fails the reconciling.
                let short = kind == 4 && e == ContractError::Overflow(OverflowOperation::Sub);
                assert!(
                    short
                        || matches!(
                            e,
                            ContractError::SubmitBatchAfter(_)
                                | ContractError::CantBeZero(Quantity::WithdrawableAmount)
                                | ContractError::DivideByZero
                        ),
                    "{:?} after {}",
                    e,
                    kind
                );
                assert_eq!(format!("{:?}", state), before);
            }
        }
        books_are_balanced(&state, &host);
    }
    assert!(submitted > 10 && withdrawn > 10, "{submitted} {withdrawn} {undone}");
    assert!(host.paid_out <= paid_in);
}
