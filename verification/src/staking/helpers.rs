//! Reading the ledger snapshot and the funds that come with a call.

use crate::hub::Coin;
use crate::names::contains;
use crate::names::contains_name;
use crate::staking::error::ContractError;
use crate::staking::error::OverflowOperation;
use crate::staking::state::Ledger;
use crate::staking::types::Delegation;
use vstd::prelude::*;

verus! {

//--------------------------------------------------------------------------------------------------
// Delegations
//--------------------------------------------------------------------------------------------------

/// The amount of the first delegation to `validator` at or after position
/// `i`, and zero where there is none.
pub open spec fn delegated_from(ds: Seq<Delegation>, validator: Seq<char>, i: int) -> u128
    decreases ds.len() - i,
{
    if i >= ds.len() {
        0
    } else if ds[i].validator@ == validator {
        ds[i].amount
    } else {
        delegated_from(ds, validator, i + 1)
    }
}

/// The amount delegated to `validator`, and zero where there is no delegation.
pub open spec fn delegated_to(ds: Seq<Delegation>, validator: Seq<char>) -> u128 {
    delegated_from(ds, validator, 0)
}

/// The delegations to the given validators, in their order.
pub open spec fn delegations_to(ds: Seq<Delegation>, validators: Seq<String>) -> Seq<Delegation> {
    Seq::new(
        validators.len(),
        |i: int|
            Delegation { validator: validators[i], amount: delegated_to(ds, validators[i]@) },
    )
}

/// The hub's delegation to one validator.
pub fn query_delegation(ledger: &Ledger, validator: &String) -> (r: Delegation)
    ensures
        r == (Delegation {
            validator: *validator,
            amount: delegated_to(ledger.delegations@, validator@),
        }),
{
    let mut i: usize = 0;
    while i < ledger.delegations.len()
        invariant
            0 <= i <= ledger.delegations.len(),
            delegated_to(ledger.delegations@, validator@) == delegated_from(
                ledger.delegations@,
                validator@,
                i as int,
            ),
        decreases ledger.delegations.len() - i,
    {
        if ledger.delegations[i].validator == *validator {
            return Delegation { validator: validator.clone(), amount: ledger.delegations[i].amount };
        }
        i = i + 1;
    }
    Delegation { validator: validator.clone(), amount: 0 }
}

/// The hub's delegations to the given validators, in their order.
pub fn query_delegations(ledger: &Ledger, validators: &Vec<String>) -> (r: Vec<Delegation>)
    ensures
        r@ == delegations_to(ledger.delegations@, validators@),
{
    let mut out: Vec<Delegation> = Vec::new();
    let mut i: usize = 0;
    while i < validators.len()
        invariant
            0 <= i <= validators.len(),
            out.len() == i,
            forall|j: int|
                0 <= j < i ==> #[trigger] out[j] == delegations_to(
                    ledger.delegations@,
                    validators@,
                )[j],
        decreases validators.len() - i,
    {
        out.push(query_delegation(ledger, &validators[i]));
        i = i + 1;
    }
    out
}

/// All of the hub's delegations, as the ledger lists them.
pub fn query_all_delegations(ledger: &Ledger) -> (r: Vec<Delegation>)
    ensures
        r@ == ledger.delegations@,
{
    let mut out: Vec<Delegation> = Vec::new();
    let mut i: usize = 0;
    while i < ledger.delegations.len()
        invariant
            0 <= i <= ledger.delegations.len(),
            out@ == ledger.delegations@.subrange(0, i as int),
        decreases ledger.delegations.len() - i,
    {
        out.push(ledger.delegations[i].clone());
        i = i + 1;
    }
    out
}

/// Fails unless the ledger knows the validator.
pub fn assert_validator_exists(ledger: &Ledger, validator: &String) -> (r: Result<
    (),
    ContractError,
>)
    ensures
        r == if contains_name(ledger.validators@, validator@) {
            Ok::<(), ContractError>(())
        } else {
            Err(ContractError::ValidatorNotFound(*validator))
        },
{
    if contains(&ledger.validators, validator) {
        Ok(())
    } else {
        Err(ContractError::ValidatorNotFound(validator.clone()))
    }
}

/// The position of the first of the first `k` validators that the ledger
/// does not know, and `k` where it knows them all.
pub open spec fn first_unknown(known: Seq<String>, validators: Seq<String>, k: int) -> int
    decreases k,
{
    if k <= 0 {
        0
    } else if first_unknown(known, validators, k - 1) < k - 1 {
        first_unknown(known, validators, k - 1)
    } else if contains_name(known, validators[k - 1]@) {
        k
    } else {
        k - 1
    }
}

/// Fails unless the ledger knows every validator; the error names the first
/// that it does not know.
pub fn assert_validators_exists(ledger: &Ledger, validators: &Vec<String>) -> (r: Result<
    (),
    ContractError,
>)
    ensures
        ({
            let at = first_unknown(ledger.validators@, validators@, validators.len() as int);
            r == if at == validators.len() {
                Ok::<(), ContractError>(())
            } else {
                Err(ContractError::ValidatorNotFound(validators[at]))
            }
        }),
{
    let mut i: usize = 0;
    while i < validators.len()
        invariant
            0 <= i <= validators.len(),
            first_unknown(ledger.validators@, validators@, i as int) == i,
        decreases validators.len() - i,
    {
        if !contains(&ledger.validators, &validators[i]) {
            proof {
                lemma_first_unknown_settled(
                    ledger.validators@,
                    validators@,
                    i + 1,
                    validators.len() as int,
                );
            }
            return Err(ContractError::ValidatorNotFound(validators[i].clone()));
        }
        i = i + 1;
    }
    Ok(())
}

proof fn lemma_first_unknown_settled(known: Seq<String>, validators: Seq<String>, k: int, j: int)
    requires
        0 < k <= j,
        first_unknown(known, validators, k) == k - 1,
    ensures
        first_unknown(known, validators, j) == k - 1,
    decreases j - k,
{
    if k < j {
        lemma_first_unknown_settled(known, validators, k, j - 1);
    }
}

//--------------------------------------------------------------------------------------------------
// Coins
//--------------------------------------------------------------------------------------------------

/// The position of the first coin of `denom` at or after position `i`, and
/// the number of coins where there is none.
pub open spec fn coin_index_from(coins: Seq<Coin>, denom: Seq<char>, i: int) -> int
    decreases coins.len() - i,
{
    if i >= coins.len() {
        coins.len() as int
    } else if coins[i].denom@ == denom {
        i
    } else {
        coin_index_from(coins, denom, i + 1)
    }
}

/// The position of the first coin of `denom`, and the number of coins where
/// there is none.
pub open spec fn coin_index(coins: Seq<Coin>, denom: Seq<char>) -> int {
    coin_index_from(coins, denom, 0)
}

/// The amount of the first coin of `denom`, and zero where there is none.
pub open spec fn amount_of(coins: Seq<Coin>, denom: Seq<char>) -> u128 {
    if coin_index(coins, denom) < coins.len() {
        coins[coin_index(coins, denom)].amount
    } else {
        0
    }
}

/// The position of the first coin of `denom`, if there is one.
pub fn find_coin(coins: &Vec<Coin>, denom: &String) -> (r: Option<usize>)
    ensures
        match r {
            Some(i) => i == coin_index(coins@, denom@) && i < coins.len(),
            None => coin_index(coins@, denom@) == coins.len(),
        },
{
    let mut i: usize = 0;
    while i < coins.len()
        invariant
            0 <= i <= coins.len(),
            coin_index(coins@, denom@) == coin_index_from(coins@, denom@, i as int),
        decreases coins.len() - i,
    {
        if coins[i].denom == *denom {
            return Some(i);
        }
        i = i + 1;
    }
    None
}

/// What the hub holds of `denom`.
pub fn query_balance(ledger: &Ledger, denom: &String) -> (r: u128)
    ensures
        r == amount_of(ledger.balances@, denom@),
{
    match find_coin(&ledger.balances, denom) {
        Some(i) => ledger.balances[i].amount,
        None => 0,
    }
}

/// The single coin of `denom` that came with the call.
pub open spec fn received_fund(funds: Seq<Coin>, denom: Seq<char>) -> Result<u128, ContractError> {
    if funds.len() != 1 {
        Err(ContractError::MustDepositExactlyOneCoin(funds.len() as usize))
    } else if funds[0].denom@ != denom {
        Err(ContractError::UnexpectedDeposit(funds[0].denom))
    } else if funds[0].amount == 0 {
        Err(ContractError::ZeroDeposit)
    } else {
        Ok(funds[0].amount)
    }
}

/// The amount that came with the call: exactly one coin, of `denom`, not zero.
pub fn parse_received_fund(funds: &Vec<Coin>, denom: &String) -> (r: Result<u128, ContractError>)
    ensures
        r == received_fund(funds@, denom@),
{
    if funds.len() != 1 {
        return Err(ContractError::MustDepositExactlyOneCoin(funds.len()));
    }
    let fund = &funds[0];
    if fund.denom != *denom {
        return Err(ContractError::UnexpectedDeposit(fund.denom.clone()));
    }
    if fund.amount == 0 {
        return Err(ContractError::ZeroDeposit);
    }
    Ok(fund.amount)
}

/// The coins once `coin` has been added: to the first coin of its denom, or
/// at the end where there is none.
pub open spec fn coins_with(coins: Seq<Coin>, coin: Coin) -> Seq<Coin> {
    let i = coin_index(coins, coin.denom@);
    if i < coins.len() {
        coins.update(
            i,
            Coin { denom: coins[i].denom, amount: (coins[i].amount + coin.amount) as u128 },
        )
    } else {
        coins.push(coin)
    }
}

/// Whether adding `coin` would take the coin of its denom beyond 128 bits.
pub open spec fn coins_overflow(coins: Seq<Coin>, coin: Coin) -> bool {
    let i = coin_index(coins, coin.denom@);
    i < coins.len() && coins[i].amount + coin.amount > u128::MAX
}

/// Adds `coin` to the coins.
pub fn add_coin(coins: &mut Vec<Coin>, coin: Coin) -> (r: Result<(), ContractError>)
    ensures
        r == if coins_overflow(old(coins)@, coin) {
            Err::<(), ContractError>(ContractError::Overflow(OverflowOperation::Add))
        } else {
            Ok(())
        },
        final(coins)@ == if coins_overflow(old(coins)@, coin) {
            old(coins)@
        } else {
            coins_with(old(coins)@, coin)
        },
{
    match find_coin(coins, &coin.denom) {
        Some(i) => {
            match coins[i].amount.checked_add(coin.amount) {
                Some(sum) => {
                    coins[i].amount = sum;
                    Ok(())
                },
                None => Err(ContractError::Overflow(OverflowOperation::Add)),
            }
        },
        None => {
            coins.push(coin);
            Ok(())
        },
    }
}

/// The first `k` coins without those of `denom`.
pub open spec fn coins_without_upto(coins: Seq<Coin>, denom: Seq<char>, k: int) -> Seq<Coin>
    decreases k,
{
    if k <= 0 {
        Seq::empty()
    } else if coins[k - 1].denom@ == denom {
        coins_without_upto(coins, denom, k - 1)
    } else {
        coins_without_upto(coins, denom, k - 1).push(coins[k - 1])
    }
}

/// The coins without those of `denom`.
pub open spec fn coins_without(coins: Seq<Coin>, denom: Seq<char>) -> Seq<Coin> {
    coins_without_upto(coins, denom, coins.len() as int)
}

/// Removes every coin of `denom`.
pub fn remove_denom(coins: &mut Vec<Coin>, denom: &String)
    ensures
        final(coins)@ == coins_without(old(coins)@, denom@),
{
    let mut out: Vec<Coin> = Vec::new();
    let mut i: usize = 0;
    while i < coins.len()
        invariant
            0 <= i <= coins.len(),
            coins@ == old(coins)@,
            out@ == coins_without_upto(coins@, denom@, i as int),
        decreases coins.len() - i,
    {
        if coins[i].denom != *denom {
            out.push(coins[i].clone());
        }
        i = i + 1;
    }
    *coins = out;
}

/// A copy of the coins.
pub fn clone_coins(coins: &Vec<Coin>) -> (r: Vec<Coin>)
    ensures
        r@ == coins@,
{
    let mut out: Vec<Coin> = Vec::new();
    let mut i: usize = 0;
    while i < coins.len()
        invariant
            0 <= i <= coins.len(),
            out@ == coins@.subrange(0, i as int),
        decreases coins.len() - i,
    {
        out.push(coins[i].clone());
        i = i + 1;
    }
    out
}

} // verus!
