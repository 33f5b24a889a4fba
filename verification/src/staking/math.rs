//! Mint and burn amounts, and the even spreading of stake over validators.

use crate::hub::Batch;
use crate::ratio::checked_multiply_ratio;
use crate::ratio::RatioError;
use crate::staking::error::ContractError;
use crate::staking::error::OverflowOperation;
use crate::staking::types::Delegation;
use crate::staking::types::Redelegation;
use crate::staking::types::Undelegation;
use vstd::arithmetic::div_mod::lemma_fundamental_div_mod;
use vstd::prelude::*;

verus! {

/// The sum of the first `k` delegated amounts.
pub open spec fn amount_sum(ds: Seq<Delegation>, k: int) -> nat
    decreases k,
{
    if k <= 0 {
        0
    } else {
        amount_sum(ds, k - 1) + ds[k - 1].amount as nat
    }
}

/// The sum of all delegated amounts.
pub open spec fn total_amount(ds: Seq<Delegation>) -> nat {
    amount_sum(ds, ds.len() as int)
}

/// Prefix sums never shrink.
pub proof fn lemma_amount_sum_monotonic(ds: Seq<Delegation>, i: int, j: int)
    requires
        i <= j,
    ensures
        amount_sum(ds, i) <= amount_sum(ds, j),
    decreases j - i,
{
    if i < j {
        lemma_amount_sum_monotonic(ds, i, j - 1);
    }
}

/// The sum of all delegated amounts, or `None` where it leaves 128 bits.
pub fn sum_delegations(ds: &[Delegation]) -> (r: Option<u128>)
    ensures
        match r {
            Some(total) => total == total_amount(ds@),
            None => total_amount(ds@) > u128::MAX,
        },
{
    let mut total: u128 = 0;
    let mut i: usize = 0;
    while i < ds.len()
        invariant
            i <= ds.len(),
            total == amount_sum(ds@, i as int),
        decreases ds.len() - i,
    {
        match total.checked_add(ds[i].amount) {
            Some(next) => {
                total = next;
            },
            None => {
                proof {
                    lemma_amount_sum_monotonic(ds@, i + 1, ds.len() as int);
                }
                return None;
            },
        }
        i = i + 1;
    }
    Some(total)
}

/// What `compute_mint_amount` returns, given the bonded total.
pub open spec fn mint_amount(supply: nat, deposit: nat, bonded: nat) -> Result<
    u128,
    ContractError,
> {
    if bonded > u128::MAX {
        Err(ContractError::Overflow(OverflowOperation::Add))
    } else if bonded == 0 {
        Ok(deposit as u128)
    } else if supply * deposit / bonded > u128::MAX {
        Err(ContractError::Overflow(OverflowOperation::Mul))
    } else {
        Ok((supply * deposit / bonded) as u128)
    }
}

/// The amount of stake token to mint for a deposit of `utoken_to_bond`.
///
/// With nothing bonded yet the deposit is minted one to one. Otherwise the
/// deposit buys `floor(supply * deposit / bonded)`, multiplied in full width.
pub fn compute_mint_amount(
    ustake_supply: u128,
    utoken_to_bond: u128,
    current_delegations: &[Delegation],
) -> (r: Result<u128, ContractError>)
    ensures
        r == mint_amount(
            ustake_supply as nat,
            utoken_to_bond as nat,
            total_amount(current_delegations@),
        ),
{
    match sum_delegations(current_delegations) {
        None => Err(ContractError::Overflow(OverflowOperation::Add)),
        Some(utoken_bonded) => {
            if utoken_bonded == 0 {
                Ok(utoken_to_bond)
            } else {
                match checked_multiply_ratio(ustake_supply, utoken_to_bond, utoken_bonded) {
                    Ok(v) => Ok(v),
                    Err(_) => Err(ContractError::Overflow(OverflowOperation::Mul)),
                }
            }
        },
    }
}

/// At par, where as much is bonded as there is supply, a deposit mints its
/// own amount; and so it does into an empty pool.
pub proof fn lemma_mint_at_par(supply: nat, deposit: nat, bonded: nat)
    requires
        deposit <= u128::MAX,
        bonded == 0 || bonded == supply,
        bonded <= u128::MAX,
    ensures
        mint_amount(supply, deposit, bonded) == Ok::<u128, ContractError>(deposit as u128),
{
    if bonded != 0 {
        assert(supply * deposit / bonded == deposit) by (nonlinear_arith)
            requires
                bonded == supply,
                bonded > 0,
        ;
    }
}

/// Bonding never lowers the exchange rate: after a deposit, the pool holds
/// at least as much base token for each unit of stake token as before.
pub proof fn lemma_bond_keeps_rate(supply: nat, deposit: nat, bonded: nat)
    requires
        bonded > 0,
        mint_amount(supply, deposit, bonded) is Ok,
    ensures
        bonded * (supply + mint_amount(supply, deposit, bonded)->Ok_0) <= (bonded + deposit)
            * supply,
{
    let minted = supply * deposit / bonded;
    assert(bonded * (supply + minted) <= (bonded + deposit) * supply) by (nonlinear_arith)
        requires
            bonded > 0,
            minted == supply * deposit / bonded,
    ;
}

/// What `compute_unbond_amount` returns, given the bonded total.
pub open spec fn unbond_amount(supply: nat, burn: nat, bonded: nat) -> Result<
    u128,
    ContractError,
> {
    if bonded > u128::MAX {
        Err(ContractError::Overflow(OverflowOperation::Add))
    } else if supply == 0 {
        Err(ContractError::DivideByZero)
    } else if bonded * burn / supply > u128::MAX {
        Err(ContractError::Overflow(OverflowOperation::Mul))
    } else {
        Ok((bonded * burn / supply) as u128)
    }
}

/// The amount of base token to unbond for a burn of `ustake_to_burn`:
/// `floor(bonded * burn / supply)`, multiplied in full width.
pub fn compute_unbond_amount(
    ustake_supply: u128,
    ustake_to_burn: u128,
    current_delegations: &[Delegation],
) -> (r: Result<u128, ContractError>)
    ensures
        r == unbond_amount(
            ustake_supply as nat,
            ustake_to_burn as nat,
            total_amount(current_delegations@),
        ),
{
    match sum_delegations(current_delegations) {
        None => Err(ContractError::Overflow(OverflowOperation::Add)),
        Some(utoken_bonded) => {
            match checked_multiply_ratio(utoken_bonded, ustake_to_burn, ustake_supply) {
                Ok(v) => Ok(v),
                Err(RatioError::DivideByZero) => Err(ContractError::DivideByZero),
                Err(RatioError::Overflow) => Err(ContractError::Overflow(OverflowOperation::Mul)),
            }
        },
    }
}

/// Unbonding never lowers the exchange rate: after a burn, what stays
/// bonded for each unit of stake token that stays is at least what it was.
pub proof fn lemma_unbond_keeps_rate(supply: nat, burn: nat, bonded: nat)
    requires
        burn <= supply,
        unbond_amount(supply, burn, bonded) is Ok,
    ensures
        unbond_amount(supply, burn, bonded)->Ok_0 <= bonded,
        bonded * (supply - burn) <= (bonded - unbond_amount(supply, burn, bonded)->Ok_0) * supply,
{
    let unbonded = bonded * burn / supply;
    assert(unbonded <= bonded && bonded * (supply - burn) <= (bonded - unbonded) * supply)
        by (nonlinear_arith)
        requires
            supply > 0,
            burn <= supply,
            unbonded == bonded * burn / supply,
    ;
}

/// The round trip pays no more than was paid in: whoever bonds a deposit and
/// burns what it minted gets back at most the deposit.
pub proof fn lemma_round_trip(supply: nat, deposit: nat, bonded: nat)
    requires
        bonded > 0,
        supply > 0,
        mint_amount(supply, deposit, bonded) is Ok,
        bonded + deposit <= u128::MAX,
    ensures
        ({
            let minted = mint_amount(supply, deposit, bonded)->Ok_0 as nat;
            &&& unbond_amount(supply + minted, minted, bonded + deposit) is Ok
            &&& unbond_amount(supply + minted, minted, bonded + deposit)->Ok_0 <= deposit
        }),
{
    let minted = supply * deposit / bonded;
    let back = (bonded + deposit) * minted / (supply + minted);
    assert(back <= deposit) by (nonlinear_arith)
        requires
            bonded > 0,
            supply > 0,
            minted == supply * deposit / bonded,
            back == (bonded + deposit) * minted / (supply + minted),
    ;
}

//--------------------------------------------------------------------------------------------------
// Even split
//--------------------------------------------------------------------------------------------------

/// The share of the validator at `index` when `total` is split evenly over
/// `count` validators: the quotient, and one unit more for each of the first
/// `total % count` validators.
pub open spec fn even_share(total: nat, count: nat, index: int) -> nat
    recommends
        count > 0,
{
    total / count + if index < total % count {
        1nat
    } else {
        0nat
    }
}

/// The sum of the even shares of the first `k` validators.
pub open spec fn even_share_sum(total: nat, count: nat, k: int) -> nat
    decreases k,
{
    if k <= 0 {
        0
    } else {
        even_share_sum(total, count, k - 1) + even_share(total, count, k - 1)
    }
}

proof fn lemma_even_share_prefix(total: nat, count: nat, k: int)
    requires
        count > 0,
        0 <= k,
    ensures
        even_share_sum(total, count, k) == k * (total / count) + if k <= total % count {
            k
        } else {
            (total % count) as int
        },
    decreases k,
{
    if k > 0 {
        lemma_even_share_prefix(total, count, k - 1);
        let q = (total / count) as int;
        assert(k * q == (k - 1) * q + q) by (nonlinear_arith);
    } else {
        assert(k * (total / count) == 0) by (nonlinear_arith)
            requires
                k == 0,
        ;
    }
}

/// The even shares of all `count` validators add up to `total`.
pub proof fn lemma_even_shares_add_up(total: nat, count: nat)
    requires
        count > 0,
    ensures
        even_share_sum(total, count, count as int) == total,
{
    lemma_even_share_prefix(total, count, count as int);
    lemma_fundamental_div_mod(total as int, count as int);
}

/// An even share is the quotient or one more, and never more than the total.
pub proof fn lemma_even_share_bounds(total: nat, count: nat, index: int)
    requires
        count > 0,
        0 <= index,
    ensures
        total / count <= even_share(total, count, index) <= total / count + 1,
        even_share(total, count, index) <= total,
{
    lemma_fundamental_div_mod(total as int, count as int);
    let q = (total / count) as int;
    let c = count as int;
    assert(c * q >= q) by (nonlinear_arith)
        requires
            c >= 1,
            q >= 0,
    ;
}

//--------------------------------------------------------------------------------------------------
// Undelegation spread
//--------------------------------------------------------------------------------------------------

/// What the validator at `i` holds above its even share of the stake that
/// stays once `to_unbond` has left.
pub open spec fn undelegation_excess(ds: Seq<Delegation>, to_unbond: nat, i: int) -> nat {
    let keep = even_share((total_amount(ds) - to_unbond) as nat, ds.len(), i);
    if ds[i].amount > keep {
        (ds[i].amount - keep) as nat
    } else {
        0
    }
}

/// The sum of the excesses of the first `k` validators.
pub open spec fn undelegation_excess_sum(ds: Seq<Delegation>, to_unbond: nat, k: int) -> nat
    decreases k,
{
    if k <= 0 {
        0
    } else {
        undelegation_excess_sum(ds, to_unbond, k - 1) + undelegation_excess(ds, to_unbond, k - 1)
    }
}

/// How much has been drawn from the first `k` validators: their excesses, in
/// list order, until `to_unbond` is reached.
pub open spec fn undelegated_before(ds: Seq<Delegation>, to_unbond: nat, k: int) -> nat {
    if undelegation_excess_sum(ds, to_unbond, k) < to_unbond {
        undelegation_excess_sum(ds, to_unbond, k)
    } else {
        to_unbond
    }
}

/// How much is drawn from the validator at `i`.
pub open spec fn undelegation_amount(ds: Seq<Delegation>, to_unbond: nat, i: int) -> nat {
    (undelegated_before(ds, to_unbond, i + 1) - undelegated_before(ds, to_unbond, i)) as nat
}

/// The undelegations from the first `k` validators: one for each validator
/// from which something is drawn, in list order.
pub open spec fn undelegations_upto(ds: Seq<Delegation>, to_unbond: nat, k: int) -> Seq<
    Undelegation,
>
    decreases k,
{
    if k <= 0 {
        Seq::empty()
    } else if undelegation_amount(ds, to_unbond, k - 1) > 0 {
        undelegations_upto(ds, to_unbond, k - 1).push(
            Undelegation {
                validator: ds[k - 1].validator,
                amount: undelegation_amount(ds, to_unbond, k - 1) as u128,
            },
        )
    } else {
        undelegations_upto(ds, to_unbond, k - 1)
    }
}

/// The undelegations that spread `to_unbond` over the validators.
pub open spec fn undelegations(ds: Seq<Delegation>, to_unbond: nat) -> Seq<Undelegation> {
    undelegations_upto(ds, to_unbond, ds.len() as int)
}

/// The sum of the first `k` undelegated amounts.
pub open spec fn undelegation_sum(us: Seq<Undelegation>, k: int) -> nat
    decreases k,
{
    if k <= 0 {
        0
    } else {
        undelegation_sum(us, k - 1) + us[k - 1].amount as nat
    }
}

/// The sum of all undelegated amounts.
pub open spec fn undelegation_total(us: Seq<Undelegation>) -> nat {
    undelegation_sum(us, us.len() as int)
}

proof fn lemma_undelegation_sum_push(us: Seq<Undelegation>, u: Undelegation)
    ensures
        undelegation_total(us.push(u)) == undelegation_total(us) + u.amount,
{
    let vs = us.push(u);
    lemma_undelegation_sum_prefix(us, vs, us.len() as int);
}

proof fn lemma_undelegation_sum_prefix(us: Seq<Undelegation>, vs: Seq<Undelegation>, k: int)
    requires
        0 <= k <= us.len(),
        k <= vs.len(),
        forall|i: int| 0 <= i < k ==> us[i] == vs[i],
    ensures
        undelegation_sum(us, k) == undelegation_sum(vs, k),
    decreases k,
{
    if k > 0 {
        lemma_undelegation_sum_prefix(us, vs, k - 1);
    }
}

proof fn lemma_undelegated_before_monotonic(ds: Seq<Delegation>, to_unbond: nat, i: int, j: int)
    requires
        i <= j,
    ensures
        undelegation_excess_sum(ds, to_unbond, i) <= undelegation_excess_sum(ds, to_unbond, j),
        undelegated_before(ds, to_unbond, i) <= undelegated_before(ds, to_unbond, j) <= to_unbond,
    decreases j - i,
{
    if i < j {
        lemma_undelegated_before_monotonic(ds, to_unbond, i, j - 1);
    }
}

/// Once the full amount has been drawn, the later validators add nothing.
proof fn lemma_undelegations_settled(ds: Seq<Delegation>, to_unbond: nat, k: int, j: int)
    requires
        0 <= k <= j,
        undelegated_before(ds, to_unbond, k) == to_unbond,
    ensures
        undelegations_upto(ds, to_unbond, j) == undelegations_upto(ds, to_unbond, k),
    decreases j - k,
{
    if k < j {
        lemma_undelegations_settled(ds, to_unbond, k, j - 1);
        lemma_undelegated_before_monotonic(ds, to_unbond, k, j - 1);
    }
}

/// What has been drawn from the first `k` validators is what their
/// undelegations add up to, and none of them is empty.
proof fn lemma_undelegations_account(ds: Seq<Delegation>, to_unbond: nat, k: int)
    requires
        0 <= k,
        to_unbond <= u128::MAX,
    ensures
        undelegation_total(undelegations_upto(ds, to_unbond, k)) == undelegated_before(
            ds,
            to_unbond,
            k,
        ),
        undelegations_upto(ds, to_unbond, k).len() <= k,
        forall|i: int|
            0 <= i < undelegations_upto(ds, to_unbond, k).len() ==> (
            #[trigger] undelegations_upto(ds, to_unbond, k)[i]).amount > 0,
    decreases k,
{
    if k > 0 {
        lemma_undelegations_account(ds, to_unbond, k - 1);
        let a = undelegation_amount(ds, to_unbond, k - 1);
        if a > 0 {
            lemma_undelegation_sum_push(
                undelegations_upto(ds, to_unbond, k - 1),
                Undelegation { validator: ds[k - 1].validator, amount: a as u128 },
            );
        }
    }
}

/// The excesses of the first `k` validators cover what these validators hold
/// above their even shares taken together.
proof fn lemma_excess_covers(ds: Seq<Delegation>, to_unbond: nat, k: int)
    requires
        0 <= k,
    ensures
        undelegation_excess_sum(ds, to_unbond, k) + even_share_sum(
            (total_amount(ds) - to_unbond) as nat,
            ds.len(),
            k,
        ) >= amount_sum(ds, k),
    decreases k,
{
    if k > 0 {
        lemma_excess_covers(ds, to_unbond, k - 1);
    }
}

/// The spread draws exactly `to_unbond`.
pub proof fn lemma_undelegations_draw_all(ds: Seq<Delegation>, to_unbond: nat)
    requires
        ds.len() > 0,
        to_unbond <= total_amount(ds),
        to_unbond <= u128::MAX,
    ensures
        undelegation_total(undelegations(ds, to_unbond)) == to_unbond,
        forall|i: int|
            0 <= i < undelegations(ds, to_unbond).len() ==> (#[trigger] undelegations(
                ds,
                to_unbond,
            )[i]).amount > 0,
{
    let n = ds.len() as int;
    lemma_undelegations_account(ds, to_unbond, n);
    lemma_excess_covers(ds, to_unbond, n);
    lemma_even_shares_add_up((total_amount(ds) - to_unbond) as nat, ds.len());
}

/// No validator is drawn below its even share of what stays: what is
/// drawn from it is at most what it holds above that share.
pub proof fn lemma_undelegation_within_excess(ds: Seq<Delegation>, to_unbond: nat, i: int)
    requires
        0 <= i < ds.len(),
    ensures
        undelegation_amount(ds, to_unbond, i) <= undelegation_excess(ds, to_unbond, i),
        undelegation_amount(ds, to_unbond, i) <= ds[i].amount,
{
}

proof fn lemma_excess_exact(ds: Seq<Delegation>, to_unbond: nat, k: int)
    requires
        0 <= k <= ds.len(),
        forall|j: int|
            0 <= j < ds.len() ==> (#[trigger] ds[j]).amount >= even_share(
                (total_amount(ds) - to_unbond) as nat,
                ds.len(),
                j,
            ),
    ensures
        undelegation_excess_sum(ds, to_unbond, k) + even_share_sum(
            (total_amount(ds) - to_unbond) as nat,
            ds.len(),
            k,
        ) == amount_sum(ds, k),
    decreases k,
{
    if k > 0 {
        lemma_excess_exact(ds, to_unbond, k - 1);
    }
}

/// Where every validator holds at least its even share of what stays, each
/// is drawn down to exactly that share: afterwards the validators differ by
/// one unit at most.
pub proof fn lemma_undelegations_even_out(ds: Seq<Delegation>, to_unbond: nat, i: int)
    requires
        0 <= i < ds.len(),
        to_unbond <= total_amount(ds),
        forall|j: int|
            0 <= j < ds.len() ==> (#[trigger] ds[j]).amount >= even_share(
                (total_amount(ds) - to_unbond) as nat,
                ds.len(),
                j,
            ),
    ensures
        ds[i].amount - undelegation_amount(ds, to_unbond, i) == even_share(
            (total_amount(ds) - to_unbond) as nat,
            ds.len(),
            i,
        ),
{
    let n = ds.len() as int;
    lemma_excess_exact(ds, to_unbond, n);
    lemma_even_shares_add_up((total_amount(ds) - to_unbond) as nat, ds.len());
    lemma_undelegated_before_monotonic(ds, to_unbond, i + 1, n);
}

/// Given the current delegations and an amount of base token to unbond,
/// the undelegations that leave the validators as even as undelegating can.
///
/// Each validator keeps its even share of what stays delegated; what it holds
/// above that is drawn, in list order, until the amount is reached.
pub fn compute_undelegations(utoken_to_unbond: u128, current_delegations: &[Delegation]) -> (out:
    Vec<Undelegation>)
    requires
        current_delegations.len() > 0,
        utoken_to_unbond <= total_amount(current_delegations@) <= u128::MAX,
    ensures
        out@ == undelegations(current_delegations@, utoken_to_unbond as nat),
        undelegation_total(out@) == utoken_to_unbond,
        forall|i: int| 0 <= i < out.len() ==> (#[trigger] out[i]).amount > 0,
{
    let ghost ds = current_delegations@;
    let ghost unbond = utoken_to_unbond as nat;
    let staked_opt = sum_delegations(current_delegations);
    let utoken_staked: u128 = staked_opt.unwrap();
    let n: usize = current_delegations.len();
    let validator_count: u128 = n as u128;

    let utoken_to_distribute: u128 = utoken_staked - utoken_to_unbond;
    let utoken_per_validator: u128 = utoken_to_distribute / validator_count;
    let remainder: u128 = utoken_to_distribute % validator_count;

    let mut new_undelegations: Vec<Undelegation> = Vec::new();
    let mut utoken_available: u128 = utoken_to_unbond;
    let mut i: usize = 0;
    while i < n
        invariant
            0 <= i <= n,
            n == ds.len(),
            ds == current_delegations@,
            validator_count == n,
            n > 0,
            unbond == utoken_to_unbond,
            utoken_to_unbond <= total_amount(ds) <= u128::MAX,
            utoken_to_distribute == total_amount(ds) - unbond,
            utoken_per_validator == utoken_to_distribute / validator_count,
            remainder == utoken_to_distribute % validator_count,
            new_undelegations@ == undelegations_upto(ds, unbond, i as int),
            utoken_available == unbond - undelegated_before(ds, unbond, i as int),
        ensures
            0 <= i <= n,
            new_undelegations@ == undelegations_upto(ds, unbond, i as int),
            i == n || undelegated_before(ds, unbond, i as int) == unbond,
        decreases n - i,
    {
        let d = &current_delegations[i];
        let remainder_for_validator: u128 = if (i + 1) as u128 <= remainder {
            1
        } else {
            0
        };
        proof {
            lemma_even_share_bounds(utoken_to_distribute as nat, n as nat, i as int);
        }
        let utoken_for_validator: u128 = utoken_per_validator + remainder_for_validator;

        let mut utoken_to_undelegate: u128 = if d.amount < utoken_for_validator {
            0
        } else {
            d.amount - utoken_for_validator
        };

        if utoken_available < utoken_to_undelegate {
            utoken_to_undelegate = utoken_available;
        }
        utoken_available = utoken_available - utoken_to_undelegate;

        if utoken_to_undelegate > 0 {
            new_undelegations.push(
                Undelegation { validator: d.validator.clone(), amount: utoken_to_undelegate },
            );
        }
        i = i + 1;

        if utoken_available == 0 {
            break ;
        }
    }
    proof {
        if i < n {
            lemma_undelegations_settled(ds, unbond, i as int, n as int);
        }
        lemma_undelegations_draw_all(ds, unbond);
    }
    new_undelegations
}

//--------------------------------------------------------------------------------------------------
// Removal redistribution
//--------------------------------------------------------------------------------------------------

/// What the validator at `i` lacks of its even share once the stake of the
/// removed validator, `removed`, has been spread over those that remain.
pub open spec fn removal_need(ds: Seq<Delegation>, removed: nat, i: int) -> nat {
    let target = even_share(total_amount(ds) + removed, ds.len(), i);
    if ds[i].amount < target {
        (target - ds[i].amount) as nat
    } else {
        0
    }
}

/// The sum of the needs of the first `k` validators.
pub open spec fn removal_need_sum(ds: Seq<Delegation>, removed: nat, k: int) -> nat
    decreases k,
{
    if k <= 0 {
        0
    } else {
        removal_need_sum(ds, removed, k - 1) + removal_need(ds, removed, k - 1)
    }
}

/// How much has been handed to the first `k` validators: their needs, in list
/// order, until `removed` is used up.
pub open spec fn redelegated_before(ds: Seq<Delegation>, removed: nat, k: int) -> nat {
    if removal_need_sum(ds, removed, k) < removed {
        removal_need_sum(ds, removed, k)
    } else {
        removed
    }
}

/// How much is handed to the validator at `i`.
pub open spec fn removal_amount(ds: Seq<Delegation>, removed: nat, i: int) -> nat {
    (redelegated_before(ds, removed, i + 1) - redelegated_before(ds, removed, i)) as nat
}

/// The redelegations to the first `k` validators: one for each validator that
/// is handed something, in list order, all from the removed validator.
pub open spec fn removal_redelegations_upto(
    from: Delegation,
    ds: Seq<Delegation>,
    k: int,
) -> Seq<Redelegation>
    decreases k,
{
    if k <= 0 {
        Seq::empty()
    } else if removal_amount(ds, from.amount as nat, k - 1) > 0 {
        removal_redelegations_upto(from, ds, k - 1).push(
            Redelegation {
                src: from.validator,
                dst: ds[k - 1].validator,
                amount: removal_amount(ds, from.amount as nat, k - 1) as u128,
            },
        )
    } else {
        removal_redelegations_upto(from, ds, k - 1)
    }
}

/// The redelegations that spread the stake of `from` over the validators `ds`.
pub open spec fn removal_redelegations(from: Delegation, ds: Seq<Delegation>) -> Seq<
    Redelegation,
> {
    removal_redelegations_upto(from, ds, ds.len() as int)
}

/// The sum of the first `k` redelegated amounts.
pub open spec fn redelegation_sum(rs: Seq<Redelegation>, k: int) -> nat
    decreases k,
{
    if k <= 0 {
        0
    } else {
        redelegation_sum(rs, k - 1) + rs[k - 1].amount as nat
    }
}

/// The sum of all redelegated amounts.
pub open spec fn redelegation_total(rs: Seq<Redelegation>) -> nat {
    redelegation_sum(rs, rs.len() as int)
}

proof fn lemma_redelegation_sum_prefix(rs: Seq<Redelegation>, ts: Seq<Redelegation>, k: int)
    requires
        0 <= k <= rs.len(),
        k <= ts.len(),
        forall|i: int| 0 <= i < k ==> rs[i] == ts[i],
    ensures
        redelegation_sum(rs, k) == redelegation_sum(ts, k),
    decreases k,
{
    if k > 0 {
        lemma_redelegation_sum_prefix(rs, ts, k - 1);
    }
}

proof fn lemma_redelegation_sum_push(rs: Seq<Redelegation>, r: Redelegation)
    ensures
        redelegation_total(rs.push(r)) == redelegation_total(rs) + r.amount,
{
    let ts = rs.push(r);
    lemma_redelegation_sum_prefix(rs, ts, rs.len() as int);
}

proof fn lemma_redelegated_before_monotonic(ds: Seq<Delegation>, removed: nat, i: int, j: int)
    requires
        i <= j,
    ensures
        removal_need_sum(ds, removed, i) <= removal_need_sum(ds, removed, j),
        redelegated_before(ds, removed, i) <= redelegated_before(ds, removed, j) <= removed,
    decreases j - i,
{
    if i < j {
        lemma_redelegated_before_monotonic(ds, removed, i, j - 1);
    }
}

/// Once the whole stake has been handed out, the later validators get nothing.
proof fn lemma_removal_settled(from: Delegation, ds: Seq<Delegation>, k: int, j: int)
    requires
        0 <= k <= j,
        redelegated_before(ds, from.amount as nat, k) == from.amount,
    ensures
        removal_redelegations_upto(from, ds, j) == removal_redelegations_upto(from, ds, k),
    decreases j - k,
{
    if k < j {
        lemma_removal_settled(from, ds, k, j - 1);
        lemma_redelegated_before_monotonic(ds, from.amount as nat, k, j - 1);
    }
}

/// What has been handed to the first `k` validators is what their
/// redelegations add up to, and none of them is empty.
proof fn lemma_removal_account(from: Delegation, ds: Seq<Delegation>, k: int)
    requires
        0 <= k,
    ensures
        redelegation_total(removal_redelegations_upto(from, ds, k)) == redelegated_before(
            ds,
            from.amount as nat,
            k,
        ),
        forall|i: int|
            0 <= i < removal_redelegations_upto(from, ds, k).len() ==> (
            #[trigger] removal_redelegations_upto(from, ds, k)[i]).amount > 0,
    decreases k,
{
    if k > 0 {
        let removed = from.amount as nat;
        lemma_removal_account(from, ds, k - 1);
        let a = removal_amount(ds, removed, k - 1);
        if a > 0 {
            lemma_redelegation_sum_push(
                removal_redelegations_upto(from, ds, k - 1),
                Redelegation {
                    src: from.validator,
                    dst: ds[k - 1].validator,
                    amount: a as u128,
                },
            );
        }
    }
}

/// The needs of the first `k` validators cover what these validators lack of
/// their even shares taken together.
proof fn lemma_need_covers(ds: Seq<Delegation>, removed: nat, k: int)
    requires
        0 <= k,
    ensures
        removal_need_sum(ds, removed, k) + amount_sum(ds, k) >= even_share_sum(
            total_amount(ds) + removed,
            ds.len(),
            k,
        ),
    decreases k,
{
    if k > 0 {
        lemma_need_covers(ds, removed, k - 1);
    }
}

/// The redistribution hands out exactly the stake of the removed validator.
pub proof fn lemma_removal_moves_all(from: Delegation, ds: Seq<Delegation>)
    requires
        ds.len() > 0,
    ensures
        redelegation_total(removal_redelegations(from, ds)) == from.amount,
        forall|i: int|
            0 <= i < removal_redelegations(from, ds).len() ==> (#[trigger] removal_redelegations(
                from,
                ds,
            )[i]).amount > 0,
{
    let n = ds.len() as int;
    lemma_removal_account(from, ds, n);
    lemma_need_covers(ds, from.amount as nat, n);
    lemma_even_shares_add_up(total_amount(ds) + from.amount as nat, ds.len());
}

/// No validator is raised above its even share of the combined stake: what
/// is handed to it is at most what it lacks of that share.
pub proof fn lemma_removal_within_need(ds: Seq<Delegation>, removed: nat, i: int)
    requires
        0 <= i < ds.len(),
    ensures
        removal_amount(ds, removed, i) <= removal_need(ds, removed, i),
{
}

proof fn lemma_need_exact(ds: Seq<Delegation>, removed: nat, k: int)
    requires
        0 <= k <= ds.len(),
        forall|j: int|
            0 <= j < ds.len() ==> (#[trigger] ds[j]).amount <= even_share(
                total_amount(ds) + removed,
                ds.len(),
                j,
            ),
    ensures
        removal_need_sum(ds, removed, k) + amount_sum(ds, k) == even_share_sum(
            total_amount(ds) + removed,
            ds.len(),
            k,
        ),
    decreases k,
{
    if k > 0 {
        lemma_need_exact(ds, removed, k - 1);
    }
}

/// Where no remaining validator holds more than its even share of the
/// combined stake, each is raised to exactly that share: afterwards the
/// validators differ by one unit at most.
pub proof fn lemma_removal_evens_out(ds: Seq<Delegation>, removed: nat, i: int)
    requires
        0 <= i < ds.len(),
        forall|j: int|
            0 <= j < ds.len() ==> (#[trigger] ds[j]).amount <= even_share(
                total_amount(ds) + removed,
                ds.len(),
                j,
            ),
    ensures
        ds[i].amount + removal_amount(ds, removed, i) == even_share(
            total_amount(ds) + removed,
            ds.len(),
            i,
        ),
{
    let n = ds.len() as int;
    lemma_need_exact(ds, removed, n);
    lemma_even_shares_add_up(total_amount(ds) + removed, ds.len());
    lemma_redelegated_before_monotonic(ds, removed, i + 1, n);
}

/// Given a validator that leaves the whitelist and the delegations to those
/// that remain, the redelegations that leave the remaining validators as even
/// as handing out can.
///
/// Each remaining validator is handed what it lacks of its even share of the
/// combined stake, in list order, until the stake of the leaving validator is
/// used up.
pub fn compute_redelegations_for_removal(
    delegation_to_remove: &Delegation,
    current_delegations: &[Delegation],
) -> (out: Vec<Redelegation>)
    requires
        current_delegations.len() > 0,
        total_amount(current_delegations@) + delegation_to_remove.amount <= u128::MAX,
    ensures
        out@ == removal_redelegations(*delegation_to_remove, current_delegations@),
        redelegation_total(out@) == delegation_to_remove.amount,
        forall|i: int| 0 <= i < out.len() ==> (#[trigger] out[i]).amount > 0,
{
    let ghost ds = current_delegations@;
    let ghost from = *delegation_to_remove;
    let ghost removed = delegation_to_remove.amount as nat;
    let staked_opt = sum_delegations(current_delegations);
    let utoken_staked: u128 = staked_opt.unwrap();
    let n: usize = current_delegations.len();
    let validator_count: u128 = n as u128;

    let utoken_to_distribute: u128 = utoken_staked + delegation_to_remove.amount;
    let utoken_per_validator: u128 = utoken_to_distribute / validator_count;
    let remainder: u128 = utoken_to_distribute % validator_count;

    let mut new_redelegations: Vec<Redelegation> = Vec::new();
    let mut utoken_available: u128 = delegation_to_remove.amount;
    let mut i: usize = 0;
    while i < n
        invariant
            0 <= i <= n,
            n == ds.len(),
            ds == current_delegations@,
            from == *delegation_to_remove,
            removed == from.amount,
            validator_count == n,
            n > 0,
            utoken_to_distribute == total_amount(ds) + removed,
            utoken_per_validator == utoken_to_distribute / validator_count,
            remainder == utoken_to_distribute % validator_count,
            new_redelegations@ == removal_redelegations_upto(from, ds, i as int),
            utoken_available == removed - redelegated_before(ds, removed, i as int),
        ensures
            0 <= i <= n,
            new_redelegations@ == removal_redelegations_upto(from, ds, i as int),
            i == n || redelegated_before(ds, removed, i as int) == removed,
        decreases n - i,
    {
        let d = &current_delegations[i];
        let remainder_for_validator: u128 = if (i + 1) as u128 <= remainder {
            1
        } else {
            0
        };
        proof {
            lemma_even_share_bounds(utoken_to_distribute as nat, n as nat, i as int);
        }
        let utoken_for_validator: u128 = utoken_per_validator + remainder_for_validator;

        let mut utoken_to_redelegate: u128 = if d.amount > utoken_for_validator {
            0
        } else {
            utoken_for_validator - d.amount
        };

        if utoken_available < utoken_to_redelegate {
            utoken_to_redelegate = utoken_available;
        }
        utoken_available = utoken_available - utoken_to_redelegate;

        if utoken_to_redelegate > 0 {
            new_redelegations.push(
                Redelegation {
                    src: delegation_to_remove.validator.clone(),
                    dst: d.validator.clone(),
                    amount: utoken_to_redelegate,
                },
            );
        }
        i = i + 1;

        if utoken_available == 0 {
            break ;
        }
    }
    proof {
        if i < n {
            lemma_removal_settled(from, ds, i as int, n as int);
        }
        lemma_removal_moves_all(from, ds);
    }
    new_redelegations
}

//--------------------------------------------------------------------------------------------------
// Rebalancing
//--------------------------------------------------------------------------------------------------

/// The even share of the whole stake that the validator at `i` is to hold.
pub open spec fn rebalance_target(ds: Seq<Delegation>, i: int) -> nat {
    even_share(total_amount(ds), ds.len(), i)
}

/// Those of the first `k` validators that hold more than their target, each
/// with what it holds above it, in list order.
pub open spec fn surpluses_upto(ds: Seq<Delegation>, k: int) -> Seq<Delegation>
    decreases k,
{
    if k <= 0 {
        Seq::empty()
    } else if ds[k - 1].amount > rebalance_target(ds, k - 1) {
        surpluses_upto(ds, k - 1).push(
            Delegation {
                validator: ds[k - 1].validator,
                amount: (ds[k - 1].amount - rebalance_target(ds, k - 1)) as u128,
            },
        )
    } else {
        surpluses_upto(ds, k - 1)
    }
}

/// Those of the first `k` validators that hold less than their target, each
/// with what it lacks of it, in list order.
pub open spec fn deficits_upto(ds: Seq<Delegation>, k: int) -> Seq<Delegation>
    decreases k,
{
    if k <= 0 {
        Seq::empty()
    } else if ds[k - 1].amount < rebalance_target(ds, k - 1) {
        deficits_upto(ds, k - 1).push(
            Delegation {
                validator: ds[k - 1].validator,
                amount: (rebalance_target(ds, k - 1) - ds[k - 1].amount) as u128,
            },
        )
    } else {
        deficits_upto(ds, k - 1)
    }
}

/// The validators above their target, with their surpluses.
pub open spec fn surpluses(ds: Seq<Delegation>) -> Seq<Delegation> {
    surpluses_upto(ds, ds.len() as int)
}

/// The validators below their target, with their deficits.
pub open spec fn deficits(ds: Seq<Delegation>) -> Seq<Delegation> {
    deficits_upto(ds, ds.len() as int)
}

/// The smaller of two amounts.
pub open spec fn smaller(a: u128, b: u128) -> u128 {
    if a <= b {
        a
    } else {
        b
    }
}

/// `xs` once `taken` has been drawn from its first entry: the entry leaves
/// where nothing is left of it.
pub open spec fn after_first_taken(xs: Seq<Delegation>, taken: u128) -> Seq<Delegation>
    recommends
        xs.len() > 0,
        taken <= xs[0].amount,
{
    if xs[0].amount == taken {
        xs.drop_first()
    } else {
        xs.update(0, Delegation { validator: xs[0].validator, amount: (xs[0].amount - taken) as u128 })
    }
}

/// Greedy matching: the first source gives to the first destination as much
/// as the smaller of the two allows, and so on until one list is used up.
pub open spec fn pair_off(srcs: Seq<Delegation>, dsts: Seq<Delegation>) -> Seq<Redelegation>
    decreases srcs.len() + dsts.len(),
{
    if srcs.len() == 0 || dsts.len() == 0 {
        Seq::empty()
    } else {
        let moved = smaller(srcs[0].amount, dsts[0].amount);
        seq![Redelegation { src: srcs[0].validator, dst: dsts[0].validator, amount: moved }]
            + pair_off(after_first_taken(srcs, moved), after_first_taken(dsts, moved))
    }
}

/// The redelegations that bring every validator to its target.
pub open spec fn rebalancing_redelegations(ds: Seq<Delegation>) -> Seq<Redelegation> {
    pair_off(surpluses(ds), deficits(ds))
}

/// Every entry holds a positive amount.
pub open spec fn all_positive(xs: Seq<Delegation>) -> bool {
    forall|i: int| 0 <= i < xs.len() ==> (#[trigger] xs[i]).amount > 0
}

pub proof fn lemma_amount_sum_prefix(xs: Seq<Delegation>, ys: Seq<Delegation>, k: int)
    requires
        0 <= k <= xs.len(),
        k <= ys.len(),
        forall|i: int| 0 <= i < k ==> xs[i].amount == ys[i].amount,
    ensures
        amount_sum(xs, k) == amount_sum(ys, k),
    decreases k,
{
    if k > 0 {
        lemma_amount_sum_prefix(xs, ys, k - 1);
    }
}

pub proof fn lemma_total_amount_push(xs: Seq<Delegation>, x: Delegation)
    ensures
        total_amount(xs.push(x)) == total_amount(xs) + x.amount,
{
    lemma_amount_sum_prefix(xs, xs.push(x), xs.len() as int);
}

proof fn lemma_amount_sum_drop_first(xs: Seq<Delegation>, k: int)
    requires
        0 <= k < xs.len(),
    ensures
        amount_sum(xs.drop_first(), k) + xs[0].amount == amount_sum(xs, k + 1),
    decreases k,
{
    if k > 0 {
        lemma_amount_sum_drop_first(xs, k - 1);
    } else {
        assert(amount_sum(xs, 0) == 0);
    }
}

proof fn lemma_amount_sum_update_first(xs: Seq<Delegation>, x: Delegation, k: int)
    requires
        1 <= k <= xs.len(),
    ensures
        amount_sum(xs.update(0, x), k) + xs[0].amount == amount_sum(xs, k) + x.amount,
    decreases k,
{
    if k > 1 {
        lemma_amount_sum_update_first(xs, x, k - 1);
    } else {
        assert(amount_sum(xs, 0) == 0);
        assert(amount_sum(xs.update(0, x), 0) == 0);
    }
}

/// Drawing from the first entry lowers the total by what was drawn, and
/// leaves positive entries positive.
pub proof fn lemma_after_first_taken(xs: Seq<Delegation>, taken: u128)
    requires
        xs.len() > 0,
        taken <= xs[0].amount,
    ensures
        total_amount(after_first_taken(xs, taken)) + taken == total_amount(xs),
        all_positive(xs) ==> all_positive(after_first_taken(xs, taken)),
        after_first_taken(xs, taken).len() == if xs[0].amount == taken {
            xs.len() - 1
        } else {
            xs.len() as int
        },
{
    if xs[0].amount == taken {
        lemma_amount_sum_drop_first(xs, xs.len() - 1);
    } else {
        let x = Delegation { validator: xs[0].validator, amount: (xs[0].amount - taken) as u128 };
        lemma_amount_sum_update_first(xs, x, xs.len() as int);
    }
}

/// Greedy matching moves the smaller of the two totals, and never moves
/// nothing between positive entries.
pub proof fn lemma_pair_off_total(srcs: Seq<Delegation>, dsts: Seq<Delegation>)
    ensures
        redelegation_total(pair_off(srcs, dsts)) == if total_amount(srcs) <= total_amount(dsts) {
            total_amount(srcs)
        } else {
            total_amount(dsts)
        },
        all_positive(srcs) && all_positive(dsts) ==> forall|i: int|
            0 <= i < pair_off(srcs, dsts).len() ==> (#[trigger] pair_off(srcs, dsts)[i]).amount > 0,
    decreases srcs.len() + dsts.len(),
{
    if !(srcs.len() == 0 || dsts.len() == 0) {
        let moved = smaller(srcs[0].amount, dsts[0].amount);
        let srcs1 = after_first_taken(srcs, moved);
        let dsts1 = after_first_taken(dsts, moved);
        let first = Redelegation { src: srcs[0].validator, dst: dsts[0].validator, amount: moved };
        let rest = pair_off(srcs1, dsts1);
        lemma_after_first_taken(srcs, moved);
        lemma_after_first_taken(dsts, moved);
        lemma_pair_off_total(srcs1, dsts1);
        lemma_redelegation_total_cons(first, rest);
    }
}

proof fn lemma_redelegation_sum_cons(first: Redelegation, rest: Seq<Redelegation>, k: int)
    requires
        0 <= k <= rest.len(),
    ensures
        redelegation_sum(seq![first] + rest, k + 1) == first.amount + redelegation_sum(rest, k),
    decreases k,
{
    let all = seq![first] + rest;
    if k > 0 {
        lemma_redelegation_sum_cons(first, rest, k - 1);
    } else {
        assert(redelegation_sum(all, 0) == 0);
    }
}

proof fn lemma_redelegation_total_cons(first: Redelegation, rest: Seq<Redelegation>)
    ensures
        redelegation_total(seq![first] + rest) == first.amount + redelegation_total(rest),
{
    lemma_redelegation_sum_cons(first, rest, rest.len() as int);
}

/// Surpluses and deficits are positive, and together with the targets they
/// account for what the validators hold.
pub proof fn lemma_surpluses_deficits(ds: Seq<Delegation>, k: int)
    requires
        0 <= k <= ds.len(),
        total_amount(ds) <= u128::MAX,
    ensures
        all_positive(surpluses_upto(ds, k)),
        all_positive(deficits_upto(ds, k)),
        total_amount(surpluses_upto(ds, k)) + even_share_sum(total_amount(ds), ds.len(), k)
            == amount_sum(ds, k) + total_amount(deficits_upto(ds, k)),
    decreases k,
{
    if k > 0 {
        lemma_surpluses_deficits(ds, k - 1);
        lemma_even_share_bounds(total_amount(ds), ds.len(), k - 1);
        let target = rebalance_target(ds, k - 1);
        if ds[k - 1].amount > target {
            lemma_total_amount_push(
                surpluses_upto(ds, k - 1),
                Delegation {
                    validator: ds[k - 1].validator,
                    amount: (ds[k - 1].amount - target) as u128,
                },
            );
        } else if ds[k - 1].amount < target {
            lemma_total_amount_push(
                deficits_upto(ds, k - 1),
                Delegation {
                    validator: ds[k - 1].validator,
                    amount: (target - ds[k - 1].amount) as u128,
                },
            );
        }
    }
}

/// Rebalancing moves exactly the combined surplus, which is the combined
/// deficit, and never moves nothing.
pub proof fn lemma_rebalancing_moves_surplus(ds: Seq<Delegation>)
    requires
        ds.len() > 0,
        total_amount(ds) <= u128::MAX,
    ensures
        total_amount(surpluses(ds)) == total_amount(deficits(ds)),
        redelegation_total(rebalancing_redelegations(ds)) == total_amount(surpluses(ds)),
        forall|i: int|
            0 <= i < rebalancing_redelegations(ds).len() ==> (#[trigger] rebalancing_redelegations(
                ds,
            )[i]).amount > 0,
{
    lemma_surpluses_deficits(ds, ds.len() as int);
    lemma_even_shares_add_up(total_amount(ds), ds.len());
    lemma_pair_off_total(surpluses(ds), deficits(ds));
}

/// The redelegations that bring every validator to its even share of the
/// whole stake.
///
/// Validators above their share give, validators below it receive; the first
/// giver is matched with the first receiver for as much as the smaller of the
/// two allows, until no giver or no receiver is left.
pub fn compute_redelegations_for_rebalancing(current_delegations: &[Delegation]) -> (out: Vec<
    Redelegation,
>)
    requires
        current_delegations.len() > 0,
        total_amount(current_delegations@) <= u128::MAX,
    ensures
        out@ == rebalancing_redelegations(current_delegations@),
        redelegation_total(out@) == total_amount(surpluses(current_delegations@)),
        forall|i: int| 0 <= i < out.len() ==> (#[trigger] out[i]).amount > 0,
{
    let ghost ds = current_delegations@;
    let staked_opt = sum_delegations(current_delegations);
    let utoken_staked: u128 = staked_opt.unwrap();
    let n: usize = current_delegations.len();
    let validator_count: u128 = n as u128;

    let utoken_per_validator: u128 = utoken_staked / validator_count;
    let remainder: u128 = utoken_staked % validator_count;

    let mut src_delegations: Vec<Delegation> = Vec::new();
    let mut dst_delegations: Vec<Delegation> = Vec::new();
    let mut i: usize = 0;
    while i < n
        invariant
            0 <= i <= n,
            n == ds.len(),
            ds == current_delegations@,
            validator_count == n,
            n > 0,
            utoken_staked == total_amount(ds),
            utoken_per_validator == utoken_staked / validator_count,
            remainder == utoken_staked % validator_count,
            src_delegations@ == surpluses_upto(ds, i as int),
            dst_delegations@ == deficits_upto(ds, i as int),
        decreases n - i,
    {
        let d = &current_delegations[i];
        let remainder_for_validator: u128 = if (i + 1) as u128 <= remainder {
            1
        } else {
            0
        };
        proof {
            lemma_even_share_bounds(utoken_staked as nat, n as nat, i as int);
        }
        let utoken_for_validator: u128 = utoken_per_validator + remainder_for_validator;

        if d.amount > utoken_for_validator {
            src_delegations.push(
                Delegation {
                    validator: d.validator.clone(),
                    amount: d.amount - utoken_for_validator,
                },
            );
        } else if d.amount < utoken_for_validator {
            dst_delegations.push(
                Delegation {
                    validator: d.validator.clone(),
                    amount: utoken_for_validator - d.amount,
                },
            );
        }
        i = i + 1;
    }

    let mut new_redelegations: Vec<Redelegation> = Vec::new();
    while src_delegations.len() > 0 && dst_delegations.len() > 0
        invariant
            new_redelegations@ + pair_off(src_delegations@, dst_delegations@) == pair_off(
                surpluses(ds),
                deficits(ds),
            ),
        decreases src_delegations.len() + dst_delegations.len(),
    {
        let src_delegation = src_delegations[0].clone();
        let dst_delegation = dst_delegations[0].clone();
        let utoken_to_redelegate: u128 = if src_delegation.amount <= dst_delegation.amount {
            src_delegation.amount
        } else {
            dst_delegation.amount
        };

        if src_delegation.amount == utoken_to_redelegate {
            src_delegations.remove(0);
        } else {
            src_delegations[0].amount = src_delegation.amount - utoken_to_redelegate;
        }

        if dst_delegation.amount == utoken_to_redelegate {
            dst_delegations.remove(0);
        } else {
            dst_delegations[0].amount = dst_delegation.amount - utoken_to_redelegate;
        }

        let redelegation = Redelegation {
            src: src_delegation.validator,
            dst: dst_delegation.validator,
            amount: utoken_to_redelegate,
        };
        new_redelegations.push(redelegation);
    }
    proof {
        lemma_rebalancing_moves_surplus(ds);
    }
    new_redelegations
}

//--------------------------------------------------------------------------------------------------
// Batch reconciliation
//--------------------------------------------------------------------------------------------------

/// Whether every batch holds at least its even share of `deduct`.
pub open spec fn can_absorb(bs: Seq<Batch>, deduct: nat) -> bool {
    forall|i: int|
        0 <= i < bs.len() ==> (#[trigger] bs[i]).utoken_unclaimed >= even_share(
            deduct,
            bs.len(),
            i,
        )
}

/// The batches once each has given up its even share of `deduct` and has been
/// marked as reconciled.
pub open spec fn deducted(bs: Seq<Batch>, deduct: nat) -> Seq<Batch> {
    Seq::new(
        bs.len(),
        |i: int|
            Batch {
                reconciled: true,
                utoken_unclaimed: (bs[i].utoken_unclaimed - even_share(deduct, bs.len(), i)) as u128,
                ..bs[i]
            },
    )
}

/// The batches once each has been marked as reconciled.
pub open spec fn marked(bs: Seq<Batch>) -> Seq<Batch> {
    Seq::new(bs.len(), |i: int| Batch { reconciled: true, ..bs[i] })
}

/// What `reconcile_batches` makes of the batches, or why it leaves them.
pub open spec fn reconcile_batches_result(bs: Seq<Batch>, deduct: nat) -> Result<
    Seq<Batch>,
    ContractError,
> {
    if bs.len() == 0 {
        Err(ContractError::DivideByZero)
    } else if !can_absorb(bs, deduct) {
        Err(ContractError::Overflow(OverflowOperation::Sub))
    } else {
        Ok(deducted(bs, deduct))
    }
}

/// The unclaimed amounts of the first `k` batches, added up.
pub open spec fn unclaimed_sum(bs: Seq<Batch>, k: int) -> nat
    decreases k,
{
    if k <= 0 {
        0
    } else {
        unclaimed_sum(bs, k - 1) + bs[k - 1].utoken_unclaimed as nat
    }
}

/// The unclaimed amounts of all batches, added up.
pub open spec fn unclaimed_total(bs: Seq<Batch>) -> nat {
    unclaimed_sum(bs, bs.len() as int)
}

proof fn lemma_deducted_prefix(bs: Seq<Batch>, deduct: nat, k: int)
    requires
        0 <= k <= bs.len(),
        can_absorb(bs, deduct),
    ensures
        unclaimed_sum(deducted(bs, deduct), k) + even_share_sum(deduct, bs.len(), k)
            == unclaimed_sum(bs, k),
    decreases k,
{
    if k > 0 {
        lemma_deducted_prefix(bs, deduct, k - 1);
    }
}

/// The deductions add up to the amount that was to be deducted.
pub proof fn lemma_deductions_add_up(bs: Seq<Batch>, deduct: nat)
    requires
        bs.len() > 0,
        can_absorb(bs, deduct),
    ensures
        unclaimed_total(deducted(bs, deduct)) + deduct == unclaimed_total(bs),
{
    lemma_deducted_prefix(bs, deduct, bs.len() as int);
    lemma_even_shares_add_up(deduct, bs.len());
}

/// Deducts a shortfall evenly from the batches and marks them as reconciled:
/// each gives `deduct / n`, and the first `deduct % n` give one unit more.
///
/// Nothing is changed where there is no batch, or where a batch holds less
/// than it is to give.
pub fn reconcile_batches(batches: &mut Vec<Batch>, utoken_to_deduct: u128) -> (r: Result<
    (),
    ContractError,
>)
    ensures
        match reconcile_batches_result(old(batches)@, utoken_to_deduct as nat) {
            Ok(bs) => r is Ok && final(batches)@ == bs && unclaimed_total(bs) + utoken_to_deduct
                == unclaimed_total(old(batches)@),
            Err(e) => r == Err::<(), ContractError>(e) && final(batches)@ == old(batches)@,
        },
{
    let n: usize = batches.len();
    if n == 0 {
        return Err(ContractError::DivideByZero);
    }
    let ghost bs = batches@;
    let ghost deduct = utoken_to_deduct as nat;
    let batch_count: u128 = n as u128;
    let utoken_per_batch: u128 = utoken_to_deduct / batch_count;
    let remainder: u128 = utoken_to_deduct % batch_count;

    let mut out: Vec<Batch> = Vec::new();
    let mut i: usize = 0;
    while i < n
        invariant
            0 <= i <= n,
            n == bs.len(),
            n > 0,
            bs == batches@,
            deduct == utoken_to_deduct,
            batch_count == n,
            utoken_per_batch == utoken_to_deduct / batch_count,
            remainder == utoken_to_deduct % batch_count,
            out.len() == i,
            forall|j: int|
                0 <= j < i ==> (#[trigger] bs[j]).utoken_unclaimed >= even_share(
                    deduct,
                    bs.len(),
                    j,
                ),
            forall|j: int| 0 <= j < i ==> #[trigger] out[j] == deducted(bs, deduct)[j],
        decreases n - i,
    {
        let batch = batches[i];
        let remainder_for_batch: u128 = if (i + 1) as u128 <= remainder {
            1
        } else {
            0
        };
        proof {
            lemma_even_share_bounds(deduct, n as nat, i as int);
        }
        let utoken_for_batch: u128 = utoken_per_batch + remainder_for_batch;
        if batch.utoken_unclaimed < utoken_for_batch {
            return Err(ContractError::Overflow(OverflowOperation::Sub));
        }
        out.push(
            Batch {
                id: batch.id,
                reconciled: true,
                total_shares: batch.total_shares,
                utoken_unclaimed: batch.utoken_unclaimed - utoken_for_batch,
                est_unbond_end_time: batch.est_unbond_end_time,
            },
        );
        i = i + 1;
    }
    proof {
        lemma_deductions_add_up(bs, deduct);
    }
    *batches = out;
    Ok(())
}

/// Marks every batch as reconciled and changes nothing else.
pub fn mark_reconciled_batches(batches: &mut Vec<Batch>)
    ensures
        final(batches)@ == marked(old(batches)@),
{
    let n: usize = batches.len();
    let ghost bs = batches@;
    let mut i: usize = 0;
    while i < n
        invariant
            0 <= i <= n,
            n == bs.len(),
            batches.len() == n,
            forall|j: int| 0 <= j < i ==> #[trigger] batches[j] == marked(bs)[j],
            forall|j: int| i <= j < n ==> #[trigger] batches[j] == bs[j],
        decreases n - i,
    {
        batches[i].reconciled = true;
        i = i + 1;
    }
}

/// No more is moved than is staked.
pub proof fn lemma_surplus_within_stake(ds: Seq<Delegation>, k: int)
    requires
        0 <= k <= ds.len(),
        total_amount(ds) <= u128::MAX,
    ensures
        total_amount(surpluses_upto(ds, k)) <= amount_sum(ds, k),
    decreases k,
{
    if k > 0 {
        lemma_surplus_within_stake(ds, k - 1);
        lemma_even_share_bounds(total_amount(ds), ds.len(), k - 1);
        let target = rebalance_target(ds, k - 1);
        if ds[k - 1].amount > target {
            lemma_total_amount_push(
                surpluses_upto(ds, k - 1),
                Delegation {
                    validator: ds[k - 1].validator,
                    amount: (ds[k - 1].amount - target) as u128,
                },
            );
        }
    }
}

/// Those of the first `k` redelegations that move at least `least`.
pub open spec fn at_least_upto(rs: Seq<Redelegation>, least: u128, k: int) -> Seq<Redelegation>
    decreases k,
{
    if k <= 0 {
        Seq::empty()
    } else if rs[k - 1].amount >= least {
        at_least_upto(rs, least, k - 1).push(rs[k - 1])
    } else {
        at_least_upto(rs, least, k - 1)
    }
}

/// The redelegations that move at least `least`, in their order.
pub open spec fn at_least(rs: Seq<Redelegation>, least: u128) -> Seq<Redelegation> {
    at_least_upto(rs, least, rs.len() as int)
}

/// Leaving redelegations out does not raise what is moved.
pub proof fn lemma_at_least_total(rs: Seq<Redelegation>, least: u128, k: int)
    requires
        0 <= k <= rs.len(),
    ensures
        redelegation_total(at_least_upto(rs, least, k)) <= redelegation_sum(rs, k),
    decreases k,
{
    if k > 0 {
        lemma_at_least_total(rs, least, k - 1);
        if rs[k - 1].amount >= least {
            lemma_redelegation_sum_push(at_least_upto(rs, least, k - 1), rs[k - 1]);
        }
    }
}

/// Appending a redelegation adds its amount to the total.
pub proof fn lemma_redelegation_total_push(rs: Seq<Redelegation>, r: Redelegation)
    ensures
        redelegation_total(rs.push(r)) == redelegation_total(rs) + r.amount,
{
    lemma_redelegation_sum_push(rs, r);
}

/// Prefix sums of redelegated amounts never shrink.
pub proof fn lemma_redelegation_sum_monotonic(rs: Seq<Redelegation>, i: int, j: int)
    requires
        i <= j,
    ensures
        redelegation_sum(rs, i) <= redelegation_sum(rs, j),
    decreases j - i,
{
    if i < j {
        lemma_redelegation_sum_monotonic(rs, i, j - 1);
    }
}

} // verus!
