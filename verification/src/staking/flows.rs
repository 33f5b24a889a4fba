//! What rebalancing comes to for each validator: after the redelegations,
//! every validator holds its even share.

use crate::staking::math::after_first_taken;
use crate::staking::math::all_positive;
use crate::staking::math::deficits;
use crate::staking::math::deficits_upto;
use crate::staking::math::lemma_after_first_taken;
use crate::staking::math::lemma_even_share_bounds;
use crate::staking::math::lemma_even_shares_add_up;
use crate::staking::math::lemma_surpluses_deficits;
use crate::staking::math::pair_off;
use crate::staking::math::rebalance_target;
use crate::staking::math::rebalancing_redelegations;
use crate::staking::math::smaller;
use crate::staking::math::surpluses;
use crate::staking::math::surpluses_upto;
use crate::staking::math::total_amount;
use crate::staking::types::Delegation;
use crate::staking::types::Redelegation;
use vstd::prelude::*;

verus! {

/// What the first `k` entries hold for the validator `v`.
pub open spec fn named_upto(xs: Seq<Delegation>, v: Seq<char>, k: int) -> nat
    decreases k,
{
    if k <= 0 {
        0
    } else if xs[k - 1].validator@ == v {
        named_upto(xs, v, k - 1) + xs[k - 1].amount as nat
    } else {
        named_upto(xs, v, k - 1)
    }
}

/// What the entries hold for the validator `v`.
pub open spec fn named(xs: Seq<Delegation>, v: Seq<char>) -> nat {
    named_upto(xs, v, xs.len() as int)
}

/// What the first `k` redelegations take from the validator `v`.
pub open spec fn outflow_upto(rs: Seq<Redelegation>, v: Seq<char>, k: int) -> nat
    decreases k,
{
    if k <= 0 {
        0
    } else if rs[k - 1].src@ == v {
        outflow_upto(rs, v, k - 1) + rs[k - 1].amount as nat
    } else {
        outflow_upto(rs, v, k - 1)
    }
}

/// What the redelegations take from the validator `v`.
pub open spec fn outflow(rs: Seq<Redelegation>, v: Seq<char>) -> nat {
    outflow_upto(rs, v, rs.len() as int)
}

/// What the first `k` redelegations give to the validator `v`.
pub open spec fn inflow_upto(rs: Seq<Redelegation>, v: Seq<char>, k: int) -> nat
    decreases k,
{
    if k <= 0 {
        0
    } else if rs[k - 1].dst@ == v {
        inflow_upto(rs, v, k - 1) + rs[k - 1].amount as nat
    } else {
        inflow_upto(rs, v, k - 1)
    }
}

/// What the redelegations give to the validator `v`.
pub open spec fn inflow(rs: Seq<Redelegation>, v: Seq<char>) -> nat {
    inflow_upto(rs, v, rs.len() as int)
}

/// Whether no validator has two delegations.
pub open spec fn distinct_validators(ds: Seq<Delegation>) -> bool {
    forall|i: int, j: int|
        0 <= i < j < ds.len() ==> (#[trigger] ds[i]).validator@ != (#[trigger] ds[j]).validator@
}

proof fn lemma_flows_cons(first: Redelegation, rest: Seq<Redelegation>, v: Seq<char>, k: int)
    requires
        0 <= k <= rest.len(),
    ensures
        outflow_upto(seq![first] + rest, v, k + 1) == outflow_upto(rest, v, k) + if first.src@
            == v {
            first.amount as nat
        } else {
            0
        },
        inflow_upto(seq![first] + rest, v, k + 1) == inflow_upto(rest, v, k) + if first.dst@ == v {
            first.amount as nat
        } else {
            0
        },
    decreases k,
{
    let all = seq![first] + rest;
    if k > 0 {
        lemma_flows_cons(first, rest, v, k - 1);
    } else {
        assert(outflow_upto(all, v, 0) == 0);
        assert(inflow_upto(all, v, 0) == 0);
    }
}

proof fn lemma_named_drop_first(xs: Seq<Delegation>, v: Seq<char>, k: int)
    requires
        0 <= k < xs.len(),
    ensures
        named_upto(xs, v, k + 1) == named_upto(xs.drop_first(), v, k) + if xs[0].validator@ == v {
            xs[0].amount as nat
        } else {
            0
        },
    decreases k,
{
    if k > 0 {
        lemma_named_drop_first(xs, v, k - 1);
    } else {
        assert(named_upto(xs, v, 0) == 0);
    }
}

proof fn lemma_named_update_first(xs: Seq<Delegation>, x: Delegation, v: Seq<char>, k: int)
    requires
        1 <= k <= xs.len(),
        x.validator == xs[0].validator,
    ensures
        named_upto(xs.update(0, x), v, k) + if x.validator@ == v {
            xs[0].amount as nat
        } else {
            0
        } == named_upto(xs, v, k) + if x.validator@ == v {
            x.amount as nat
        } else {
            0
        },
    decreases k,
{
    if k > 1 {
        lemma_named_update_first(xs, x, v, k - 1);
    } else {
        assert(named_upto(xs, v, 0) == 0);
        assert(named_upto(xs.update(0, x), v, 0) == 0);
    }
}

/// Drawing from the first entry lowers what its validator holds by what
/// was drawn, and leaves what the others hold.
proof fn lemma_named_after_first_taken(xs: Seq<Delegation>, taken: u128, v: Seq<char>)
    requires
        xs.len() > 0,
        taken <= xs[0].amount,
    ensures
        named(xs, v) == named(after_first_taken(xs, taken), v) + if xs[0].validator@ == v {
            taken as nat
        } else {
            0
        },
{
    if xs[0].amount == taken {
        lemma_named_drop_first(xs, v, xs.len() - 1);
    } else {
        let x = Delegation { validator: xs[0].validator, amount: (xs[0].amount - taken) as u128 };
        lemma_named_update_first(xs, x, v, xs.len() as int);
    }
}

/// Where givers and receivers hold the same in total, greedy matching
/// takes from each giver all that it holds, and gives each receiver all
/// that it lacks.
proof fn lemma_pair_off_flows(srcs: Seq<Delegation>, dsts: Seq<Delegation>, v: Seq<char>)
    requires
        all_positive(srcs),
        all_positive(dsts),
        total_amount(srcs) == total_amount(dsts),
    ensures
        outflow(pair_off(srcs, dsts), v) == named(srcs, v),
        inflow(pair_off(srcs, dsts), v) == named(dsts, v),
    decreases srcs.len() + dsts.len(),
{
    if !(srcs.len() == 0 || dsts.len() == 0) {
        let moved = smaller(srcs[0].amount, dsts[0].amount);
        let srcs1 = after_first_taken(srcs, moved);
        let dsts1 = after_first_taken(dsts, moved);
        let first = Redelegation { src: srcs[0].validator, dst: dsts[0].validator, amount: moved };
        let rest = pair_off(srcs1, dsts1);
        lemma_after_first_taken(srcs, moved);
        lemma_after_first_taken(dsts, moved);
        lemma_pair_off_flows(srcs1, dsts1, v);
        lemma_flows_cons(first, rest, v, rest.len() as int);
        lemma_named_after_first_taken(srcs, moved, v);
        lemma_named_after_first_taken(dsts, moved, v);
    }
}

proof fn lemma_named_push(xs: Seq<Delegation>, x: Delegation, v: Seq<char>)
    ensures
        named(xs.push(x), v) == named(xs, v) + if x.validator@ == v {
            x.amount as nat
        } else {
            0
        },
{
    lemma_named_same(xs, xs.push(x), v, xs.len() as int);
}

proof fn lemma_named_same(xs: Seq<Delegation>, ys: Seq<Delegation>, v: Seq<char>, k: int)
    requires
        0 <= k <= xs.len(),
        k <= ys.len(),
        forall|i: int| 0 <= i < k ==> xs[i] == ys[i],
    ensures
        named_upto(xs, v, k) == named_upto(ys, v, k),
    decreases k,
{
    if k > 0 {
        lemma_named_same(xs, ys, v, k - 1);
    }
}

/// Among the surpluses and deficits of the first `k` validators, the
/// validator at `i` holds what it is above or below its target, and
/// nothing before its turn has come.
proof fn lemma_named_surplus(ds: Seq<Delegation>, i: int, k: int)
    requires
        0 <= i < ds.len(),
        0 <= k <= ds.len(),
        distinct_validators(ds),
        total_amount(ds) <= u128::MAX,
    ensures
        named(surpluses_upto(ds, k), ds[i].validator@) == if i < k && ds[i].amount
            > rebalance_target(ds, i) {
            (ds[i].amount - rebalance_target(ds, i)) as nat
        } else {
            0
        },
        named(deficits_upto(ds, k), ds[i].validator@) == if i < k && ds[i].amount
            < rebalance_target(ds, i) {
            (rebalance_target(ds, i) - ds[i].amount) as nat
        } else {
            0
        },
    decreases k,
{
    if k > 0 {
        lemma_named_surplus(ds, i, k - 1);
        lemma_even_share_bounds(total_amount(ds), ds.len(), k - 1);
        let target = rebalance_target(ds, k - 1);
        let v = ds[i].validator@;
        if ds[k - 1].amount > target {
            lemma_named_push(
                surpluses_upto(ds, k - 1),
                Delegation {
                    validator: ds[k - 1].validator,
                    amount: (ds[k - 1].amount - target) as u128,
                },
                v,
            );
        } else if ds[k - 1].amount < target {
            lemma_named_push(
                deficits_upto(ds, k - 1),
                Delegation {
                    validator: ds[k - 1].validator,
                    amount: (target - ds[k - 1].amount) as u128,
                },
                v,
            );
        }
    }
}

/// After rebalancing, every validator holds its even share of the whole
/// stake: what it held, less what the redelegations take from it, and what
/// they give to it, is its target. No validator gives more than it held.
pub proof fn lemma_rebalancing_reaches_targets(ds: Seq<Delegation>, i: int)
    requires
        0 <= i < ds.len(),
        distinct_validators(ds),
        total_amount(ds) <= u128::MAX,
    ensures
        outflow(rebalancing_redelegations(ds), ds[i].validator@) <= ds[i].amount,
        ds[i].amount - outflow(rebalancing_redelegations(ds), ds[i].validator@) + inflow(
            rebalancing_redelegations(ds),
            ds[i].validator@,
        ) == rebalance_target(ds, i),
{
    let n = ds.len() as int;
    lemma_surpluses_deficits(ds, n);
    lemma_even_shares_add_up(total_amount(ds), ds.len());
    lemma_pair_off_flows(surpluses(ds), deficits(ds), ds[i].validator@);
    lemma_named_surplus(ds, i, n);
}

} // verus!
