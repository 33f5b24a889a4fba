//! What holds of the unbonding queue in every state that the operations
//! reach: the shares in each batch are the shares of the requests in it.

use crate::hub::Batch;
use crate::hub::PendingBatch;
use crate::hub::UnbondRequest;
use crate::hub::CallbackMsg;
use crate::hub::ExecuteMsg;
use crate::staking::constants::REWARD_FEE_CAP_ATOMICS;
use crate::staking::contract::callback_post;
use crate::staking::contract::execute_post;
use crate::staking::contract::MessageInfo;
use crate::staking::error::ContractError;
use crate::names::names_without_upto;
use crate::staking::execute::reconcile_post;
use crate::staking::queue::lemma_reconciliation_idempotent;
use crate::staking::types::Msg;
use crate::names::contains_name_upto;
use crate::names::distinct_names;
use crate::staking::state::Env;
use crate::staking::state::Ledger;
use crate::staking::state::StateView;
use crate::staking::types::Response;
use crate::staking::math::deducted;
use crate::staking::math::marked;
use crate::staking::queue::batch_after;
use crate::staking::queue::batch_index;
use crate::staking::queue::due;
use crate::staking::queue::due_upto;
use crate::staking::queue::expected_funds;
use crate::staking::queue::is_claimable;
use crate::staking::queue::is_due;
use crate::staking::queue::merged_upto;
use crate::staking::queue::reconciled_batches;
use crate::staking::queue::reconciliation;
use crate::staking::queue::refund_of;
use crate::staking::queue::withdraw_one;
use crate::staking::queue::withdraw_upto;
use crate::staking::queue::withdrawal;
use crate::staking::queue::Reconciliation;
use crate::staking::queue::Withdrawing;
use crate::staking::queue::batch_index_from;
use crate::staking::queue::has_request;
use crate::staking::queue::lemma_batch_index;
use crate::staking::queue::lemma_request_place;
use crate::staking::queue::queue_overflows;
use crate::staking::queue::queued;
use crate::staking::queue::request_place;
use crate::staking::queue::sorts_before;
use crate::text::lemma_text_less_total;
use crate::text::lemma_text_less_transitive;
use vstd::prelude::*;

verus! {

//--------------------------------------------------------------------------------------------------
// What holds of the queue
//--------------------------------------------------------------------------------------------------

/// The shares that the first `k` requests hold in batch `id`.
pub open spec fn requested_upto(rs: Seq<UnbondRequest>, id: u64, k: int) -> nat
    decreases k,
{
    if k <= 0 {
        0
    } else if rs[k - 1].id == id {
        requested_upto(rs, id, k - 1) + rs[k - 1].shares as nat
    } else {
        requested_upto(rs, id, k - 1)
    }
}

/// The shares that the requests hold in batch `id`.
pub open spec fn requested(rs: Seq<UnbondRequest>, id: u64) -> nat {
    requested_upto(rs, id, rs.len() as int)
}

/// The shares that batch `id` holds: those to burn where it is the pending
/// batch, those that remain where it has been submitted, none otherwise.
pub open spec fn held(bs: Seq<Batch>, pending: PendingBatch, id: u64) -> nat {
    if id == pending.id {
        pending.ustake_to_burn as nat
    } else if batch_index(bs, id) < bs.len() {
        bs[batch_index(bs, id)].total_shares as nat
    } else {
        0
    }
}

/// The submitted batches are kept by ascending id, and the pending batch
/// has the highest id of all.
pub open spec fn batches_ordered(bs: Seq<Batch>, pending: PendingBatch) -> bool {
    &&& forall|i: int, j: int| 0 <= i < j < bs.len() ==> (#[trigger] bs[i]).id < (#[trigger] bs[j]).id
    &&& forall|i: int| 0 <= i < bs.len() ==> (#[trigger] bs[i]).id < pending.id
}

/// The requests are kept by ascending batch id and, within a batch, by
/// ascending user; none is in a batch beyond the pending one.
pub open spec fn requests_ordered(rs: Seq<UnbondRequest>, pending: PendingBatch) -> bool {
    &&& forall|i: int, j: int|
        0 <= i < j < rs.len() ==> sorts_before(#[trigger] rs[i], (#[trigger] rs[j]).id, rs[j].user@)
    &&& forall|i: int| 0 <= i < rs.len() ==> (#[trigger] rs[i]).id <= pending.id
}

/// Every batch holds exactly the shares that the requests hold in it.
pub open spec fn shares_backed(bs: Seq<Batch>, rs: Seq<UnbondRequest>, pending: PendingBatch) -> bool {
    forall|id: u64| #[trigger] requested(rs, id) == held(bs, pending, id)
}

/// What holds of the unbonding queue in every state that the operations reach.
pub open spec fn queue_wf(bs: Seq<Batch>, rs: Seq<UnbondRequest>, pending: PendingBatch) -> bool {
    &&& batches_ordered(bs, pending)
    &&& requests_ordered(rs, pending)
    &&& shares_backed(bs, rs, pending)
}

//--------------------------------------------------------------------------------------------------
// Sums of requested shares
//--------------------------------------------------------------------------------------------------

proof fn lemma_requested_same(rs: Seq<UnbondRequest>, ts: Seq<UnbondRequest>, id: u64, k: int)
    requires
        0 <= k <= rs.len(),
        k <= ts.len(),
        forall|i: int| 0 <= i < k ==> rs[i].id == ts[i].id && rs[i].shares == ts[i].shares,
    ensures
        requested_upto(rs, id, k) == requested_upto(ts, id, k),
    decreases k,
{
    if k > 0 {
        lemma_requested_same(rs, ts, id, k - 1);
    }
}

/// Putting a request in adds its shares to its batch and to no other.
proof fn lemma_requested_insert(rs: Seq<UnbondRequest>, at: int, r: UnbondRequest, id: u64, k: int)
    requires
        0 <= at <= rs.len(),
        at <= k <= rs.len(),
    ensures
        requested_upto(rs.insert(at, r), id, k + 1) == requested_upto(rs, id, k) + if r.id == id {
            r.shares as nat
        } else {
            0
        },
    decreases k,
{
    let ts = rs.insert(at, r);
    if k > at {
        lemma_requested_insert(rs, at, r, id, k - 1);
    } else {
        lemma_requested_same(rs, ts, id, at);
    }
}

/// Changing the shares of a request changes the shares of its batch by as
/// much, and those of no other.
proof fn lemma_requested_update(rs: Seq<UnbondRequest>, at: int, r: UnbondRequest, id: u64, k: int)
    requires
        0 <= at < rs.len(),
        at < k <= rs.len(),
        r.id == rs[at].id,
    ensures
        requested_upto(rs.update(at, r), id, k) + if r.id == id {
            rs[at].shares as nat
        } else {
            0
        } == requested_upto(rs, id, k) + if r.id == id {
            r.shares as nat
        } else {
            0
        },
    decreases k,
{
    let ts = rs.update(at, r);
    if k > at + 1 {
        lemma_requested_update(rs, at, r, id, k - 1);
    } else {
        lemma_requested_same(rs, ts, id, at);
    }
}

/// Where no request is in the batch, the requests hold no shares in it.
proof fn lemma_requested_none(rs: Seq<UnbondRequest>, id: u64, k: int)
    requires
        0 <= k <= rs.len(),
        forall|i: int| 0 <= i < k ==> (#[trigger] rs[i]).id != id,
    ensures
        requested_upto(rs, id, k) == 0,
    decreases k,
{
    if k > 0 {
        lemma_requested_none(rs, id, k - 1);
    }
}

//--------------------------------------------------------------------------------------------------
// Finding a batch among batches with different ids
//--------------------------------------------------------------------------------------------------

/// Among batches with different ids, the batch with a given id is found
/// where it is.
pub proof fn lemma_batch_found(bs: Seq<Batch>, pending: PendingBatch, at: int)
    requires
        batches_ordered(bs, pending),
        0 <= at < bs.len(),
    ensures
        batch_index(bs, bs[at].id) == at,
{
    lemma_batch_index(bs, bs[at].id, 0);
}

/// A batch whose id no batch has is not found.
pub proof fn lemma_batch_missing(bs: Seq<Batch>, id: u64)
    requires
        forall|i: int| 0 <= i < bs.len() ==> (#[trigger] bs[i]).id != id,
    ensures
        batch_index(bs, id) == bs.len(),
{
    lemma_batch_index(bs, id, 0);
}

//--------------------------------------------------------------------------------------------------
// Queuing
//--------------------------------------------------------------------------------------------------

/// The order of the requests is transitive.
proof fn lemma_sorts_before_transitive(a: UnbondRequest, b: UnbondRequest, id: u64, user: Seq<char>)
    requires
        sorts_before(a, b.id, b.user@),
        sorts_before(b, id, user),
    ensures
        sorts_before(a, id, user),
{
    if a.id == b.id && b.id == id {
        lemma_text_less_transitive(a.user@, b.user@, user);
    }
}

/// Queuing keeps the queue well-formed.
pub proof fn lemma_queue_keeps_wf(
    bs: Seq<Batch>,
    rs: Seq<UnbondRequest>,
    pending: PendingBatch,
    user: String,
    shares: u128,
)
    requires
        queue_wf(bs, rs, pending),
        pending.ustake_to_burn + shares <= u128::MAX,
        !queue_overflows(rs, pending.id, user@, shares),
    ensures
        queue_wf(
            bs,
            queued(rs, pending.id, user, shares),
            PendingBatch { ustake_to_burn: (pending.ustake_to_burn + shares) as u128, ..pending },
        ),
{
    let id = pending.id;
    let at = request_place(rs, id, user@);
    let ts = queued(rs, id, user, shares);
    let after = PendingBatch { ustake_to_burn: (pending.ustake_to_burn + shares) as u128, ..pending };
    lemma_request_place(rs, id, user@, 0);
    if has_request(rs, id, user@) {
        let r = UnbondRequest { shares: (rs[at].shares + shares) as u128, ..rs[at] };
        assert forall|i: int, j: int| 0 <= i < j < ts.len() implies sorts_before(
            #[trigger] ts[i],
            (#[trigger] ts[j]).id,
            ts[j].user@,
        ) by {
            assert(sorts_before(rs[i], rs[j].id, rs[j].user@));
        }
        assert forall|other: u64| #[trigger] requested(ts, other) == held(bs, after, other) by {
            lemma_requested_update(rs, at, r, other, rs.len() as int);
            assert(requested(rs, other) == held(bs, pending, other));
        }
    } else {
        let r = UnbondRequest { id, user, shares };
        assert forall|i: int, j: int| 0 <= i < j < ts.len() implies sorts_before(
            #[trigger] ts[i],
            (#[trigger] ts[j]).id,
            ts[j].user@,
        ) by {
            if j < at {
                assert(sorts_before(rs[i], rs[j].id, rs[j].user@));
            } else if j == at {
                assert(sorts_before(rs[i], id, user@));
            } else if i == at {
                // The new request sorts before the one that was at its place,
                // and so before all that follow.
                let first = rs[at];
                assert(!sorts_before(first, id, user@));
                lemma_text_less_total(first.user@, user@);
                assert(first.id <= pending.id);
                assert(sorts_before(r, first.id, first.user@));
                if j - 1 > at {
                    assert(sorts_before(first, rs[j - 1].id, rs[j - 1].user@));
                    lemma_sorts_before_transitive(r, first, rs[j - 1].id, rs[j - 1].user@);
                }
            } else if i < at {
                assert(sorts_before(rs[i], rs[j - 1].id, rs[j - 1].user@));
            } else {
                assert(sorts_before(rs[i - 1], rs[j - 1].id, rs[j - 1].user@));
            }
        }
        assert forall|i: int| 0 <= i < ts.len() implies (#[trigger] ts[i]).id <= after.id by {
            if i < at {
                assert(rs[i].id <= pending.id);
            } else if i > at {
                assert(rs[i - 1].id <= pending.id);
            }
        }
        assert forall|other: u64| #[trigger] requested(ts, other) == held(bs, after, other) by {
            lemma_requested_insert(rs, at, r, other, rs.len() as int);
            assert(requested(rs, other) == held(bs, pending, other));
        }
    }
}

//--------------------------------------------------------------------------------------------------
// Submitting
//--------------------------------------------------------------------------------------------------

/// Submitting the pending batch keeps the queue well-formed.
pub proof fn lemma_submit_keeps_wf(
    bs: Seq<Batch>,
    rs: Seq<UnbondRequest>,
    pending: PendingBatch,
    batch: Batch,
    next: PendingBatch,
)
    requires
        queue_wf(bs, rs, pending),
        batch.id == pending.id,
        batch.total_shares == pending.ustake_to_burn,
        next.id == pending.id + 1,
        next.ustake_to_burn == 0,
    ensures
        queue_wf(bs.push(batch), rs, next),
{
    let ts = bs.push(batch);
    assert forall|id: u64| #[trigger] requested(rs, id) == held(ts, next, id) by {
        assert(requested(rs, id) == held(bs, pending, id));
        lemma_batch_index(bs, id, 0);
        lemma_batch_index(ts, id, 0);
        if id == next.id {
            lemma_requested_none(rs, id, rs.len() as int);
        } else if id == pending.id {
            lemma_batch_missing(bs, id);
            lemma_batch_found(ts, next, bs.len() as int);
        } else {
            let at = batch_index(bs, id);
            if at < bs.len() {
                lemma_batch_found(ts, next, at);
            } else {
                lemma_batch_missing(ts, id);
            }
        }
    }
}

//--------------------------------------------------------------------------------------------------
// Reconciling
//--------------------------------------------------------------------------------------------------

proof fn lemma_batch_index_same(bs: Seq<Batch>, ts: Seq<Batch>, id: u64, i: int)
    requires
        0 <= i,
        bs.len() == ts.len(),
        forall|k: int| 0 <= k < bs.len() ==> (#[trigger] bs[k]).id == ts[k].id,
    ensures
        batch_index_from(bs, id, i) == batch_index_from(ts, id, i),
    decreases bs.len() - i,
{
    if i < bs.len() {
        if bs[i].id != id {
            lemma_batch_index_same(bs, ts, id, i + 1);
        }
    }
}

/// Batches that keep their ids and their shares keep the queue well-formed.
proof fn lemma_same_shares_keep_wf(
    bs: Seq<Batch>,
    ts: Seq<Batch>,
    rs: Seq<UnbondRequest>,
    pending: PendingBatch,
)
    requires
        queue_wf(bs, rs, pending),
        bs.len() == ts.len(),
        forall|k: int|
            0 <= k < bs.len() ==> (#[trigger] bs[k]).id == ts[k].id && bs[k].total_shares
                == ts[k].total_shares,
    ensures
        queue_wf(ts, rs, pending),
{
    assert forall|i: int, j: int| 0 <= i < j < ts.len() implies (#[trigger] ts[i]).id < (
    #[trigger] ts[j]).id by {
        assert(bs[i].id < bs[j].id);
    }
    assert forall|i: int| 0 <= i < ts.len() implies (#[trigger] ts[i]).id < pending.id by {
        assert(bs[i].id < pending.id);
    }
    assert forall|id: u64| #[trigger] requested(rs, id) == held(ts, pending, id) by {
        lemma_batch_index_same(bs, ts, id, 0);
        lemma_batch_index(bs, id, 0);
    }
}

proof fn lemma_due_prefix(bs: Seq<Batch>, now: u64, k: int, j: int)
    requires
        0 <= k <= j,
    ensures
        due_upto(bs, now, k).len() <= due_upto(bs, now, j).len(),
        forall|i: int|
            0 <= i < due_upto(bs, now, k).len() ==> due_upto(bs, now, j)[i] == due_upto(
                bs,
                now,
                k,
            )[i],
    decreases j - k,
{
    if k < j {
        lemma_due_prefix(bs, now, k, j - 1);
    }
}

/// Putting the updated batches back changes neither ids nor shares, where
/// the update changed neither.
proof fn lemma_merged_same_shares(bs: Seq<Batch>, updated: Seq<Batch>, now: u64, k: int)
    requires
        0 <= k <= bs.len(),
        updated.len() == due(bs, now).len(),
        forall|j: int|
            0 <= j < updated.len() ==> (#[trigger] updated[j]).id == due(bs, now)[j].id
                && updated[j].total_shares == due(bs, now)[j].total_shares,
    ensures
        merged_upto(bs, updated, now, k).len() == k,
        forall|i: int|
            0 <= i < k ==> (#[trigger] merged_upto(bs, updated, now, k)[i]).id == bs[i].id
                && merged_upto(bs, updated, now, k)[i].total_shares == bs[i].total_shares,
    decreases k,
{
    if k > 0 {
        lemma_merged_same_shares(bs, updated, now, k - 1);
        if is_due(bs[k - 1], now) {
            lemma_due_prefix(bs, now, k, bs.len() as int);
        }
    }
}

/// Reconciling keeps the queue well-formed.
pub proof fn lemma_reconcile_keeps_wf(
    bs: Seq<Batch>,
    rs: Seq<UnbondRequest>,
    pending: PendingBatch,
    unlocked: u128,
    actual: u128,
    now: u64,
)
    requires
        queue_wf(bs, rs, pending),
        reconciliation(bs, unlocked, actual, now) is Ok,
    ensures
        queue_wf(
            reconciled_batches(bs, reconciliation(bs, unlocked, actual, now)->Ok_0),
            rs,
            pending,
        ),
{
    match reconciliation(bs, unlocked, actual, now)->Ok_0 {
        Reconciliation::Nothing => {},
        Reconciliation::Settled { batches, .. } => {
            let expected = expected_funds(bs, unlocked, now);
            let updated = if actual >= expected {
                marked(due(bs, now))
            } else {
                deducted(due(bs, now), (expected - actual) as nat)
            };
            lemma_merged_same_shares(bs, updated, now, bs.len() as int);
            lemma_same_shares_keep_wf(bs, batches, rs, pending);
        },
    }
}

//--------------------------------------------------------------------------------------------------
// Withdrawing
//--------------------------------------------------------------------------------------------------

/// What holds while a withdrawal is under way, with the first `k` requests
/// taken into account: the batches are in order; the requests that stay
/// are in order and sort before those still to come; and each batch holds
/// the shares of the requests in it that stay or are still to come.
pub open spec fn withdrawing_wf(
    w: Withdrawing,
    rs: Seq<UnbondRequest>,
    pending: PendingBatch,
    k: int,
) -> bool {
    &&& batches_ordered(w.batches, pending)
    &&& requests_ordered(w.kept, pending)
    &&& forall|i: int, j: int|
        0 <= i < w.kept.len() && k <= j < rs.len() ==> sorts_before(
            #[trigger] w.kept[i],
            (#[trigger] rs[j]).id,
            rs[j].user@,
        )
    &&& forall|id: u64| #[trigger]
        requested(w.kept, id) + requested(rs, id) == held(w.batches, pending, id)
            + requested_upto(rs, id, k)
}

proof fn lemma_requested_push(rs: Seq<UnbondRequest>, r: UnbondRequest, id: u64)
    ensures
        requested(rs.push(r), id) == requested(rs, id) + if r.id == id {
            r.shares as nat
        } else {
            0
        },
{
    lemma_requested_same(rs, rs.push(r), id, rs.len() as int);
}

/// Taking one more request into account keeps what holds of a withdrawal.
proof fn lemma_withdraw_one_keeps_wf(
    w: Withdrawing,
    rs: Seq<UnbondRequest>,
    pending: PendingBatch,
    user: Seq<char>,
    now: u64,
    k: int,
)
    requires
        0 <= k < rs.len(),
        requests_ordered(rs, pending),
        withdrawing_wf(w, rs, pending, k),
        withdraw_one(w, rs[k], user, now) is Ok,
    ensures
        withdrawing_wf(withdraw_one(w, rs[k], user, now)->Ok_0, rs, pending, k + 1),
{
    let r = rs[k];
    let next = withdraw_one(w, r, user, now)->Ok_0;
    let at = batch_index(w.batches, r.id);
    lemma_batch_index(w.batches, r.id, 0);
    if r.user@ != user || at >= w.batches.len() || !is_claimable(w.batches[at], now) {
        // The request stays.
        assert forall|id: u64| #[trigger]
            requested(next.kept, id) + requested(rs, id) == held(next.batches, pending, id)
                + requested_upto(rs, id, k + 1) by {
            lemma_requested_push(w.kept, r, id);
        }
    } else {
        // The request is paid out and leaves.
        let b = w.batches[at];
        let refund = refund_of(b, r.shares)->Ok_0;
        if b.total_shares == r.shares {
            let ts = w.batches.remove(at);
            assert forall|id: u64| #[trigger]
                requested(next.kept, id) + requested(rs, id) == held(next.batches, pending, id)
                    + requested_upto(rs, id, k + 1) by {
                lemma_batch_index(w.batches, id, 0);
                if id == r.id {
                    lemma_batch_missing(ts, id);
                } else if id != pending.id {
                    let found = batch_index(w.batches, id);
                    if found < w.batches.len() {
                        let moved = if found < at {
                            found
                        } else {
                            found - 1
                        };
                        lemma_batch_found(ts, pending, moved);
                    } else {
                        lemma_batch_missing(ts, id);
                    }
                }
            }
        } else {
            let ts = w.batches.update(at, batch_after(b, r.shares, refund));
            assert forall|id: u64| #[trigger]
                requested(next.kept, id) + requested(rs, id) == held(next.batches, pending, id)
                    + requested_upto(rs, id, k + 1) by {
                lemma_batch_index_same(w.batches, ts, id, 0);
                lemma_batch_index(w.batches, id, 0);
            }
        }
    }
}

/// What holds of a withdrawal holds from the first request to the last.
proof fn lemma_withdraw_upto_keeps_wf(
    bs: Seq<Batch>,
    rs: Seq<UnbondRequest>,
    pending: PendingBatch,
    user: Seq<char>,
    now: u64,
    k: int,
)
    requires
        0 <= k <= rs.len(),
        queue_wf(bs, rs, pending),
        withdraw_upto(bs, rs, user, now, k) is Ok,
    ensures
        withdrawing_wf(withdraw_upto(bs, rs, user, now, k)->Ok_0, rs, pending, k),
    decreases k,
{
    if k > 0 {
        lemma_withdraw_upto_keeps_wf(bs, rs, pending, user, now, k - 1);
        lemma_withdraw_one_keeps_wf(
            withdraw_upto(bs, rs, user, now, k - 1)->Ok_0,
            rs,
            pending,
            user,
            now,
            k - 1,
        );
    }
}

/// Withdrawing keeps the queue well-formed.
pub proof fn lemma_withdraw_keeps_wf(
    bs: Seq<Batch>,
    rs: Seq<UnbondRequest>,
    pending: PendingBatch,
    user: Seq<char>,
    now: u64,
)
    requires
        queue_wf(bs, rs, pending),
        withdrawal(bs, rs, user, now) is Ok,
    ensures
        queue_wf(
            withdrawal(bs, rs, user, now)->Ok_0.batches,
            withdrawal(bs, rs, user, now)->Ok_0.kept,
            pending,
        ),
{
    lemma_withdraw_upto_keeps_wf(bs, rs, pending, user, now, rs.len() as int);
}

//--------------------------------------------------------------------------------------------------
// All shares together
//--------------------------------------------------------------------------------------------------

/// The shares that remain in the first `k` batches.
pub open spec fn batch_shares_upto(bs: Seq<Batch>, k: int) -> nat
    decreases k,
{
    if k <= 0 {
        0
    } else {
        batch_shares_upto(bs, k - 1) + bs[k - 1].total_shares as nat
    }
}

/// The shares that remain in the submitted batches.
pub open spec fn batch_shares(bs: Seq<Batch>) -> nat {
    batch_shares_upto(bs, bs.len() as int)
}

/// The shares of the first `k` requests.
pub open spec fn request_shares_upto(rs: Seq<UnbondRequest>, k: int) -> nat
    decreases k,
{
    if k <= 0 {
        0
    } else {
        request_shares_upto(rs, k - 1) + rs[k - 1].shares as nat
    }
}

/// The shares of all requests: what has been queued and not been withdrawn.
pub open spec fn request_shares(rs: Seq<UnbondRequest>) -> nat {
    request_shares_upto(rs, rs.len() as int)
}

/// Whether one of the first `m` batches has the id.
pub open spec fn among(bs: Seq<Batch>, m: int, id: u64) -> bool {
    exists|j: int| 0 <= j < m && j < bs.len() && (#[trigger] bs[j]).id == id
}

/// The shares of those of the first `k` requests that are in one of the
/// first `m` batches.
pub open spec fn shares_among(rs: Seq<UnbondRequest>, bs: Seq<Batch>, m: int, k: int) -> nat
    decreases k,
{
    if k <= 0 {
        0
    } else if among(bs, m, rs[k - 1].id) {
        shares_among(rs, bs, m, k - 1) + rs[k - 1].shares as nat
    } else {
        shares_among(rs, bs, m, k - 1)
    }
}

proof fn lemma_shares_among_next(
    rs: Seq<UnbondRequest>,
    bs: Seq<Batch>,
    pending: PendingBatch,
    m: int,
    k: int,
)
    requires
        batches_ordered(bs, pending),
        0 <= m < bs.len(),
        0 <= k <= rs.len(),
    ensures
        shares_among(rs, bs, m + 1, k) == shares_among(rs, bs, m, k) + requested_upto(
            rs,
            bs[m].id,
            k,
        ),
    decreases k,
{
    if k > 0 {
        lemma_shares_among_next(rs, bs, pending, m, k - 1);
        let id = rs[k - 1].id;
        if among(bs, m, id) {
            let j = choose|j: int| 0 <= j < m && j < bs.len() && (#[trigger] bs[j]).id == id;
            assert(bs[j].id < bs[m].id);
            assert(among(bs, m + 1, id));
        } else if id == bs[m].id {
            assert(among(bs, m + 1, id));
        } else {
            if among(bs, m + 1, id) {
                let j = choose|j: int|
                    0 <= j < m + 1 && j < bs.len() && (#[trigger] bs[j]).id == id;
                assert(j < m);
                assert(among(bs, m, id));
            }
        }
    }
}

proof fn lemma_shares_among_none(rs: Seq<UnbondRequest>, bs: Seq<Batch>, k: int)
    requires
        0 <= k,
    ensures
        shares_among(rs, bs, 0, k) == 0,
    decreases k,
{
    if k > 0 {
        lemma_shares_among_none(rs, bs, k - 1);
    }
}

/// The shares that remain in the first `m` batches are the shares of the
/// requests that are in these batches.
proof fn lemma_batch_shares_requested(
    bs: Seq<Batch>,
    rs: Seq<UnbondRequest>,
    pending: PendingBatch,
    m: int,
)
    requires
        queue_wf(bs, rs, pending),
        0 <= m <= bs.len(),
    ensures
        batch_shares_upto(bs, m) == shares_among(rs, bs, m, rs.len() as int),
    decreases m,
{
    if m > 0 {
        lemma_batch_shares_requested(bs, rs, pending, m - 1);
        lemma_shares_among_next(rs, bs, pending, m - 1, rs.len() as int);
        lemma_batch_found(bs, pending, m - 1);
        assert(requested(rs, bs[m - 1].id) == held(bs, pending, bs[m - 1].id));
    } else {
        lemma_shares_among_none(rs, bs, rs.len() as int);
    }
}

proof fn lemma_requested_monotonic(rs: Seq<UnbondRequest>, id: u64, i: int, j: int)
    requires
        i <= j,
    ensures
        requested_upto(rs, id, i) <= requested_upto(rs, id, j),
    decreases j - i,
{
    if i < j {
        lemma_requested_monotonic(rs, id, i, j - 1);
    }
}

/// Every request is in the pending batch or in one submitted batch, or
/// holds no shares.
proof fn lemma_shares_apart(
    rs: Seq<UnbondRequest>,
    bs: Seq<Batch>,
    pending: PendingBatch,
    k: int,
)
    requires
        queue_wf(bs, rs, pending),
        0 <= k <= rs.len(),
    ensures
        shares_among(rs, bs, bs.len() as int, k) + requested_upto(rs, pending.id, k)
            == request_shares_upto(rs, k),
    decreases k,
{
    if k > 0 {
        lemma_shares_apart(rs, bs, pending, k - 1);
        let id = rs[k - 1].id;
        if among(bs, bs.len() as int, id) {
            let j = choose|j: int|
                0 <= j < bs.len() && j < bs.len() && (#[trigger] bs[j]).id == id;
        } else if id != pending.id {
            // No batch has the id: the requests hold no shares in it.
            lemma_batch_missing(bs, id);
            assert(requested(rs, id) == held(bs, pending, id));
            lemma_requested_monotonic(rs, id, k, rs.len() as int);
        }
    }
}

/// The batches hold the shares of the requests, no more and no less: all
/// that the submitted batches and the pending batch hold together is what
/// has been queued and has not been withdrawn.
pub proof fn lemma_shares_are_requested(
    bs: Seq<Batch>,
    rs: Seq<UnbondRequest>,
    pending: PendingBatch,
)
    requires
        queue_wf(bs, rs, pending),
    ensures
        batch_shares(bs) + pending.ustake_to_burn == request_shares(rs),
{
    lemma_batch_shares_requested(bs, rs, pending, bs.len() as int);
    lemma_shares_apart(rs, bs, pending, rs.len() as int);
    assert(requested(rs, pending.id) == held(bs, pending, pending.id));
}

/// Queuing raises the shares of the requests by what is queued.
pub proof fn lemma_queue_adds_shares(rs: Seq<UnbondRequest>, id: u64, user: String, shares: u128)
    requires
        !queue_overflows(rs, id, user@, shares),
    ensures
        request_shares(queued(rs, id, user, shares)) == request_shares(rs) + shares,
{
    let at = request_place(rs, id, user@);
    lemma_request_place(rs, id, user@, 0);
    if has_request(rs, id, user@) {
        let r = UnbondRequest { shares: (rs[at].shares + shares) as u128, ..rs[at] };
        lemma_request_shares_update(rs, at, r, rs.len() as int);
    } else {
        lemma_request_shares_insert(rs, at, UnbondRequest { id, user, shares }, rs.len() as int);
    }
}

proof fn lemma_request_shares_same(rs: Seq<UnbondRequest>, ts: Seq<UnbondRequest>, k: int)
    requires
        0 <= k <= rs.len(),
        k <= ts.len(),
        forall|i: int| 0 <= i < k ==> rs[i].shares == ts[i].shares,
    ensures
        request_shares_upto(rs, k) == request_shares_upto(ts, k),
    decreases k,
{
    if k > 0 {
        lemma_request_shares_same(rs, ts, k - 1);
    }
}

proof fn lemma_request_shares_insert(rs: Seq<UnbondRequest>, at: int, r: UnbondRequest, k: int)
    requires
        0 <= at <= rs.len(),
        at <= k <= rs.len(),
    ensures
        request_shares_upto(rs.insert(at, r), k + 1) == request_shares_upto(rs, k) + r.shares,
    decreases k,
{
    let ts = rs.insert(at, r);
    if k > at {
        lemma_request_shares_insert(rs, at, r, k - 1);
    } else {
        lemma_request_shares_same(rs, ts, at);
    }
}

proof fn lemma_request_shares_update(rs: Seq<UnbondRequest>, at: int, r: UnbondRequest, k: int)
    requires
        0 <= at < rs.len(),
        at < k <= rs.len(),
    ensures
        request_shares_upto(rs.update(at, r), k) + rs[at].shares == request_shares_upto(rs, k)
            + r.shares,
    decreases k,
{
    let ts = rs.update(at, r);
    if k > at + 1 {
        lemma_request_shares_update(rs, at, r, k - 1);
    } else {
        lemma_request_shares_same(rs, ts, at);
    }
}

/// In a well-formed queue a request holds no more shares than its batch,
/// so that its refund is there and is no more than the batch has unclaimed:
/// paying it out takes nothing below zero.
pub proof fn lemma_request_within_batch(
    bs: Seq<Batch>,
    rs: Seq<UnbondRequest>,
    pending: PendingBatch,
    i: int,
)
    requires
        queue_wf(bs, rs, pending),
        0 <= i < rs.len(),
        batch_index(bs, rs[i].id) < bs.len(),
        rs[i].shares > 0,
    ensures
        ({
            let b = bs[batch_index(bs, rs[i].id)];
            &&& rs[i].shares <= b.total_shares
            &&& refund_of(b, rs[i].shares) is Ok
            &&& refund_of(b, rs[i].shares)->Ok_0 <= b.utoken_unclaimed
        }),
{
    let id = rs[i].id;
    let at = batch_index(bs, id);
    let b = bs[at];
    lemma_batch_index(bs, id, 0);
    assert(requested(rs, id) == held(bs, pending, id));
    lemma_requested_monotonic(rs, id, i + 1, rs.len() as int);
    let unclaimed = b.utoken_unclaimed as nat;
    let shares = rs[i].shares as nat;
    let total = b.total_shares as nat;
    assert(unclaimed * shares / total <= unclaimed) by (nonlinear_arith)
        requires
            0 < shares <= total,
    ;
}

//--------------------------------------------------------------------------------------------------
// The whole state
//--------------------------------------------------------------------------------------------------

/// What holds of every state that the operations reach: the unbonding queue
/// is well-formed, no validator is whitelisted twice, and the reward fee is
/// within its cap.
pub open spec fn state_wf(state: StateView) -> bool {
    &&& queue_wf(state.previous_batches, state.unbond_requests, state.pending_batch)
    &&& distinct_names(state.validators)
    &&& state.fee_config.protocol_reward_fee.atomics <= REWARD_FEE_CAP_ATOMICS
}

proof fn lemma_names_without(names: Seq<String>, name: Seq<char>, k: int)
    requires
        0 <= k <= names.len(),
        distinct_names(names),
    ensures
        distinct_names(names_without_upto(names, name, k)),
        forall|i: int|
            0 <= i < names_without_upto(names, name, k).len() ==> contains_name_upto(
                names,
                (#[trigger] names_without_upto(names, name, k)[i])@,
                k,
            ),
    decreases k,
{
    if k > 0 {
        lemma_names_without(names, name, k - 1);
    }
}

/// The state that the hub is created with is well-formed.
pub proof fn lemma_instantiate_wf(state: StateView)
    requires
        state.previous_batches.len() == 0,
        state.unbond_requests.len() == 0,
        state.pending_batch.ustake_to_burn == 0,
        distinct_names(state.validators),
        state.fee_config.protocol_reward_fee.atomics <= REWARD_FEE_CAP_ATOMICS,
    ensures
        state_wf(state),
{
}

/// Reconciling a second time, with the ledger as it stood, does nothing:
/// the call succeeds, asks for no effect, reports nothing, and leaves the
/// state as the first call left it.
pub proof fn lemma_reconcile_twice(
    pre: StateView,
    env: Env,
    ledger: Ledger,
    mid: StateView,
    first: Result<Response, ContractError>,
    post: StateView,
    second: Result<Response, ContractError>,
)
    requires
        reconcile_post(pre, env, ledger, mid, first),
        first is Ok,
        reconcile_post(mid, env, ledger, post, second),
    ensures
        second is Ok,
        second->Ok_0.messages@ == Seq::<Msg>::empty(),
        second->Ok_0.event is None,
        post == mid,
{
    lemma_reconciliation_idempotent(
        pre.previous_batches,
        crate::staking::helpers::amount_of(
            pre.unlocked_coins,
            crate::staking::constants::CONTRACT_DENOM@,
        ),
        crate::staking::helpers::amount_of(
            ledger.balances@,
            crate::staking::constants::CONTRACT_DENOM@,
        ),
        env.time,
    );
}

/// Every continuation keeps the state well-formed.
pub proof fn lemma_callback_keeps_wf(
    pre: StateView,
    env: Env,
    info: MessageInfo,
    ledger: Ledger,
    callback_msg: CallbackMsg,
    post: StateView,
    r: Result<Response, ContractError>,
)
    requires
        state_wf(pre),
        callback_post(pre, env, info, ledger, callback_msg, post, r),
    ensures
        state_wf(post),
{
}

/// Every operation keeps the state well-formed, whether it succeeds or
/// fails: what holds of the state that the hub is created with holds after
/// any sequence of calls.
pub proof fn lemma_execute_keeps_wf(
    pre: StateView,
    env: Env,
    info: MessageInfo,
    ledger: Ledger,
    msg: ExecuteMsg,
    post: StateView,
    r: Result<Response, ContractError>,
)
    requires
        state_wf(pre),
        execute_post(pre, env, info, ledger, msg, post, r),
    ensures
        state_wf(post),
{
    let bs = pre.previous_batches;
    let rs = pre.unbond_requests;
    let pending = pre.pending_batch;
    match msg {
        ExecuteMsg::WithdrawUnbonded { receiver } => {
            if r is Ok {
                lemma_withdraw_keeps_wf(bs, rs, pending, info.sender@, env.time);
            }
        },
        ExecuteMsg::AddValidator { validator } => {
        },
        ExecuteMsg::RemoveValidator { validator } => {
            if r is Ok {
                lemma_names_without(pre.validators, validator@, pre.validators.len() as int);
            }
        },
        ExecuteMsg::Reconcile => {
            if r is Ok {
                lemma_reconcile_keeps_wf(
                    bs,
                    rs,
                    pending,
                    crate::staking::helpers::amount_of(
                        pre.unlocked_coins,
                        crate::staking::constants::CONTRACT_DENOM@,
                    ),
                    crate::staking::helpers::amount_of(
                        ledger.balances@,
                        crate::staking::constants::CONTRACT_DENOM@,
                    ),
                    env.time,
                );
            }
        },
        ExecuteMsg::SubmitBatch => {
            if r is Ok {
                lemma_submit_keeps_wf(
                    bs,
                    rs,
                    pending,
                    post.previous_batches[bs.len() as int],
                    post.pending_batch,
                );
            }
        },
        ExecuteMsg::Callback(callback_msg) => {
        },
        ExecuteMsg::QueueUnbond { receiver } => {
            if r is Ok {
                let user = match receiver {
                    Some(user) => user,
                    None => info.sender,
                };
                lemma_queue_keeps_wf(bs, rs, pending, user, info.funds[0].amount);
            }
        },
        _ => {},
    }
}

} // verus!
