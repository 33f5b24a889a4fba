//! The unbonding queue: the requests, kept in order, and the batches that
//! they belong to.

use crate::hub::Batch;
use crate::hub::UnbondRequest;
use crate::ratio::checked_multiply_ratio;
use crate::ratio::ratio_checked;
use crate::ratio::RatioError;
use crate::staking::error::ContractError;
use crate::staking::error::OverflowOperation;
use crate::staking::math::deducted;
use crate::staking::math::marked;
use crate::staking::math::reconcile_batches_result;
use crate::staking::math::unclaimed_sum;
use crate::staking::math::unclaimed_total;
use crate::text::is_less;
use crate::text::text_less;
use vstd::prelude::*;

verus! {

//--------------------------------------------------------------------------------------------------
// Batches
//--------------------------------------------------------------------------------------------------

/// The position of the first batch with the given id at or after position
/// `i`, and the number of batches where there is none.
pub open spec fn batch_index_from(bs: Seq<Batch>, id: u64, i: int) -> int
    decreases bs.len() - i,
{
    if i >= bs.len() {
        bs.len() as int
    } else if bs[i].id == id {
        i
    } else {
        batch_index_from(bs, id, i + 1)
    }
}

/// The position of the first batch with the given id, and the number of
/// batches where there is none.
pub open spec fn batch_index(bs: Seq<Batch>, id: u64) -> int {
    batch_index_from(bs, id, 0)
}

/// Where the search for a batch ends: at a batch with the id that has none
/// with that id before it, or behind the last batch.
pub proof fn lemma_batch_index(bs: Seq<Batch>, id: u64, i: int)
    requires
        0 <= i,
    ensures
        i <= batch_index_from(bs, id, i) || batch_index_from(bs, id, i) == bs.len(),
        batch_index_from(bs, id, i) <= bs.len(),
        batch_index_from(bs, id, i) < bs.len() ==> bs[batch_index_from(bs, id, i)].id == id,
        forall|j: int| i <= j < batch_index_from(bs, id, i) ==> (#[trigger] bs[j]).id != id,
    decreases bs.len() - i,
{
    if i < bs.len() && bs[i].id != id {
        lemma_batch_index(bs, id, i + 1);
    }
}

/// The position of the first batch with the given id, if there is one.
pub fn find_batch(batches: &Vec<Batch>, id: u64) -> (r: Option<usize>)
    ensures
        match r {
            Some(i) => i == batch_index(batches@, id) && i < batches.len(),
            None => batch_index(batches@, id) == batches.len(),
        },
{
    let mut i: usize = 0;
    while i < batches.len()
        invariant
            0 <= i <= batches.len(),
            batch_index(batches@, id) == batch_index_from(batches@, id, i as int),
        decreases batches.len() - i,
    {
        if batches[i].id == id {
            return Some(i);
        }
        i = i + 1;
    }
    None
}

//--------------------------------------------------------------------------------------------------
// Requests
//--------------------------------------------------------------------------------------------------

/// Whether a request sorts before the place of `user` in batch `id`:
/// requests are kept by ascending batch id and, within a batch, by ascending
/// user.
pub open spec fn sorts_before(r: UnbondRequest, id: u64, user: Seq<char>) -> bool {
    r.id < id || (r.id == id && text_less(r.user@, user))
}

/// The position of the first request at or after `i` that does not sort
/// before the place of `user` in batch `id`, and the number of requests where
/// all of them do.
pub open spec fn request_place_from(rs: Seq<UnbondRequest>, id: u64, user: Seq<char>, i: int) -> int
    decreases rs.len() - i,
{
    if i >= rs.len() {
        rs.len() as int
    } else if !sorts_before(rs[i], id, user) {
        i
    } else {
        request_place_from(rs, id, user, i + 1)
    }
}

/// The place of `user` in batch `id` among the requests.
pub open spec fn request_place(rs: Seq<UnbondRequest>, id: u64, user: Seq<char>) -> int {
    request_place_from(rs, id, user, 0)
}

/// Whether the request at the place of `user` in batch `id` is theirs.
pub open spec fn has_request(rs: Seq<UnbondRequest>, id: u64, user: Seq<char>) -> bool {
    let at = request_place(rs, id, user);
    at < rs.len() && rs[at].id == id && rs[at].user@ == user
}

pub proof fn lemma_request_place(rs: Seq<UnbondRequest>, id: u64, user: Seq<char>, i: int)
    requires
        0 <= i,
    ensures
        i <= request_place_from(rs, id, user, i) || request_place_from(rs, id, user, i)
            == rs.len(),
        request_place_from(rs, id, user, i) <= rs.len(),
        request_place_from(rs, id, user, i) < rs.len() ==> !sorts_before(
            rs[request_place_from(rs, id, user, i)],
            id,
            user,
        ),
        forall|j: int|
            i <= j < request_place_from(rs, id, user, i) ==> sorts_before(
                #[trigger] rs[j],
                id,
                user,
            ),
    decreases rs.len() - i,
{
    if i < rs.len() && sorts_before(rs[i], id, user) {
        lemma_request_place(rs, id, user, i + 1);
    }
}

/// The place of `user` in batch `id` among the requests.
pub fn find_request_place(requests: &Vec<UnbondRequest>, id: u64, user: &String) -> (r: usize)
    ensures
        r == request_place(requests@, id, user@),
        r <= requests.len(),
{
    let mut i: usize = 0;
    while i < requests.len()
        invariant
            0 <= i <= requests.len(),
            request_place(requests@, id, user@) == request_place_from(
                requests@,
                id,
                user@,
                i as int,
            ),
        decreases requests.len() - i,
    {
        let r = &requests[i];
        let before = r.id < id || (r.id == id && is_less(r.user.as_str(), user.as_str()));
        if !before {
            return i;
        }
        i = i + 1;
    }
    i
}

/// The requests once `user` has queued `shares` more in batch `id`: added to
/// their request in that batch, or entered as a new request at its place.
pub open spec fn queued(rs: Seq<UnbondRequest>, id: u64, user: String, shares: u128) -> Seq<
    UnbondRequest,
> {
    let at = request_place(rs, id, user@);
    if has_request(rs, id, user@) {
        rs.update(at, UnbondRequest { shares: (rs[at].shares + shares) as u128, ..rs[at] })
    } else {
        rs.insert(at, UnbondRequest { id, user, shares })
    }
}

/// Whether queuing `shares` more would take the user's request in batch `id`
/// beyond 128 bits.
pub open spec fn queue_overflows(rs: Seq<UnbondRequest>, id: u64, user: Seq<char>, shares: u128) -> bool {
    has_request(rs, id, user) && rs[request_place(rs, id, user)].shares + shares > u128::MAX
}

/// Queues `shares` more for `user` in batch `id`.
pub fn queue_request(requests: &mut Vec<UnbondRequest>, id: u64, user: String, shares: u128) -> (r:
    Result<(), ContractError>)
    ensures
        r == if queue_overflows(old(requests)@, id, user@, shares) {
            Err::<(), ContractError>(ContractError::Overflow(OverflowOperation::Add))
        } else {
            Ok(())
        },
        final(requests)@ == if queue_overflows(old(requests)@, id, user@, shares) {
            old(requests)@
        } else {
            queued(old(requests)@, id, user, shares)
        },
{
    let at = find_request_place(requests, id, &user);
    if at < requests.len() && requests[at].id == id && requests[at].user == user {
        match requests[at].shares.checked_add(shares) {
            Some(sum) => {
                requests[at].shares = sum;
                Ok(())
            },
            None => Err(ContractError::Overflow(OverflowOperation::Add)),
        }
    } else {
        requests.insert(at, UnbondRequest { id, user, shares });
        Ok(())
    }
}

//--------------------------------------------------------------------------------------------------
// Batches that are due for reconciliation
//--------------------------------------------------------------------------------------------------

/// Whether a batch is due for reconciliation: it has finished unbonding and
/// has not been reconciled.
pub open spec fn is_due(b: Batch, now: u64) -> bool {
    !b.reconciled && now > b.est_unbond_end_time
}

/// Those of the first `k` batches that are due, in their order.
pub open spec fn due_upto(bs: Seq<Batch>, now: u64, k: int) -> Seq<Batch>
    decreases k,
{
    if k <= 0 {
        Seq::empty()
    } else if is_due(bs[k - 1], now) {
        due_upto(bs, now, k - 1).push(bs[k - 1])
    } else {
        due_upto(bs, now, k - 1)
    }
}

/// The batches that are due, in their order.
pub open spec fn due(bs: Seq<Batch>, now: u64) -> Seq<Batch> {
    due_upto(bs, now, bs.len() as int)
}

/// The first `k` batches with each batch that is due replaced by its
/// counterpart among `updated`, which lists one batch for each that is due.
pub open spec fn merged_upto(bs: Seq<Batch>, updated: Seq<Batch>, now: u64, k: int) -> Seq<Batch>
    decreases k,
{
    if k <= 0 {
        Seq::empty()
    } else if is_due(bs[k - 1], now) {
        merged_upto(bs, updated, now, k - 1).push(updated[due_upto(bs, now, k - 1).len() as int])
    } else {
        merged_upto(bs, updated, now, k - 1).push(bs[k - 1])
    }
}

/// The batches with each batch that is due replaced by its counterpart.
pub open spec fn merged(bs: Seq<Batch>, updated: Seq<Batch>, now: u64) -> Seq<Batch> {
    merged_upto(bs, updated, now, bs.len() as int)
}

/// The ids of the batches, in their order.
pub open spec fn batch_ids(bs: Seq<Batch>) -> Seq<u64> {
    Seq::new(bs.len(), |i: int| bs[i].id)
}

/// What a reconciliation makes of the batches.
pub enum Reconciliation {
    /// Nothing is due, or nothing is expected: the batches stay as they are.
    Nothing,
    /// The batches that were due have been reconciled, after `deducted` was
    /// taken off them.
    Settled { batches: Seq<Batch>, deducted: u128 },
}

/// What is expected to have arrived: the unclaimed amounts of the batches
/// that are due, and the base token that is unlocked for reinvesting.
pub open spec fn expected_funds(bs: Seq<Batch>, unlocked: u128, now: u64) -> nat {
    unclaimed_total(due(bs, now)) + unlocked as nat
}

/// What reconciling does at time `now`, with `unlocked` of the base token
/// unlocked for reinvesting and `actual` of it held.
///
/// Where less is held than expected, the shortfall is taken evenly off the
/// batches that are due. Either way these batches are then reconciled.
pub open spec fn reconciliation(bs: Seq<Batch>, unlocked: u128, actual: u128, now: u64) -> Result<
    Reconciliation,
    ContractError,
> {
    let batches = due(bs, now);
    let expected = expected_funds(bs, unlocked, now);
    if batches.len() == 0 {
        Ok(Reconciliation::Nothing)
    } else if expected > u128::MAX {
        Err(ContractError::Overflow(OverflowOperation::Add))
    } else if expected == 0 {
        Ok(Reconciliation::Nothing)
    } else if actual >= expected {
        Ok(Reconciliation::Settled { batches: merged(bs, marked(batches), now), deducted: 0 })
    } else {
        match reconcile_batches_result(batches, (expected - actual) as nat) {
            Ok(updated) => Ok(
                Reconciliation::Settled {
                    batches: merged(bs, updated, now),
                    deducted: (expected - actual) as u128,
                },
            ),
            Err(e) => Err(e),
        }
    }
}

/// The batches after a reconciliation.
pub open spec fn reconciled_batches(bs: Seq<Batch>, outcome: Reconciliation) -> Seq<Batch> {
    match outcome {
        Reconciliation::Nothing => bs,
        Reconciliation::Settled { batches, .. } => batches,
    }
}

proof fn lemma_due_upto_len(bs: Seq<Batch>, now: u64, i: int, j: int)
    requires
        0 <= i <= j,
    ensures
        due_upto(bs, now, i).len() <= due_upto(bs, now, j).len(),
        i < j && is_due(bs[i], now) ==> due_upto(bs, now, i).len() < due_upto(bs, now, j).len(),
        due_upto(bs, now, i).len() <= i,
    decreases j - i,
{
    if i < j {
        lemma_due_upto_len(bs, now, i, j - 1);
    } else {
        lemma_due_upto_bound(bs, now, i);
    }
}

proof fn lemma_due_upto_bound(bs: Seq<Batch>, now: u64, k: int)
    requires
        0 <= k,
    ensures
        due_upto(bs, now, k).len() <= k,
    decreases k,
{
    if k > 0 {
        lemma_due_upto_bound(bs, now, k - 1);
    }
}

proof fn lemma_unclaimed_sum_monotonic(bs: Seq<Batch>, i: int, j: int)
    requires
        i <= j,
    ensures
        unclaimed_sum(bs, i) <= unclaimed_sum(bs, j),
    decreases j - i,
{
    if i < j {
        lemma_unclaimed_sum_monotonic(bs, i, j - 1);
    }
}

/// Once every batch that was due has been reconciled, none is due.
proof fn lemma_merged_settles(bs: Seq<Batch>, updated: Seq<Batch>, now: u64, k: int)
    requires
        0 <= k <= bs.len(),
        updated.len() == due(bs, now).len(),
        forall|i: int| 0 <= i < updated.len() ==> (#[trigger] updated[i]).reconciled,
    ensures
        merged_upto(bs, updated, now, k).len() == k,
        due_upto(merged_upto(bs, updated, now, k), now, k).len() == 0,
    decreases k,
{
    if k > 0 {
        lemma_merged_settles(bs, updated, now, k - 1);
        let prev = merged_upto(bs, updated, now, k - 1);
        let next = merged_upto(bs, updated, now, k);
        lemma_due_upto_len(bs, now, k - 1, bs.len() as int);
        lemma_due_upto_same(prev, next, now, k - 1);
    }
}

proof fn lemma_due_upto_same(xs: Seq<Batch>, ys: Seq<Batch>, now: u64, k: int)
    requires
        0 <= k <= xs.len(),
        k <= ys.len(),
        forall|i: int| 0 <= i < k ==> xs[i] == ys[i],
    ensures
        due_upto(xs, now, k) == due_upto(ys, now, k),
    decreases k,
{
    if k > 0 {
        lemma_due_upto_same(xs, ys, now, k - 1);
    }
}

/// After a reconciliation that settled the batches, none is due.
pub proof fn lemma_reconciliation_settles(bs: Seq<Batch>, unlocked: u128, actual: u128, now: u64)
    requires
        reconciliation(bs, unlocked, actual, now) matches Ok(Reconciliation::Settled { .. }),
    ensures
        due(reconciled_batches(bs, reconciliation(bs, unlocked, actual, now)->Ok_0), now).len()
            == 0,
        reconciled_batches(bs, reconciliation(bs, unlocked, actual, now)->Ok_0).len() == bs.len(),
{
    let batches = due(bs, now);
    let expected = expected_funds(bs, unlocked, now);
    if actual >= expected {
        lemma_merged_settles(bs, marked(batches), now, bs.len() as int);
    } else {
        lemma_merged_settles(
            bs,
            deducted(batches, (expected - actual) as nat),
            now,
            bs.len() as int,
        );
    }
}

/// Where no batch is due, reconciling changes nothing, whatever is unlocked
/// and whatever is held.
pub proof fn lemma_reconciliation_without_due(bs: Seq<Batch>, unlocked: u128, actual: u128, now: u64)
    requires
        due(bs, now).len() == 0,
    ensures
        reconciliation(bs, unlocked, actual, now) == Ok::<Reconciliation, ContractError>(
            Reconciliation::Nothing,
        ),
{
}

/// Reconciling a second time at the same moment changes nothing: what the
/// first call has settled is no longer due, and what it has left alone it
/// leaves alone again.
pub proof fn lemma_reconciliation_idempotent(
    bs: Seq<Batch>,
    unlocked: u128,
    actual: u128,
    now: u64,
)
    requires
        reconciliation(bs, unlocked, actual, now) is Ok,
    ensures
        reconciliation(
            reconciled_batches(bs, reconciliation(bs, unlocked, actual, now)->Ok_0),
            unlocked,
            actual,
            now,
        ) == Ok::<Reconciliation, ContractError>(Reconciliation::Nothing),
{
    match reconciliation(bs, unlocked, actual, now)->Ok_0 {
        Reconciliation::Nothing => {},
        Reconciliation::Settled { .. } => {
            lemma_reconciliation_settles(bs, unlocked, actual, now);
        },
    }
}

/// The batches that are due, with the ids they go by.
pub fn collect_due(batches: &Vec<Batch>, now: u64) -> (r: (Vec<Batch>, Vec<u64>))
    ensures
        r.0@ == due(batches@, now),
        r.1@ == batch_ids(due(batches@, now)),
{
    let mut found: Vec<Batch> = Vec::new();
    let mut ids: Vec<u64> = Vec::new();
    let mut i: usize = 0;
    while i < batches.len()
        invariant
            0 <= i <= batches.len(),
            found@ == due_upto(batches@, now, i as int),
            ids@ == batch_ids(found@),
        decreases batches.len() - i,
    {
        let b = batches[i];
        if !b.reconciled && now > b.est_unbond_end_time {
            found.push(b);
            ids.push(b.id);
        }
        i = i + 1;
    }
    (found, ids)
}

/// The unclaimed amounts of the batches, added up, or `None` where the sum
/// leaves 128 bits.
pub fn sum_unclaimed(batches: &Vec<Batch>) -> (r: Option<u128>)
    ensures
        match r {
            Some(total) => total == unclaimed_total(batches@),
            None => unclaimed_total(batches@) > u128::MAX,
        },
{
    let mut total: u128 = 0;
    let mut i: usize = 0;
    while i < batches.len()
        invariant
            0 <= i <= batches.len(),
            total == unclaimed_sum(batches@, i as int),
        decreases batches.len() - i,
    {
        match total.checked_add(batches[i].utoken_unclaimed) {
            Some(next) => {
                total = next;
            },
            None => {
                proof {
                    lemma_unclaimed_sum_monotonic(batches@, i + 1, batches.len() as int);
                }
                return None;
            },
        }
        i = i + 1;
    }
    Some(total)
}

/// Puts the updated batches back in the places of the batches that are due.
pub fn merge_due(batches: &Vec<Batch>, updated: &Vec<Batch>, now: u64) -> (r: Vec<Batch>)
    requires
        updated.len() == due(batches@, now).len(),
    ensures
        r@ == merged(batches@, updated@, now),
{
    let mut out: Vec<Batch> = Vec::new();
    let mut next: usize = 0;
    let mut i: usize = 0;
    while i < batches.len()
        invariant
            0 <= i <= batches.len(),
            updated.len() == due(batches@, now).len(),
            next == due_upto(batches@, now, i as int).len(),
            out@ == merged_upto(batches@, updated@, now, i as int),
        decreases batches.len() - i,
    {
        let b = batches[i];
        proof {
            lemma_due_upto_len(batches@, now, i as int, batches.len() as int);
        }
        if !b.reconciled && now > b.est_unbond_end_time {
            out.push(updated[next]);
            next = next + 1;
        } else {
            out.push(b);
        }
        i = i + 1;
    }
    out
}

//--------------------------------------------------------------------------------------------------
// Withdrawing from batches that have finished unbonding
//--------------------------------------------------------------------------------------------------

/// Whether a batch can be withdrawn from: it has been reconciled and has
/// finished unbonding.
pub open spec fn is_claimable(b: Batch, now: u64) -> bool {
    b.reconciled && b.est_unbond_end_time < now
}

/// How far a withdrawal has come.
pub struct Withdrawing {
    /// The batches as they stand.
    pub batches: Seq<Batch>,
    /// The requests that stay.
    pub kept: Seq<UnbondRequest>,
    /// The base token to refund so far.
    pub refund: u128,
    /// The ids of the batches withdrawn from so far.
    pub ids: Seq<u64>,
}

/// The share of the unclaimed amount of `b` that `shares` of its shares
/// stand for, floored.
pub open spec fn refund_of(b: Batch, shares: u128) -> Result<u128, RatioError> {
    ratio_checked(b.utoken_unclaimed as nat, shares as nat, b.total_shares as nat)
}

/// The batch once `shares` of its shares have been withdrawn for `refund`.
pub open spec fn batch_after(b: Batch, shares: u128, refund: u128) -> Batch {
    Batch {
        total_shares: (b.total_shares - shares) as u128,
        utoken_unclaimed: (b.utoken_unclaimed - refund) as u128,
        ..b
    }
}

/// Takes one request into account. A request of another user stays, and so
/// does one whose batch is not there or cannot be withdrawn from yet. Any
/// other request is paid out and leaves; its batch gives up the shares and
/// the refund, and leaves too once no shares remain in it.
pub open spec fn withdraw_one(w: Withdrawing, r: UnbondRequest, user: Seq<char>, now: u64) -> Result<
    Withdrawing,
    ContractError,
> {
    let at = batch_index(w.batches, r.id);
    if r.user@ != user || at >= w.batches.len() || !is_claimable(w.batches[at], now) {
        Ok(Withdrawing { kept: w.kept.push(r), ..w })
    } else {
        let b = w.batches[at];
        match refund_of(b, r.shares) {
            Err(RatioError::DivideByZero) => Err(ContractError::DivideByZero),
            Err(RatioError::Overflow) => Err(ContractError::Overflow(OverflowOperation::Mul)),
            Ok(refund) => if w.refund + refund > u128::MAX {
                Err(ContractError::Overflow(OverflowOperation::Add))
            } else if r.shares > b.total_shares || refund > b.utoken_unclaimed {
                Err(ContractError::Overflow(OverflowOperation::Sub))
            } else {
                Ok(
                    Withdrawing {
                        batches: if b.total_shares == r.shares {
                            w.batches.remove(at)
                        } else {
                            w.batches.update(at, batch_after(b, r.shares, refund))
                        },
                        kept: w.kept,
                        refund: (w.refund + refund) as u128,
                        ids: w.ids.push(r.id),
                    },
                )
            },
        }
    }
}

/// Takes the first `k` requests into account, in their order.
pub open spec fn withdraw_upto(
    bs: Seq<Batch>,
    rs: Seq<UnbondRequest>,
    user: Seq<char>,
    now: u64,
    k: int,
) -> Result<Withdrawing, ContractError>
    decreases k,
{
    if k <= 0 {
        Ok(Withdrawing { batches: bs, kept: Seq::empty(), refund: 0, ids: Seq::empty() })
    } else {
        match withdraw_upto(bs, rs, user, now, k - 1) {
            Ok(w) => withdraw_one(w, rs[k - 1], user, now),
            Err(e) => Err(e),
        }
    }
}

/// What withdrawing for `user` at time `now` comes to.
pub open spec fn withdrawal(bs: Seq<Batch>, rs: Seq<UnbondRequest>, user: Seq<char>, now: u64) -> Result<
    Withdrawing,
    ContractError,
> {
    withdraw_upto(bs, rs, user, now, rs.len() as int)
}

proof fn lemma_withdraw_failed(
    bs: Seq<Batch>,
    rs: Seq<UnbondRequest>,
    user: Seq<char>,
    now: u64,
    k: int,
    j: int,
)
    requires
        0 <= k <= j,
        withdraw_upto(bs, rs, user, now, k) is Err,
    ensures
        withdraw_upto(bs, rs, user, now, j) == withdraw_upto(bs, rs, user, now, k),
    decreases j - k,
{
    if k < j {
        lemma_withdraw_failed(bs, rs, user, now, k, j - 1);
    }
}

/// A copy of the batches.
pub fn copy_batches(batches: &Vec<Batch>) -> (r: Vec<Batch>)
    ensures
        r@ == batches@,
{
    let mut out: Vec<Batch> = Vec::new();
    let mut i: usize = 0;
    while i < batches.len()
        invariant
            0 <= i <= batches.len(),
            out@ == batches@.subrange(0, i as int),
        decreases batches.len() - i,
    {
        out.push(batches[i]);
        i = i + 1;
    }
    out
}

/// A copy of the requests.
pub fn clone_requests(requests: &Vec<UnbondRequest>) -> (r: Vec<UnbondRequest>)
    ensures
        r@ == requests@,
{
    let mut out: Vec<UnbondRequest> = Vec::new();
    let mut i: usize = 0;
    while i < requests.len()
        invariant
            0 <= i <= requests.len(),
            out@ == requests@.subrange(0, i as int),
        decreases requests.len() - i,
    {
        out.push(requests[i].clone());
        i = i + 1;
    }
    out
}

/// What `withdraw_requests` hands back: the batches and the requests as they
/// are to stand, the refund, and the ids of the batches withdrawn from.
pub struct Withdrawn {
    pub batches: Vec<Batch>,
    pub requests: Vec<UnbondRequest>,
    pub refund: u128,
    pub ids: Vec<u64>,
}

/// Pays out the requests of `user` in the batches that can be withdrawn
/// from, and works out what stays.
pub fn withdraw_requests(
    batches: &Vec<Batch>,
    requests: &Vec<UnbondRequest>,
    user: &String,
    now: u64,
) -> (r: Result<Withdrawn, ContractError>)
    ensures
        match r {
            Ok(done) => withdrawal(batches@, requests@, user@, now) == Ok::<
                Withdrawing,
                ContractError,
            >(
                Withdrawing {
                    batches: done.batches@,
                    kept: done.requests@,
                    refund: done.refund,
                    ids: done.ids@,
                },
            ),
            Err(e) => withdrawal(batches@, requests@, user@, now) == Err::<
                Withdrawing,
                ContractError,
            >(e),
        },
{
    let mut current: Vec<Batch> = copy_batches(batches);
    let mut kept: Vec<UnbondRequest> = Vec::new();
    let mut total: u128 = 0;
    let mut ids: Vec<u64> = Vec::new();
    let mut k: usize = 0;
    while k < requests.len()
        invariant
            0 <= k <= requests.len(),
            withdraw_upto(batches@, requests@, user@, now, k as int) == Ok::<
                Withdrawing,
                ContractError,
            >(Withdrawing { batches: current@, kept: kept@, refund: total, ids: ids@ }),
        decreases requests.len() - k,
    {
        let request = &requests[k];
        let ghost w = Withdrawing { batches: current@, kept: kept@, refund: total, ids: ids@ };
        let mut paid = false;
        if request.user == *user {
            if let Some(at) = find_batch(&current, request.id) {
                let batch = current[at];
                if batch.reconciled && batch.est_unbond_end_time < now {
                    let failure: Option<ContractError> = match checked_multiply_ratio(
                        batch.utoken_unclaimed,
                        request.shares,
                        batch.total_shares,
                    ) {
                        Err(RatioError::DivideByZero) => Some(ContractError::DivideByZero),
                        Err(RatioError::Overflow) => Some(
                            ContractError::Overflow(OverflowOperation::Mul),
                        ),
                        Ok(utoken_to_refund) => match total.checked_add(utoken_to_refund) {
                            None => Some(ContractError::Overflow(OverflowOperation::Add)),
                            Some(sum) => if request.shares > batch.total_shares
                                || utoken_to_refund > batch.utoken_unclaimed {
                                Some(ContractError::Overflow(OverflowOperation::Sub))
                            } else {
                                total = sum;
                                ids.push(request.id);
                                if batch.total_shares == request.shares {
                                    current.remove(at);
                                } else {
                                    current[at].total_shares = batch.total_shares
                                        - request.shares;
                                    current[at].utoken_unclaimed = batch.utoken_unclaimed
                                        - utoken_to_refund;
                                    assert(current@ =~= w.batches.update(
                                        at as int,
                                        batch_after(batch, request.shares, utoken_to_refund),
                                    ));
                                }
                                None
                            },
                        },
                    };
                    if let Some(e) = failure {
                        proof {
                            lemma_withdraw_failed(
                                batches@,
                                requests@,
                                user@,
                                now,
                                k + 1,
                                requests.len() as int,
                            );
                        }
                        return Err(e);
                    }
                    paid = true;
                }
            }
        }
        if !paid {
            kept.push(request.clone());
        }
        k = k + 1;
    }
    Ok(Withdrawn { batches: current, requests: kept, refund: total, ids })
}

} // verus!
