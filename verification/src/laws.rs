//! What holds of the counters, proved over [`Usage`].
//!
//! First what holds of every sequence of atomic writes, and so of every
//! interleaving of calls; then what holds of one call; then what holds of
//! calls that run one after the other.

use crate::policy::{exceeds, verdict, AllocAction, Sighting};
use crate::usage::{requests_of, sum_of, total, wrap, Op, Request, Usage};
use vstd::prelude::*;

verus! {

/// The peak never decreases, whatever is written and in whatever order.
pub proof fn peak_never_decreases(before: Usage, ops: Seq<Op>)
    ensures
        before.peak <= before.run(ops).peak,
    decreases ops.len(),
{
    if ops.len() > 0 {
        peak_never_decreases(before, ops.drop_last());
    }
}

/// The overflow flag, once set, stays set, and the owner, once committed,
/// stays the owner, whatever is written and in whatever order.
pub proof fn overflow_is_permanent(before: Usage, ops: Seq<Op>)
    ensures
        before.overflowed ==> before.run(ops).overflowed,
        before.owner is Some ==> before.run(ops).owner == before.owner,
    decreases ops.len(),
{
    if ops.len() > 0 {
        overflow_is_permanent(before, ops.drop_last());
    }
}

/// However the writes of concurrent calls interleave, at most one claim
/// succeeds: none once an owner is committed, and exactly one, which commits
/// the owner, as soon as any claim is made before that. A call dispatches
/// only if its own claim succeeded (see
/// [`dispatch_needs_claim`](crate::policy::dispatch_needs_claim)), so the
/// overflow policy is run once and by one execution.
pub proof fn one_claim_wins(before: Usage, ops: Seq<Op>)
    ensures
        before.winners(ops) <= 1,
        before.owner is Some ==> before.winners(ops) == 0,
        before.owner is None ==> (before.winners(ops) == 1 <==> before.run(ops).owner is Some),
        before.owner is None ==> (before.winners(ops) == 1 <==> exists|k: int|
            0 <= k < ops.len() && ops[k] is Claim),
    decreases ops.len(),
{
    if ops.len() > 0 {
        let earlier: Seq<Op> = ops.drop_last();
        one_claim_wins(before, earlier);
        overflow_is_permanent(before, earlier);
        if before.owner is None {
            if exists|k: int| 0 <= k < earlier.len() && earlier[k] is Claim {
                let k: int = choose|k: int| 0 <= k < earlier.len() && earlier[k] is Claim;
                assert(ops[k] is Claim);
            } else if ops.last() is Claim {
                assert(ops[ops.len() - 1] is Claim);
            } else {
                assert forall|k: int| 0 <= k < ops.len() implies !(ops[k] is Claim) by {
                    if k < earlier.len() {
                        assert(earlier[k] == ops[k]);
                    }
                }
            }
        }
    }
}

/// Of two calls, by the executions `first` and `second`, whose claims are
/// writes `i` and `j` of one history of writes, at most one dispatches,
/// whatever else the history holds and whatever else the two calls read.
pub proof fn overflow_dispatched_once(
    before: Usage,
    bound: usize,
    ops: Seq<Op>,
    i: int,
    j: int,
    first: u64,
    first_saw: Sighting,
    second: u64,
    second_saw: Sighting,
)
    requires
        0 <= i < j < ops.len(),
        ops[i] == Op::Claim(first),
        ops[j] == Op::Claim(second),
        first_saw.won == before.run(ops.take(i)).wins(ops[i]),
        second_saw.won == before.run(ops.take(j)).wins(ops[j]),
    ensures
        !(verdict(bound, first, first_saw) is Dispatch && verdict(bound, second, second_saw)
            is Dispatch),
{
    if first_saw.won {
        let claimed: Usage = before.run(ops.take(i + 1));
        assert(ops.take(i + 1).drop_last() =~= ops.take(i));
        assert(claimed.owner is Some);
        lemma_run_split(before, ops.take(j), i + 1);
        assert(ops.take(j).take(i + 1) =~= ops.take(i + 1));
        overflow_is_permanent(claimed, ops.take(j).skip(i + 1));
    }
}

/// A claimed overflow stays claimed, whatever is written and in whatever
/// order.
pub proof fn claim_is_permanent(before: Usage, bound: usize, later: Usage)
    requires
        before.claimed(bound),
        before.reaches(later),
    ensures
        later.claimed(bound),
        later.owner == before.owner,
{
    let ops: Seq<Op> = choose|ops: Seq<Op>| #[trigger] before.run(ops) == later;
    peak_never_decreases(before, ops);
    overflow_is_permanent(before, ops);
}

/// Once an overflow was claimed, an allocation call of any execution parks,
/// whatever is written before and between its reads: the owner is stopped by
/// the guard, and everyone else finds the peak over the bound and loses the
/// claim. The call reads the flag, then the owner, then the peak, and then
/// makes its claim, each in a state that the one before reaches.
pub proof fn claimed_overflow_parks(
    before: Usage,
    bound: usize,
    me: u64,
    at_flag: Usage,
    at_owner: Usage,
    at_peak: Usage,
    at_claim: Usage,
)
    requires
        before.claimed(bound),
        before.reaches(at_flag),
        at_flag.reaches(at_owner),
        at_owner.reaches(at_peak),
        at_peak.reaches(at_claim),
    ensures
        verdict(
            bound,
            me,
            Sighting {
                overflowed: at_flag.overflowed,
                owner: at_owner.owner,
                peak: at_peak.peak,
                won: at_claim.wins(Op::Claim(me)),
            },
        ) == AllocAction::Park,
{
    claim_is_permanent(before, bound, at_flag);
    claim_is_permanent(at_flag, bound, at_owner);
    claim_is_permanent(at_owner, bound, at_peak);
    claim_is_permanent(at_peak, bound, at_claim);
}

/// An allocation call that runs undisturbed leaves the state that its own
/// writes lead to, and it dispatches if and only if its claim is the one
/// that succeeds.
pub proof fn allocate_is_a_run(before: Usage, bound: usize, request: Request)
    ensures
        before.allocate(bound, request) == before.run(before.alloc_ops(bound, request)),
        before.reaches(before.allocate(bound, request)),
        before.alloc_action(bound, request) is Dispatch <==> before.winners(
            before.alloc_ops(bound, request),
        ) == 1,
{
    let ops: Seq<Op> = before.alloc_ops(bound, request);
    reveal_with_fuel(Usage::run, 5);
    reveal_with_fuel(Usage::winners, 5);
    if ops.len() == 2 {
        assert(ops.drop_last().drop_last() =~= Seq::empty());
    } else if ops.len() == 4 {
        assert(ops.drop_last().drop_last().drop_last().drop_last() =~= Seq::empty());
    }
}

/// An allocation call that runs undisturbed keeps the discipline of the
/// owner. A call that does not proceed leaves a claimed overflow behind, and
/// one that proceeds commits no owner.
pub proof fn allocate_keeps_wf(before: Usage, bound: usize, request: Request)
    requires
        before.wf(bound),
    ensures
        before.allocate(bound, request).wf(bound),
        before.alloc_action(bound, request) != AllocAction::Proceed ==> before.allocate(
            bound,
            request,
        ).claimed(bound),
        before.alloc_action(bound, request) == AllocAction::Proceed ==> before.allocate(
            bound,
            request,
        ).owner == before.owner,
{
}

/// Between calls the peak covers the live bytes: the accounting of a block
/// raises the peak to them, an allocation call keeps the peak over them, and
/// so does a deallocation of no more than is live.
pub proof fn peak_covers_current(before: Usage, bound: usize, request: Request, size: usize)
    ensures
        request.succeeded ==> before.accounted(request).current <= before.accounted(request).peak,
        before.current <= before.peak ==> before.allocate(bound, request).current
            <= before.allocate(bound, request).peak,
        size <= before.current <= before.peak ==> before.deallocate(size).current
            <= before.deallocate(size).peak,
        size <= before.current ==> before.deallocate(size).current == before.current - size,
{
    if size <= before.current {
        lemma_wrap_small(before.current - size);
    }
}

/// Calls that run undisturbed take a settled state to a settled state, and a
/// new instance is settled: between calls the flag is set, and the owner
/// committed, exactly when the peak is over the bound.
pub proof fn calls_leave_settled(before: Usage, bound: usize, request: Request, size: usize)
    ensures
        Usage::fresh().settled(bound),
        before.settled(bound) ==> before.wf(bound),
        before.settled(bound) ==> before.allocate(bound, request).settled(bound),
        before.settled(bound) ==> before.deallocate(size).settled(bound),
{
}

/// Allocation calls that run one after the other keep the discipline of the
/// owner.
pub proof fn serve_keeps_wf(before: Usage, bound: usize, requests: Seq<Request>)
    requires
        before.wf(bound),
    ensures
        before.serve(bound, requests).wf(bound),
    decreases requests.len(),
{
    if requests.len() > 0 {
        serve_keeps_wf(before, bound, requests.drop_last());
        allocate_keeps_wf(before.serve(bound, requests.drop_last()), bound, requests.last());
    }
}

/// For any sequence of allocations whose running total never exceeds the
/// bound, served by a new instance: every call proceeds, so the overflow
/// policy is never run, and the peak never exceeds the bound. Both counters
/// stand at the running total throughout.
pub proof fn within_budget_never_overflows(bound: usize, requests: Seq<Request>)
    requires
        forall|k: int| 0 <= k <= requests.len() ==> #[trigger] total(requests.take(k)) <= bound,
    ensures
        forall|k: int|
            0 <= k < requests.len() ==> #[trigger] Usage::fresh().answer(bound, requests, k)
                == AllocAction::Proceed,
        forall|k: int|
            0 <= k <= requests.len() ==> {
                let reached = #[trigger] Usage::fresh().serve(bound, requests.take(k));
                &&& reached.peak <= bound
                &&& reached.peak == total(requests.take(k))
                &&& reached.current == total(requests.take(k))
                &&& !reached.overflowed
                &&& reached.owner is None
            },
{
    assert forall|k: int| 0 <= k <= requests.len() implies {
        let reached = #[trigger] Usage::fresh().serve(bound, requests.take(k));
        &&& reached.peak <= bound
        &&& reached.peak == total(requests.take(k))
        &&& reached.current == total(requests.take(k))
        &&& !reached.overflowed
        &&& reached.owner is None
    } by {
        assert(total(requests.take(k)) <= bound);
        lemma_served_within_budget(bound, requests.take(k));
    }
    assert forall|k: int| 0 <= k < requests.len() implies #[trigger] Usage::fresh().answer(
        bound,
        requests,
        k,
    ) == AllocAction::Proceed by {
        let next = requests.take(k + 1);
        assert(next.drop_last() =~= requests.take(k));
        assert(next.last() == requests[k]);
        assert(total(requests.take(k)) <= bound);
        assert(total(next) <= bound);
        lemma_served_within_budget(bound, requests.take(k));
        lemma_wrap_small(total(next));
    }
}

/// The first allocation that takes the running total over the bound, on a
/// new instance, dispatches with that total as the peak, and every
/// allocation after it parks. The total has to fit the counter.
pub proof fn first_excess_dispatches(bound: usize, requests: Seq<Request>, k: int)
    requires
        0 <= k < requests.len(),
        forall|i: int| 0 <= i <= k ==> #[trigger] total(requests.take(i)) <= bound,
        bound < total(requests.take(k + 1)) <= usize::MAX,
    ensures
        Usage::fresh().answer(bound, requests, k) == (AllocAction::Dispatch {
            peak: total(requests.take(k + 1)) as usize,
        }),
        forall|j: int|
            k < j < requests.len() ==> #[trigger] Usage::fresh().answer(bound, requests, j)
                == AllocAction::Park,
{
    let next = requests.take(k + 1);
    assert(next.drop_last() =~= requests.take(k));
    assert(next.last() == requests[k]);
    assert(total(requests.take(k)) <= bound);
    lemma_served_within_budget(bound, requests.take(k));
    lemma_wrap_small(total(next));
    assert forall|j: int| k < j < requests.len() implies #[trigger] Usage::fresh().answer(
        bound,
        requests,
        j,
    ) == AllocAction::Park by {
        overflow_is_terminal(Usage::fresh(), bound, requests, k, j);
    }
}

/// Among allocation calls that run one after the other, every call after one
/// that did not proceed parks: there is no way back from an overflow, and the
/// overflow policy is run at most once.
pub proof fn overflow_is_terminal(
    before: Usage,
    bound: usize,
    requests: Seq<Request>,
    k: int,
    j: int,
)
    requires
        before.wf(bound),
        0 <= k < j < requests.len(),
        before.answer(bound, requests, k) != AllocAction::Proceed,
    ensures
        before.answer(bound, requests, j) == AllocAction::Park,
        before.serve(bound, requests.take(j)).claimed(bound),
    decreases j - k,
{
    let reached = before.serve(bound, requests.take(j - 1));
    serve_keeps_wf(before, bound, requests.take(j - 1));
    lemma_serve_next(before, bound, requests, j - 1);
    if j - 1 > k {
        overflow_is_terminal(before, bound, requests, k, j - 1);
    }
    allocate_keeps_wf(reached, bound, requests[j - 1]);
}

/// On an instance with no owner yet, the first allocation call that does not
/// proceed wins the claim and dispatches, with the peak that it saw over the
/// bound.
pub proof fn first_overflow_dispatches(before: Usage, bound: usize, requests: Seq<Request>, k: int)
    requires
        before.owner is None,
        0 <= k < requests.len(),
        forall|i: int|
            0 <= i < k ==> #[trigger] before.answer(bound, requests, i) == AllocAction::Proceed,
        before.answer(bound, requests, k) != AllocAction::Proceed,
    ensures
        before.answer(bound, requests, k) is Dispatch,
        exceeds(bound, before.answer(bound, requests, k)->peak),
{
    lemma_owner_unchanged_while_proceeding(before, bound, requests, k);
}

/// When one execution makes an allocation of each size, every one of which
/// proceeds, and then a deallocation of each size in the same order, the live
/// bytes are back where they were: at 0 on a new instance.
pub proof fn round_trip_restores_current(before: Usage, bound: usize, me: u64, sizes: Seq<usize>)
    requires
        forall|k: int|
            0 <= k < sizes.len() ==> #[trigger] before.answer(bound, requests_of(me, sizes), k)
                == AllocAction::Proceed,
    ensures
        before.serve(bound, requests_of(me, sizes)).release(sizes).current == before.current,
{
    let served = before.serve(bound, requests_of(me, sizes));
    lemma_served_current(before, bound, me, sizes);
    lemma_released_current(served, sizes);
    lemma_wrap_add(before.current + sum_of(sizes), sum_of(sizes));
    lemma_wrap_small(before.current as int);
}

/// Running a history is running its start and then its rest.
proof fn lemma_run_split(before: Usage, ops: Seq<Op>, k: int)
    requires
        0 <= k <= ops.len(),
    ensures
        before.run(ops) == before.run(ops.take(k)).run(ops.skip(k)),
    decreases ops.len(),
{
    if k == ops.len() {
        assert(ops.take(k) =~= ops);
        assert(ops.skip(k) =~= Seq::empty());
    } else {
        let earlier = ops.drop_last();
        lemma_run_split(before, earlier, k);
        assert(earlier.take(k) =~= ops.take(k));
        assert(ops.skip(k).drop_last() =~= earlier.skip(k));
        assert(ops.skip(k).last() == ops.last());
    }
}

/// A counter that holds `i` holds it unchanged when `i` fits.
proof fn lemma_wrap_small(i: int)
    requires
        0 <= i <= usize::MAX,
    ensures
        wrap(i) == i,
{
    vstd::arithmetic::div_mod::lemma_small_mod(i as nat, (usize::MAX + 1) as nat);
}

/// Wrapping after each step is wrapping once at the end.
proof fn lemma_wrap_add(i: int, j: int)
    ensures
        wrap(wrap(i) + j) == wrap(i + j),
        wrap(wrap(i) - j) == wrap(i - j),
{
    let m: int = usize::MAX + 1;
    vstd::arithmetic::div_mod::lemma_add_mod_noop(i, j, m);
    vstd::arithmetic::div_mod::lemma_add_mod_noop(i % m, j, m);
    vstd::arithmetic::div_mod::lemma_sub_mod_noop(i, j, m);
    vstd::arithmetic::div_mod::lemma_sub_mod_noop(i % m, j, m);
    vstd::arithmetic::div_mod::lemma_mod_twice(i, m);
}

/// A total is never negative.
proof fn lemma_total_nonnegative(requests: Seq<Request>)
    ensures
        0 <= total(requests),
    decreases requests.len(),
{
    if requests.len() > 0 {
        lemma_total_nonnegative(requests.drop_last());
    }
}

/// Requests within the budget, served by a new instance, leave both counters
/// at their total and overflow nothing.
proof fn lemma_served_within_budget(bound: usize, requests: Seq<Request>)
    requires
        total(requests) <= bound,
    ensures
        0 <= total(requests),
        Usage::fresh().serve(bound, requests) == (Usage {
            current: total(requests) as usize,
            peak: total(requests) as usize,
            overflowed: false,
            owner: None,
        }),
    decreases requests.len(),
{
    if requests.len() > 0 {
        let earlier = requests.drop_last();
        lemma_total_nonnegative(earlier);
        lemma_served_within_budget(bound, earlier);
        lemma_wrap_small(total(requests));
    }
}

/// Serving one request more is one allocation call on what the earlier ones
/// left.
proof fn lemma_serve_next(before: Usage, bound: usize, requests: Seq<Request>, k: int)
    requires
        0 <= k < requests.len(),
    ensures
        before.serve(bound, requests.take(k + 1)) == before.serve(bound, requests.take(k)).allocate(
            bound,
            requests[k],
        ),
{
    assert(requests.take(k + 1).drop_last() =~= requests.take(k));
}

/// Calls that proceed commit no owner.
proof fn lemma_owner_unchanged_while_proceeding(
    before: Usage,
    bound: usize,
    requests: Seq<Request>,
    k: int,
)
    requires
        0 <= k <= requests.len(),
        forall|i: int|
            0 <= i < k ==> #[trigger] before.answer(bound, requests, i) == AllocAction::Proceed,
    ensures
        before.serve(bound, requests.take(k)).owner == before.owner,
    decreases k,
{
    if k > 0 {
        lemma_owner_unchanged_while_proceeding(before, bound, requests, k - 1);
        lemma_serve_next(before, bound, requests, k - 1);
        assert(before.answer(bound, requests, k - 1) == AllocAction::Proceed);
    } else {
        assert(requests.take(0) =~= Seq::empty());
    }
}

/// Allocations that all proceed add their sizes to the live bytes.
proof fn lemma_served_current(before: Usage, bound: usize, me: u64, sizes: Seq<usize>)
    requires
        forall|k: int|
            0 <= k < sizes.len() ==> #[trigger] before.answer(bound, requests_of(me, sizes), k)
                == AllocAction::Proceed,
    ensures
        before.serve(bound, requests_of(me, sizes)).current == wrap(before.current + sum_of(sizes)),
    decreases sizes.len(),
{
    let requests = requests_of(me, sizes);
    if sizes.len() > 0 {
        let last: int = sizes.len() - 1;
        let earlier = requests_of(me, sizes.drop_last());
        assert(requests.drop_last() =~= earlier);
        assert forall|k: int| 0 <= k < last implies #[trigger] before.answer(bound, earlier, k)
            == AllocAction::Proceed by {
            assert(earlier.take(k) =~= requests.take(k));
            assert(before.answer(bound, requests, k) == AllocAction::Proceed);
        }
        lemma_served_current(before, bound, me, sizes.drop_last());
        assert(requests.take(last) =~= earlier);
        assert(before.answer(bound, requests, last) == AllocAction::Proceed);
        lemma_wrap_add(before.current + sum_of(sizes.drop_last()), sizes.last() as int);
    } else {
        lemma_wrap_small(before.current as int);
    }
}

/// Deallocations take their sizes off the live bytes.
proof fn lemma_released_current(before: Usage, sizes: Seq<usize>)
    ensures
        before.release(sizes).current == wrap(before.current - sum_of(sizes)),
    decreases sizes.len(),
{
    if sizes.len() > 0 {
        lemma_released_current(before, sizes.drop_last());
        lemma_wrap_add(before.current - sum_of(sizes.drop_last()), sizes.last() as int);
    } else {
        lemma_wrap_small(before.current as int);
    }
}

} // verus!
