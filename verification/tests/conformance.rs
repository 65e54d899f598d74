//! The counters of a budget held to the model, call by call, while one
//! execution at a time calls.

use bound_alloc::{AllocAction, BoundAlloc, Request, Usage};

/// The next number of a fixed sequence that `state` runs through.
fn next(state: &mut u64) -> u64 {
    *state ^= *state << 13;
    *state ^= *state >> 7;
    *state ^= *state << 17;
    *state
}

/// Makes `calls` calls on a budget of `bound` bytes and on the model, and
/// compares the two after each. Deallocations free fewer than `limit` bytes,
/// and no more than are live if `balanced` is set.
fn replay(bound: usize, seed: u64, calls: usize, limit: u64, balanced: bool) -> Usage {
    let budget = BoundAlloc::<(), fn(usize)>::new((), bound, None);
    let mut model = Usage::new();
    let mut state = seed;

    assert_eq!(budget.usage(), model);
    for _ in 0..calls {
        if next(&mut state) % 3 == 0 {
            let mut size = (next(&mut state) % limit) as usize;
            if balanced && size > model.current {
                size = model.current;
            }
            budget.record_dealloc(size);
            model = model.deallocated(size);
        } else {
            let request = Request {
                me: next(&mut state) % 4,
                succeeded: next(&mut state) % 8 != 0,
                size: (next(&mut state) % 700) as usize,
            };
            let (after, action) = model.allocated(bound, request);
            assert_eq!(budget.record_alloc(request), action);
            model = after;
        }
        assert_eq!(budget.usage(), model);
    }
    model
}

#[test]
fn the_counters_follow_the_model_within_the_budget() {
    for seed in 1..=25 {
        let last = replay(usize::MAX, seed, 400, 600, true);
        assert!(!last.overflowed);
        assert_eq!(last.owner, None);
        assert!(last.current <= last.peak);
    }
}

#[test]
fn the_counters_follow_the_model_across_an_overflow() {
    for seed in 1..=25 {
        let last = replay(3_000, seed, 400, 600, true);
        assert!(last.overflowed);
        assert!(last.owner.is_some());
        assert!(last.peak > 3_000);
    }
}

#[test]
fn the_counters_follow_the_model_when_they_wrap() {
    for seed in 1..=25 {
        replay(usize::MAX, seed, 200, u64::MAX, false);
        replay(1 << 40, seed, 200, u64::MAX, false);
    }
}

#[test]
fn the_model_of_three_allocations_over_1024() {
    let request = Request { me: 1, succeeded: true, size: 512 };
    let (first, a) = Usage::new().allocated(1024, request);
    let (second, b) = first.allocated(1024, request);
    let (third, c) = second.allocated(1024, request);

    assert_eq!((a, b), (AllocAction::Proceed, AllocAction::Proceed));
    assert_eq!(c, AllocAction::Dispatch { peak: 1536 });
    assert_eq!(third, Usage { current: 1536, peak: 1536, overflowed: true, owner: Some(1) });
    assert_eq!(third.allocated(1024, request), (third, AllocAction::Park));
    assert_eq!(
        third.deallocated(512),
        Usage { current: 1024, peak: 1536, overflowed: true, owner: Some(1) }
    );
}
