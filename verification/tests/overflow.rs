//! What happens at and after the overflow, with several executions.

use bound_alloc::policy::{decide, guards, over_budget};
use bound_alloc::{
    default_overflow_handler, handler_returned, AllocAction, BoundAlloc, Request, Sighting, Usage,
};

type Budget = BoundAlloc<(), fn(usize)>;

fn got(me: u64, size: usize) -> Request {
    Request { me, succeeded: true, size }
}

#[test]
fn overflow_is_dispatched_exactly_once() {
    let budget = Budget::new((), 1024, None);
    let mut dispatched = Vec::new();
    let mut parked = Vec::new();

    for me in 1..=6u64 {
        match budget.record_alloc(got(me, 400)) {
            AllocAction::Proceed => {}
            AllocAction::Park => parked.push(me),
            AllocAction::Dispatch { peak } => dispatched.push((me, peak)),
        }
    }

    assert_eq!(dispatched, vec![(3, 1200)]);
    assert_eq!(parked, vec![4, 5, 6]);
    assert_eq!(budget.handler_thread(), Some(3));
}

#[test]
fn the_owner_never_returns_from_a_later_allocation() {
    let budget = Budget::new((), 10, None);

    assert_eq!(budget.record_alloc(got(7, 11)), AllocAction::Dispatch { peak: 11 });
    let after_claim = budget.usage();
    assert_eq!(after_claim, Usage { current: 11, peak: 11, overflowed: true, owner: Some(7) });

    assert_eq!(budget.record_alloc(got(7, 1)), AllocAction::Park);
    assert_eq!(budget.record_alloc(got(7, 0)), AllocAction::Park);
    assert_eq!(
        budget.record_alloc(Request { me: 7, succeeded: false, size: 1 }),
        AllocAction::Park
    );
    assert_eq!(budget.usage(), after_claim);
}

#[test]
fn a_contender_never_returns_after_the_claim() {
    let budget = Budget::new((), 10, None);

    assert_eq!(budget.record_alloc(got(7, 11)), AllocAction::Dispatch { peak: 11 });

    assert_eq!(budget.record_alloc(got(8, 1)), AllocAction::Park);
    assert_eq!(budget.usage(), Usage { current: 12, peak: 12, overflowed: true, owner: Some(7) });
    assert_eq!(
        budget.record_alloc(Request { me: 9, succeeded: false, size: 1 }),
        AllocAction::Park
    );
    assert_eq!(budget.handler_thread(), Some(7));
}

#[test]
fn freeing_does_not_undo_an_overflow() {
    let budget = Budget::new((), 10, None);

    assert_eq!(budget.record_alloc(got(1, 11)), AllocAction::Dispatch { peak: 11 });
    budget.record_dealloc(11);

    assert_eq!(budget.usage(), Usage { current: 0, peak: 11, overflowed: true, owner: Some(1) });
    assert_eq!(budget.record_alloc(got(2, 1)), AllocAction::Park);
    assert_eq!(budget.record_alloc(got(1, 1)), AllocAction::Park);
}

#[test]
fn guard_stops_only_the_owner_after_the_overflow() {
    assert!(guards(true, Some(4), 4));
    assert!(!guards(true, Some(4), 5));
    assert!(!guards(false, Some(4), 4));
    assert!(!guards(true, None, 4));
    assert!(!guards(false, None, 0));
}

#[test]
fn over_budget_is_strict() {
    assert!(!over_budget(1024, 1023));
    assert!(!over_budget(1024, 1024));
    assert!(over_budget(1024, 1025));
    assert!(!over_budget(0, 0));
    assert!(over_budget(0, 1));
    assert!(!over_budget(usize::MAX, usize::MAX));
}

#[test]
fn the_handler_thread_parks_whatever_else_it_saw() {
    for peak in [0usize, 1024, 1025] {
        for won in [false, true] {
            let seen = Sighting { overflowed: true, owner: Some(4), peak, won };
            assert_eq!(decide(1024, 4, seen), AllocAction::Park);
        }
    }
}

#[test]
fn within_the_budget_the_call_proceeds() {
    let quiet = Sighting { overflowed: false, owner: None, peak: 1024, won: false };
    let after_overflow = Sighting { overflowed: true, owner: Some(4), peak: 7, won: true };

    assert_eq!(decide(1024, 1, quiet), AllocAction::Proceed);
    assert_eq!(decide(1024, 5, after_overflow), AllocAction::Proceed);
    assert_eq!(decide(0, 1, Sighting { peak: 0, ..quiet }), AllocAction::Proceed);
}

#[test]
fn the_winner_dispatches_and_the_loser_parks() {
    let lost = Sighting { overflowed: true, owner: Some(4), peak: 1536, won: false };
    let won = Sighting { overflowed: false, owner: None, peak: 1536, won: true };

    assert_eq!(decide(1024, 5, won), AllocAction::Dispatch { peak: 1536 });
    assert_eq!(decide(1024, 5, lost), AllocAction::Park);
    assert_eq!(decide(1535, 5, won), AllocAction::Dispatch { peak: 1536 });
    assert_eq!(decide(1536, 5, won), AllocAction::Proceed);
}

#[test]
fn diagnostics_are_fixed() {
    assert_eq!(default_overflow_handler(0), "overflow(default overflow handler)");
    assert_eq!(default_overflow_handler(usize::MAX), "overflow(default overflow handler)");
    assert_eq!(handler_returned(), "overflow handler must be panic");
}
