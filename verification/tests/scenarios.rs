//! The budget run as a global allocator would run it, by one execution.

use bound_alloc::{default_overflow_handler, handler_returned, AllocAction, BoundAlloc, Request, Usage};
use std::alloc::System;
use std::cell::Cell;
use std::rc::Rc;

type Plain = BoundAlloc<System, fn(usize)>;

const ME: u64 = 1;

/// One successful allocation of `size` bytes by `ME`, carried out as the
/// allocator does: the policy fails the process, and nothing parks here.
fn allocate(budget: &Plain, size: usize) -> AllocAction {
    let action = budget.record_alloc(Request { me: ME, succeeded: true, size });
    if let AllocAction::Dispatch { peak } = action {
        if let Some(handler) = budget.overflow_handler() {
            handler(peak);
        }
        panic!("{}", budget.fatal_diagnostic(peak));
    }
    action
}

#[test]
#[should_panic(expected = "overflow(default overflow handler)")]
fn it_works() {
    let alloc = Plain::new(System, 1024, None);

    allocate(&alloc, 512);
    allocate(&alloc, 512);
    allocate(&alloc, 512);
}

#[test]
fn it_not_works() {
    let alloc = Plain::new(System, 2048, None);

    assert_eq!(allocate(&alloc, 512), AllocAction::Proceed);
    assert_eq!(allocate(&alloc, 512), AllocAction::Proceed);
    assert_eq!(allocate(&alloc, 512), AllocAction::Proceed);
}

#[test]
fn third_allocation_overflows_a_budget_of_1024() {
    let alloc = Plain::new(System, 1024, None);
    let request = Request { me: ME, succeeded: true, size: 512 };

    assert_eq!(alloc.record_alloc(request), AllocAction::Proceed);
    assert_eq!(alloc.usage(), Usage { current: 512, peak: 512, overflowed: false, owner: None });
    assert_eq!(alloc.record_alloc(request), AllocAction::Proceed);
    assert_eq!(alloc.usage(), Usage { current: 1024, peak: 1024, overflowed: false, owner: None });
    assert_eq!(alloc.record_alloc(request), AllocAction::Dispatch { peak: 1536 });
    assert_eq!(
        alloc.usage(),
        Usage { current: 1536, peak: 1536, overflowed: true, owner: Some(ME) }
    );
    assert_eq!(alloc.fatal_diagnostic(1536), "overflow(default overflow handler)");
    assert_eq!(default_overflow_handler(1536), "overflow(default overflow handler)");
}

#[test]
fn three_allocations_fit_a_budget_of_2048() {
    let alloc = Plain::new(System, 2048, None);
    let request = Request { me: ME, succeeded: true, size: 512 };

    for _ in 0..3 {
        assert_eq!(alloc.record_alloc(request), AllocAction::Proceed);
    }
    assert_eq!(alloc.usage(), Usage { current: 1536, peak: 1536, overflowed: false, owner: None });
    assert_eq!(alloc.handler_thread(), None);
}

#[test]
fn a_custom_handler_gets_the_peak() {
    let seen = Rc::new(Cell::new(None));
    let report = {
        let seen = Rc::clone(&seen);
        move |peak: usize| seen.set(Some(peak))
    };
    let alloc = BoundAlloc::<System, Box<dyn Fn(usize)>>::new(System, 1024, Some(Box::new(report)));
    let request = Request { me: ME, succeeded: true, size: 512 };

    assert_eq!(alloc.record_alloc(request), AllocAction::Proceed);
    assert_eq!(alloc.record_alloc(request), AllocAction::Proceed);
    assert_eq!(seen.get(), None);
    match alloc.record_alloc(request) {
        AllocAction::Dispatch { peak } => {
            let handler = alloc.overflow_handler().expect("a handler was given");
            handler(peak);
        }
        other => panic!("the third allocation ended in {:?}", other),
    }

    assert_eq!(seen.get(), Some(1536));
    assert_eq!(alloc.fatal_diagnostic(1536), "overflow handler must be panic");
    assert_eq!(handler_returned(), "overflow handler must be panic");
}

#[test]
fn new_keeps_what_it_was_given() {
    fn strict(_peak: usize) {}
    let with = Plain::new(System, 4096, Some(strict as fn(usize)));
    let without = Plain::new(System, 0, None);

    assert_eq!(with.bound_size(), 4096);
    assert!(with.overflow_handler().is_some());
    assert_eq!(without.bound_size(), 0);
    assert!(without.overflow_handler().is_none());
    assert_eq!(with.usage(), Usage { current: 0, peak: 0, overflowed: false, owner: None });
    assert_eq!(without.usage(), Usage { current: 0, peak: 0, overflowed: false, owner: None });
}

#[test]
fn new_keeps_the_delegate() {
    let alloc = BoundAlloc::<u32, fn(usize)>::new(7, 64, None);

    assert_eq!(*alloc.delegate(), 7);
}
