//! The budget around a delegate allocator.

use crate::policy::{
    decide, default_diagnostic, default_overflow_handler, exceeds, guards, handler_returned,
    over_budget, returned_diagnostic, verdict, AllocAction, Sighting,
};
use crate::usage::{Request, Usage};
use once_cell::sync::OnceCell;
use std::sync::atomic::{AtomicBool, AtomicUsize, Ordering};
use vstd::prelude::*;

verus! {

/// A byte budget laid over the allocator `Alloc`.
///
/// It carries the delegate and the custom overflow handler for its caller,
/// and keeps the counters: the bytes that are live, the most that were live,
/// the overflow flag, and the execution that claimed the overflow.
///
/// The counters are shared by every execution that allocates. No lock guards
/// them: every access is one atomic operation, sequentially consistent, or
/// one call of the write-once cell. So their contents are not a function of
/// what one caller did, and no contract here speaks of them. What they hold
/// at one instant is a [`Usage`]; the laws of the counters are proved of
/// that, in [`laws`](crate::laws).
pub struct BoundAlloc<Alloc, Handler> {
    delegate: Alloc,
    bound_size: usize,
    overflow_handler: Option<Handler>,
    current: AtomicUsize,
    peak: AtomicUsize,
    bound_overflowed: AtomicBool,
    overflow_handler_thread: OnceCell<u64>,
}

impl<Alloc, Handler> BoundAlloc<Alloc, Handler> {
    /// The byte ceiling, fixed at construction.
    pub closed spec fn bound(&self) -> usize {
        self.bound_size
    }

    /// The allocator that does the allocating.
    pub closed spec fn inner(&self) -> Alloc {
        self.delegate
    }

    /// The custom overflow policy, if there is one.
    pub closed spec fn handler(&self) -> Option<Handler> {
        self.overflow_handler
    }

    /// A budget of `bound_size` bytes over `delegate`, with nothing
    /// allocated yet. Without an `overflow_handler` the overflow policy is
    /// [`default_overflow_handler`](crate::default_overflow_handler).
    pub fn new(delegate: Alloc, bound_size: usize, overflow_handler: Option<Handler>) -> (made: Self)
        ensures
            made.bound() == bound_size,
            made.inner() == delegate,
            made.handler() == overflow_handler,
    {
        BoundAlloc {
            delegate,
            bound_size,
            overflow_handler,
            current: AtomicUsize::new(0),
            peak: AtomicUsize::new(0),
            bound_overflowed: AtomicBool::new(false),
            overflow_handler_thread: OnceCell::new(),
        }
    }

    /// The byte ceiling.
    pub fn bound_size(&self) -> (bound: usize)
        ensures
            bound == self.bound(),
    {
        self.bound_size
    }

    /// The allocator to forward requests to.
    pub fn delegate(&self) -> (delegate: &Alloc)
        ensures
            *delegate == self.inner(),
    {
        &self.delegate
    }

    /// The custom overflow policy, if there is one.
    pub fn overflow_handler(&self) -> (handler: Option<&Handler>)
        ensures
            handler is Some <==> self.handler() is Some,
            handler matches Some(held) ==> Some(*held) == self.handler(),
    {
        self.overflow_handler.as_ref()
    }

    /// The diagnostic with which the process fails once the overflow policy
    /// was run for a peak of `peak` bytes: that of the built-in policy where
    /// there is no custom one, and else the one for a custom policy that
    /// came back.
    pub fn fatal_diagnostic(&self, peak: usize) -> (diagnostic: &'static str)
        ensures
            diagnostic@ == if self.handler() is Some {
                returned_diagnostic()
            } else {
                default_diagnostic()
            },
    {
        match self.overflow_handler {
            Some(_) => handler_returned(),
            None => default_overflow_handler(peak),
        }
    }

    /// The execution that claimed the overflow, as this moment shows it.
    pub fn handler_thread(&self) -> (owner: Option<u64>) {
        match self.overflow_handler_thread.get() {
            Some(id) => Some(*id),
            None => None,
        }
    }

    /// The counters as this moment shows them, read one by one.
    pub fn usage(&self) -> (seen: Usage) {
        Usage {
            current: self.current.load(Ordering::SeqCst),
            peak: self.peak.load(Ordering::SeqCst),
            overflowed: self.bound_overflowed.load(Ordering::SeqCst),
            owner: self.handler_thread(),
        }
    }

    /// Accounts for one allocation request that the delegate has answered,
    /// and says what the calling execution has to do.
    ///
    /// The reentrancy guard comes first: the execution that runs the overflow
    /// policy is not accounted for. Else a block that was handed out is added
    /// to the live bytes and the peak is raised to them. Then the overflow
    /// check: with the peak over the bound the flag is set and the ownership
    /// of the overflow claimed for the caller. The writes are those of
    /// [`Usage::alloc_ops`], in that order.
    ///
    /// Other executions write to the counters at the same time, so the
    /// contract states what holds whatever they did: the action is the
    /// [`verdict`] on what this call read.
    pub fn record_alloc(&self, request: Request) -> (action: AllocAction)
        ensures
            exists|seen: Sighting| action == #[trigger] verdict(self.bound(), request.me, seen),
            action matches AllocAction::Dispatch { peak } ==> exceeds(self.bound(), peak),
    {
        let mut seen = Sighting { overflowed: false, owner: None, peak: 0, won: false };
        seen.overflowed = self.bound_overflowed.load(Ordering::SeqCst);
        if seen.overflowed {
            seen.owner = self.handler_thread();
        }
        if !guards(seen.overflowed, seen.owner, request.me) {
            if request.succeeded {
                self.current.fetch_add(request.size, Ordering::SeqCst);
                let current: usize = self.current.load(Ordering::SeqCst);
                self.peak.fetch_max(current, Ordering::SeqCst);
            }
            seen.peak = self.peak.load(Ordering::SeqCst);
            if over_budget(self.bound_size, seen.peak) {
                self.bound_overflowed.store(true, Ordering::SeqCst);
                seen.won = self.overflow_handler_thread.set(request.me).is_ok();
            }
        }
        let action = decide(self.bound_size, request.me, seen);
        assert(action == verdict(self.bound(), request.me, seen));
        action
    }

    /// Accounts for one deallocation of `size` bytes that the delegate has
    /// carried out: takes them off the live bytes, in one atomic
    /// subtraction. The peak and the overflow stay as they are.
    pub fn record_dealloc(&self, size: usize) {
        self.current.fetch_sub(size, Ordering::SeqCst);
    }
}

} // verus!
