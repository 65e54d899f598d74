//! What an allocation call ends in, and how that is decided.
//!
//! A call reads the shared counters at a few moments of its own, while other
//! executions go on writing to them. What it read is a [`Sighting`]; what it
//! has to do then is the [`verdict`] on that sighting, and on nothing else.

use vstd::prelude::*;

verus! {

/// What the calling execution has to do with an allocation request.
#[derive(Clone, Copy, Debug, PartialEq, Eq, Structural)]
pub enum AllocAction {
    /// Hand the delegate's result back, null or not.
    Proceed,
    /// Block for good: the call never returns.
    Park,
    /// The calling execution claimed the overflow: run the overflow policy
    /// with `peak`, the peak usage that it saw over the bound.
    Dispatch { peak: usize },
}

/// What one allocation call read of the shared state. A field that the call
/// did not get to read may hold anything: the verdict does not look at it.
#[derive(Clone, Copy, Debug, PartialEq, Eq, Structural)]
pub struct Sighting {
    /// The overflow flag, read by the reentrancy guard.
    pub overflowed: bool,
    /// The committed owner of the overflow, read by the reentrancy guard.
    pub owner: Option<u64>,
    /// The peak usage after the accounting, read by the overflow check.
    pub peak: usize,
    /// Whether the call's own claim of the overflow succeeded.
    pub won: bool,
}

/// The diagnostic of the built-in overflow policy.
pub open spec fn default_diagnostic() -> Seq<char> {
    "overflow(default overflow handler)"@
}

/// The diagnostic for a custom overflow policy that came back.
pub open spec fn returned_diagnostic() -> Seq<char> {
    "overflow handler must be panic"@
}

/// The execution `me` is the one that runs the overflow policy: the overflow
/// flag is set and the ownership committed to it.
pub open spec fn is_handler_thread(overflowed: bool, owner: Option<u64>, me: u64) -> bool {
    overflowed && owner == Some(me)
}

/// A peak usage of `peak` bytes is over a budget of `bound` bytes.
pub open spec fn exceeds(bound: usize, peak: usize) -> bool {
    bound < peak
}

/// What an allocation call by `me` ends in, under a budget of `bound` bytes,
/// when it read `seen`. The execution that runs the overflow policy parks
/// before anything is accounted. Otherwise a peak within the budget lets the
/// call proceed, and a peak over it makes the call dispatch if its claim
/// succeeded and park if it did not.
pub open spec fn verdict(bound: usize, me: u64, seen: Sighting) -> AllocAction {
    if is_handler_thread(seen.overflowed, seen.owner, me) {
        AllocAction::Park
    } else if !exceeds(bound, seen.peak) {
        AllocAction::Proceed
    } else if seen.won {
        AllocAction::Dispatch { peak: seen.peak }
    } else {
        AllocAction::Park
    }
}

/// The built-in overflow policy. It ignores the usage and yields the fixed
/// diagnostic with which the process is to fail.
pub fn default_overflow_handler(_usage: usize) -> (diagnostic: &'static str)
    ensures
        diagnostic@ == default_diagnostic(),
{
    "overflow(default overflow handler)"
}

/// The diagnostic with which the process is to fail when a custom overflow
/// policy returned instead of ending the calling execution.
pub fn handler_returned() -> (diagnostic: &'static str)
    ensures
        diagnostic@ == returned_diagnostic(),
{
    "overflow handler must be panic"
}

/// The reentrancy guard: whether an allocation by `me` comes from the
/// execution that is running the overflow policy.
pub fn guards(overflowed: bool, owner: Option<u64>, me: u64) -> (parked: bool)
    ensures
        parked == is_handler_thread(overflowed, owner, me),
{
    match owner {
        Some(id) => overflowed && id == me,
        None => false,
    }
}

/// The overflow check: whether `peak` is over `bound`.
pub fn over_budget(bound: usize, peak: usize) -> (over: bool)
    ensures
        over == exceeds(bound, peak),
{
    bound < peak
}

/// Decides what an allocation call by `me` ends in when it read `seen`.
pub fn decide(bound: usize, me: u64, seen: Sighting) -> (action: AllocAction)
    ensures
        action == verdict(bound, me, seen),
{
    if guards(seen.overflowed, seen.owner, me) {
        AllocAction::Park
    } else if !over_budget(bound, seen.peak) {
        AllocAction::Proceed
    } else if seen.won {
        AllocAction::Dispatch { peak: seen.peak }
    } else {
        AllocAction::Park
    }
}

/// The overflow policy is dispatched only by a call that won the claim, and
/// only with a peak over the bound.
pub proof fn dispatch_needs_claim(bound: usize, me: u64, seen: Sighting)
    ensures
        verdict(bound, me, seen) is Dispatch <==> !is_handler_thread(
            seen.overflowed,
            seen.owner,
            me,
        ) && exceeds(bound, seen.peak) && seen.won,
        verdict(bound, me, seen) matches AllocAction::Dispatch { peak } ==> peak == seen.peak,
{
}

} // verus!
