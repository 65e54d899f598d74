//! The counters as mathematics.
//!
//! The counters of a [`BoundAlloc`](crate::BoundAlloc) live in atomics and in
//! a write-once cell. [`Usage`] is what they hold at one instant, an [`Op`]
//! is one atomic write to them, and a [`Request`] is one allocation call.
//! Executions that run at the same time interleave their writes, so what holds
//! of every sequence of writes holds of every interleaving. What is proved of
//! all this stands in [`laws`](crate::laws).

use crate::policy::{
    decide, exceeds, guards, is_handler_thread, over_budget, verdict, AllocAction, Sighting,
};
use vstd::prelude::*;

verus! {

/// The shared state at one instant.
#[derive(Clone, Copy, Debug, PartialEq, Eq)]
pub struct Usage {
    /// Bytes presently considered live.
    pub current: usize,
    /// The most that `current` was seen to be.
    pub peak: usize,
    /// Whether the peak was seen over the bound.
    pub overflowed: bool,
    /// The execution that claimed the overflow, if one did.
    pub owner: Option<u64>,
}

/// One atomic write to the shared state.
#[derive(Clone, Copy, Debug, PartialEq, Eq)]
pub enum Op {
    /// Add to `current`, wrapping.
    Grow(usize),
    /// Subtract from `current`, wrapping.
    Shrink(usize),
    /// Raise `peak` to a value, unless it is higher already.
    Raise(usize),
    /// Set the overflow flag.
    Flag,
    /// Commit the ownership of the overflow to an execution, unless it is
    /// committed already.
    Claim(u64),
}

/// One allocation call as the accounting sees it.
#[derive(Clone, Copy, Debug, PartialEq, Eq)]
pub struct Request {
    /// The identity of the calling execution.
    pub me: u64,
    /// Whether the delegate handed out a block.
    pub succeeded: bool,
    /// The size asked for, in bytes.
    pub size: usize,
}

/// The value that a counter takes when arithmetic on it gives `i`.
pub open spec fn wrap(i: int) -> usize {
    (i % (usize::MAX + 1)) as usize
}

/// The sum of `sizes`.
pub open spec fn sum_of(sizes: Seq<usize>) -> int
    decreases sizes.len(),
{
    if sizes.len() == 0 {
        0
    } else {
        sum_of(sizes.drop_last()) + sizes.last()
    }
}

/// The bytes that `requests` got: the sizes of those that succeeded, summed.
pub open spec fn total(requests: Seq<Request>) -> int
    decreases requests.len(),
{
    if requests.len() == 0 {
        0
    } else {
        total(requests.drop_last()) + if requests.last().succeeded {
            requests.last().size as int
        } else {
            0
        }
    }
}

/// Successful requests of the execution `me`, one for each size.
pub open spec fn requests_of(me: u64, sizes: Seq<usize>) -> Seq<Request> {
    Seq::new(sizes.len(), |k: int| Request { me, succeeded: true, size: sizes[k] })
}

impl Usage {
    /// The state of a new instance.
    pub open spec fn fresh() -> Usage {
        Usage { current: 0, peak: 0, overflowed: false, owner: None }
    }

    /// The state after one atomic write.
    pub open spec fn step(self, op: Op) -> Usage {
        match op {
            Op::Grow(n) => Usage { current: wrap(self.current + n), ..self },
            Op::Shrink(n) => Usage { current: wrap(self.current - n), ..self },
            Op::Raise(seen) => Usage { peak: if self.peak < seen { seen } else { self.peak }, ..self },
            Op::Flag => Usage { overflowed: true, ..self },
            Op::Claim(id) => if self.owner is None {
                Usage { owner: Some(id), ..self }
            } else {
                self
            },
        }
    }

    /// The state after a sequence of atomic writes, first to last.
    pub open spec fn run(self, ops: Seq<Op>) -> Usage
        decreases ops.len(),
    {
        if ops.len() == 0 {
            self
        } else {
            self.run(ops.drop_last()).step(ops.last())
        }
    }

    /// Whether some sequence of atomic writes leads from this state to
    /// `later`.
    pub open spec fn reaches(self, later: Usage) -> bool {
        exists|ops: Seq<Op>| #[trigger] self.run(ops) == later
    }

    /// Whether `op` is a claim that succeeds in this state.
    pub open spec fn wins(self, op: Op) -> bool {
        op is Claim && self.owner is None
    }

    /// How many claims succeed while `ops` run from this state.
    pub open spec fn winners(self, ops: Seq<Op>) -> nat
        decreases ops.len(),
    {
        if ops.len() == 0 {
            0
        } else {
            self.winners(ops.drop_last()) + if self.run(ops.drop_last()).wins(ops.last()) {
                1nat
            } else {
                0nat
            }
        }
    }

    /// An overflow was seen and claimed.
    pub open spec fn claimed(self, bound: usize) -> bool {
        self.owner is Some && self.overflowed && exceeds(bound, self.peak)
    }

    /// The discipline of the owner: it is committed only after the peak was
    /// seen over the bound and the flag was set.
    pub open spec fn wf(self, bound: usize) -> bool {
        self.owner is Some ==> self.claimed(bound)
    }

    /// The state between calls: the flag is set, and the owner committed, if
    /// and only if the peak is over the bound.
    pub open spec fn settled(self, bound: usize) -> bool {
        &&& self.overflowed <==> exceeds(bound, self.peak)
        &&& self.owner is Some <==> exceeds(bound, self.peak)
    }

    /// The state after the accounting of one request: a block that was
    /// handed out is added to the live bytes, and the peak raised to them.
    pub open spec fn accounted(self, request: Request) -> Usage {
        if request.succeeded {
            let grown = self.step(Op::Grow(request.size));
            grown.step(Op::Raise(grown.current))
        } else {
            self
        }
    }

    /// What an allocation call reads when it runs undisturbed from this
    /// state.
    pub open spec fn sighting(self, request: Request) -> Sighting {
        Sighting {
            overflowed: self.overflowed,
            owner: self.owner,
            peak: self.accounted(request).peak,
            won: self.wins(Op::Claim(request.me)),
        }
    }

    /// What an allocation call that runs undisturbed from this state ends in.
    pub open spec fn alloc_action(self, bound: usize, request: Request) -> AllocAction {
        verdict(bound, request.me, self.sighting(request))
    }

    /// The atomic writes that an allocation call makes when it runs
    /// undisturbed from this state.
    pub open spec fn alloc_ops(self, bound: usize, request: Request) -> Seq<Op> {
        let account = if request.succeeded {
            seq![Op::Grow(request.size), Op::Raise(wrap(self.current + request.size))]
        } else {
            Seq::empty()
        };
        if is_handler_thread(self.overflowed, self.owner, request.me) {
            Seq::empty()
        } else if exceeds(bound, self.accounted(request).peak) {
            account + seq![Op::Flag, Op::Claim(request.me)]
        } else {
            account
        }
    }

    /// The state that an allocation call leaves when it runs undisturbed.
    pub open spec fn allocate(self, bound: usize, request: Request) -> Usage {
        if is_handler_thread(self.overflowed, self.owner, request.me) {
            self
        } else {
            let accounted = self.accounted(request);
            if exceeds(bound, accounted.peak) {
                accounted.step(Op::Flag).step(Op::Claim(request.me))
            } else {
                accounted
            }
        }
    }

    /// The state that a deallocation call leaves.
    pub open spec fn deallocate(self, size: usize) -> Usage {
        self.step(Op::Shrink(size))
    }

    /// The state after the allocation calls of `requests`, one after the
    /// other.
    pub open spec fn serve(self, bound: usize, requests: Seq<Request>) -> Usage
        decreases requests.len(),
    {
        if requests.len() == 0 {
            self
        } else {
            self.serve(bound, requests.drop_last()).allocate(bound, requests.last())
        }
    }

    /// What call `k` of `requests` ends in when they run one after the other.
    pub open spec fn answer(self, bound: usize, requests: Seq<Request>, k: int) -> AllocAction {
        self.serve(bound, requests.take(k)).alloc_action(bound, requests[k])
    }

    /// The state after one deallocation call for each size, first to last.
    pub open spec fn release(self, sizes: Seq<usize>) -> Usage
        decreases sizes.len(),
    {
        if sizes.len() == 0 {
            self
        } else {
            self.release(sizes.drop_last()).deallocate(sizes.last())
        }
    }
}

/// The model, run. The counters of a [`BoundAlloc`](crate::BoundAlloc) cannot
/// be held to [`Usage`] by proof, so tests hold them to it: these functions
/// compute what the model says of calls that run one after the other.
impl Usage {
    /// The state of a new instance.
    pub fn new() -> (fresh: Usage)
        ensures
            fresh == Usage::fresh(),
    {
        Usage { current: 0, peak: 0, overflowed: false, owner: None }
    }

    /// The state that an allocation call leaves when it runs undisturbed
    /// from this one, and what the call ends in.
    pub fn allocated(self, bound: usize, request: Request) -> (after: (Usage, AllocAction))
        ensures
            after.0 == self.allocate(bound, request),
            after.1 == self.alloc_action(bound, request),
    {
        let mut next = self;
        if !guards(self.overflowed, self.owner, request.me) {
            if request.succeeded {
                proof {
                    lemma_wrap_is_wrapping(self.current, request.size);
                }
                next.current = self.current.wrapping_add(request.size);
                if next.peak < next.current {
                    next.peak = next.current;
                }
            }
            if over_budget(bound, next.peak) {
                next.overflowed = true;
                if next.owner.is_none() {
                    next.owner = Some(request.me);
                }
            }
        }
        let seen = Sighting {
            overflowed: self.overflowed,
            owner: self.owner,
            peak: next.peak,
            won: self.owner.is_none(),
        };
        (next, decide(bound, request.me, seen))
    }

    /// The state that a deallocation call leaves.
    pub fn deallocated(self, size: usize) -> (after: Usage)
        ensures
            after == self.deallocate(size),
    {
        proof {
            lemma_wrap_is_wrapping(self.current, size);
        }
        Usage { current: self.current.wrapping_sub(size), ..self }
    }
}

/// A counter wraps as the wrapping arithmetic of its type does.
proof fn lemma_wrap_is_wrapping(held: usize, n: usize)
    ensures
        wrap(held + n) == vstd::wrapping::usize_specs::wrapping_add(held, n),
        wrap(held - n) == vstd::wrapping::usize_specs::wrapping_sub(held, n),
{
    let m: int = usize::MAX + 1;
    if held + n > usize::MAX {
        vstd::arithmetic::div_mod::lemma_mod_sub_multiples_vanish(held + n, m);
        vstd::arithmetic::div_mod::lemma_small_mod((held + n - m) as nat, m as nat);
    } else {
        vstd::arithmetic::div_mod::lemma_small_mod((held + n) as nat, m as nat);
    }
    if held - n < 0 {
        vstd::arithmetic::div_mod::lemma_mod_add_multiples_vanish(held - n, m);
        vstd::arithmetic::div_mod::lemma_small_mod((held - n + m) as nat, m as nat);
    } else {
        vstd::arithmetic::div_mod::lemma_small_mod((held - n) as nat, m as nat);
    }
}

} // verus!
