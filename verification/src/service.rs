//! The two-phase service contract: a non-blocking readiness check that must
//! precede each call, and the call itself, which consumes one input and
//! produces one result.

use vstd::prelude::*;

verus! {

/// Why a readiness check or a unit of work failed.
#[derive(Debug)]
pub struct SvcError {
    pub detail: String,
}

/// The result of a readiness check: the instance can accept one unit of work
/// now (`Ready`), cannot accept one yet (`NotReady`, with a reason), or can
/// never accept one (`Failed`).
pub enum PollReady {
    Ready,
    NotReady(String),
    Failed(SvcError),
}

/// The two-phase contract every request handler and every connection factory
/// implements: `poll_ready`, then `call`.
///
/// `call` may only be invoked on an instance whose readiness was just
/// confirmed: its precondition is `ready`, and a `Ready` answer from
/// `poll_ready` is guaranteed to establish `ready` of the resulting state.
/// A caller that performs the poll-then-call sequence therefore never has a
/// call rejected because readiness lapsed between the two steps.
///
/// `inv` is the implementation's well-formedness condition, established by
/// its constructor and preserved by both operations. `poll_spec` and
/// `call_spec` are the implementation's own statements of what each
/// operation does; the engine's contracts are phrased over them.
pub trait Service<I, O>: Sized {
    /// Well-formedness of the instance.
    spec fn inv(&self) -> bool;

    /// Whether the instance can currently accept one unit of work.
    spec fn ready(&self) -> bool;

    /// What one readiness check does: how `post`, the state after the check,
    /// relates to the state before it, and which answers may come back.
    spec fn poll_spec(&self, r: PollReady, post: Self) -> bool;

    /// What one call does: how `post`, the state after the call, and the
    /// result `r` relate to the state before the call and its `input`.
    spec fn call_spec(&self, input: I, post: Self, r: Result<O, SvcError>) -> bool;

    /// Checks, without blocking, whether the instance can accept one unit of
    /// work.
    fn poll_ready(&mut self) -> (r: PollReady)
        requires
            old(self).inv(),
        ensures
            final(self).inv(),
            old(self).poll_spec(r, *final(self)),
            r is Ready ==> final(self).ready(),
    ;

    /// Consumes one input and produces one result. Must only be invoked
    /// after `poll_ready` answered `Ready`.
    fn call(&mut self, input: I) -> (r: Result<O, SvcError>)
        requires
            old(self).inv(),
            old(self).ready(),
        ensures
            final(self).inv(),
            old(self).call_spec(input, *final(self), r),
    ;
}

} // verus!
