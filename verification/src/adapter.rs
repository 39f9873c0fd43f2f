//! Functional adapters: wrappers that let an ordinary function with the call
//! signature act as a service or as a connection factory. An adapter has no
//! readiness state of its own, so its `poll_ready` always answers `Ready`.

use vstd::prelude::*;

verus! {

use crate::http::ConnInfo;
use crate::http::Request;
use crate::http::Response;
use crate::service::PollReady;
use crate::service::Service;
use crate::service::SvcError;

/// A request service made from a plain function.
pub struct AppFn<F> {
    pub f: F,
}

/// Wraps a function from [`Request`] to a response result as a service.
///
/// The wrapped function stands in for the whole call phase, so it must
/// accept every request; the adapter adds no guard of its own.
pub fn app_fn<F: Fn(Request) -> Result<Response, SvcError>>(f: F) -> (r: AppFn<F>)
    requires
        forall|input: Request| #[trigger] call_requires(f, (input,)),
    ensures
        r.f == f,
{
    AppFn { f }
}

impl<F: Fn(Request) -> Result<Response, SvcError>> Service<Request, Response> for AppFn<F> {
    open spec fn inv(&self) -> bool {
        forall|input: Request| #[trigger] call_requires(self.f, (input,))
    }

    open spec fn ready(&self) -> bool {
        true
    }

    /// The adapter is always ready and a readiness check never changes it.
    open spec fn poll_spec(&self, r: PollReady, post: Self) -> bool {
        r is Ready && post == *self
    }

    /// A call hands the input to the wrapped function and returns its result
    /// unchanged.
    open spec fn call_spec(&self, input: Request, post: Self, r: Result<Response, SvcError>) -> bool {
        post == *self && call_ensures(self.f, (input,), r)
    }

    fn poll_ready(&mut self) -> (r: PollReady) {
        PollReady::Ready
    }

    fn call(&mut self, input: Request) -> (r: Result<Response, SvcError>) {
        (self.f)(input)
    }
}

/// A connection factory made from a plain function.
pub struct AppFactoryFn<F> {
    pub f: F,
}

/// Wraps a function from [`ConnInfo`] to a service result as a connection
/// factory.
///
/// The wrapped function stands in for the whole call phase, so it must
/// accept every connection; the adapter adds no guard of its own.
pub fn app_factory_fn<S, F: Fn(ConnInfo) -> Result<S, SvcError>>(f: F) -> (r: AppFactoryFn<F>)
    requires
        forall|conn: ConnInfo| #[trigger] call_requires(f, (conn,)),
    ensures
        r.f == f,
{
    AppFactoryFn { f }
}

impl<S, F: Fn(ConnInfo) -> Result<S, SvcError>> Service<ConnInfo, S> for AppFactoryFn<F> {
    open spec fn inv(&self) -> bool {
        forall|conn: ConnInfo| #[trigger] call_requires(self.f, (conn,))
    }

    open spec fn ready(&self) -> bool {
        true
    }

    /// The adapter is always ready and a readiness check never changes it.
    open spec fn poll_spec(&self, r: PollReady, post: Self) -> bool {
        r is Ready && post == *self
    }

    /// A call hands the connection metadata to the wrapped function and
    /// returns its result unchanged.
    open spec fn call_spec(&self, conn: ConnInfo, post: Self, r: Result<S, SvcError>) -> bool {
        post == *self && call_ensures(self.f, (conn,), r)
    }

    fn poll_ready(&mut self) -> (r: PollReady) {
        PollReady::Ready
    }

    fn call(&mut self, conn: ConnInfo) -> (r: Result<S, SvcError>) {
        (self.f)(conn)
    }
}

} // verus!
