//! A minimal framework for request-handling services built around a two-phase
//! readiness/call protocol: a caller confirms that a service can accept one
//! unit of work (`poll_ready`) before handing it that work (`call`).
//!
//! The crate has two layers of the protocol: a connection-factory layer that
//! produces a per-connection service from connection metadata, and a request
//! layer that turns one request into one response. A dispatch engine drives
//! both layers over scripted arrival events; a demo handler illustrates
//! counter state shared across calls with a deterministic failure rule.

pub mod adapter;
pub mod decimal;
pub mod demo;
pub mod engine;
pub mod http;
pub mod service;

pub use demo::conn_counter_header;
pub use demo::demo_serve;
pub use demo::DemoApp;
pub use demo::DemoFactory;
pub use demo::EchoApp;
pub use engine::dispatch;
pub use engine::serve;
pub use engine::serve_requests;
pub use engine::synth_conn;
pub use engine::synth_request;
pub use engine::ConnOutcome;
pub use engine::DispatchOutcome;

pub use adapter::app_factory_fn;
pub use adapter::app_fn;
pub use adapter::AppFactoryFn;
pub use adapter::AppFn;
pub use http::ConnInfo;
pub use http::Headers;
pub use http::Request;
pub use http::Response;
pub use service::PollReady;
pub use service::Service;
pub use service::SvcError;
