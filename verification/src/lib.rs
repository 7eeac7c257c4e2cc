//! Scheduling and callback-authentication choreography around a conversational
//! oracle and a generic task-queue service.
//!
//! The library holds the verified core: the registry of the singleton agent,
//! the deterministic transaction compiler, the builders for the requests that
//! the oracle and queue services receive, and the authentication of the
//! asynchronous callback. Delegated calls to the services themselves are
//! carried out by the surrounding program; this crate decides what is sent and
//! proves what each entry point returns.

pub mod addr;
pub mod callback;
pub mod compiler;
pub mod errors;
pub mod interact;
pub mod ixdata;
pub mod queue;
pub mod registry;
pub mod scheduler;
pub mod wire;

