//! A single-threaded publish/subscribe engine: activities with private state,
//! domains of shared state, topic-keyed subscriptions delivered in registration
//! order, and a deferred-operation queue that keeps every table consistent while
//! a broadcast is running.
//!
//! The engine is a verified state machine. Handlers are named by integer keys;
//! whoever owns the closures behind those keys runs them when the engine hands
//! out a delivery list, and reports back through the engine's operations.

pub mod activity;
pub mod domain;
pub mod nut;
pub mod response;
pub mod topic;
