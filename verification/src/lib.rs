//! Verified core of a publish/subscribe event pipeline.
//!
//! The library covers the reliability logic of the pipeline: the event
//! schema with its wire codec and round-trip guarantee, partition-key
//! routing, the publisher's bounded retry policy, the per-group filters,
//! the per-message consume step with its commit discipline, and the
//! counter map shared with the periodic reporter.  All broker and HTTP
//! I/O lives outside, in the unverified application shell, which feeds
//! this core plain values and carries out the decisions it returns.

pub mod aggregator;
pub mod codec;
pub mod digits;
pub mod event;
pub mod publisher;
pub mod routing;
pub mod subscriber;

pub use event::UserAction;
