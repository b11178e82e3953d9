//! A coverage-guided, grammar-driven fuzzing harness core.
//!
//! The crate holds the verified heart of a fuzzer that drives an external,
//! non-cooperative target process: the shared-memory coverage channel and its
//! descriptor exchange, the guard-count discovery that sizes the channel, the
//! per-execution lifecycle decisions (invocation plan, outcome
//! classification), the observers that read the channel after each run, the
//! correctness-statistics histogram with its periodic reports, and the
//! pluggable generation/mutation strategy policies.
//!
//! Process spawning, dynamic-loader interception and the evolutionary engine
//! itself live outside this crate; the library exchanges plain values with
//! them and states in contracts what it computes.

pub mod channel;
pub mod discovery;
pub mod errors;
pub mod executor;
pub mod feedback;
pub mod observer;
pub mod shim;
pub mod strategy;
pub mod word;

pub use errors::FuzzerError;
