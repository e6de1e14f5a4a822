//! Aggregation core of an HTTP fetch benchmark.
//!
//! A batch of URLs is fetched under one of several execution strategies.
//! Whatever the strategy, each URL yields exactly one [`FetchOutcome`], a
//! shared [`CompletionCounter`] is bumped once per finished task, and the
//! whole batch is summarised in a [`RunReport`]. The network and the threads
//! live outside this crate; what is proved here is the bookkeeping they feed.

pub mod collector;
pub mod counter;
pub mod laws;
pub mod outcome;
pub mod queue;
pub mod strategy;

pub use collector::{Collector, RunReport};
pub use counter::CompletionCounter;
pub use outcome::{ErrorKind, FetchOutcome};
pub use queue::TaskQueue;
pub use strategy::{run_sequential, ClientPolicy, Strategy, StrategyConfig};
