//! Verified core of a Kafka consumer built around an embedded engine.
//!
//! The crate holds what the consumer decides and computes: the typed client
//! options and the configuration document ([`options`], [`config`]), how a
//! callback's raw values become a message and how its outcome is answered
//! ([`trampolines`], [`ffi`]), what the Prometheus series record
//! ([`metrics`], [`exposition`]), the order in which an engine is brought up
//! ([`engine`]), the routing of engine log lines ([`logging`]) and the typed
//! snapshot document ([`snapshot`]). What its operations come to, whatever
//! they are called with, stands in [`operations`]. Sockets, threads and the
//! engine library itself are left to the program around it.

pub mod config;
pub mod engine;
pub mod exposition;
pub mod ffi;
pub mod foreign;
pub mod json;
pub mod logging;
pub mod metrics;
pub mod operations;
pub mod options;
pub mod pairs;
pub mod producer;
pub mod snapshot;
pub mod text;
pub mod trampolines;

pub use config::DemuxConfig;
pub use engine::{Builder, Llingr, LlingrError};
pub use logging::LOG_TARGET;
pub use metrics::{Metrics, MetricsHandle, OPENMETRICS_CONTENT_TYPE};
pub use options::{AutoOffsetReset, BalanceStrategy, ClientLogLevel, Options};
pub use snapshot::Snapshot;
