//! A load generation engine for HTTP targets: admission scheduling under a
//! concurrency bound and a rate ceiling, per-request outcome tracking, and
//! order-independent aggregation of results.

pub mod error;
pub mod profile;
pub mod dispatcher;
pub mod record;
pub mod sorting;
pub mod aggregator;
pub mod execution;
pub mod run;
pub mod http_syntax;
pub mod template;
