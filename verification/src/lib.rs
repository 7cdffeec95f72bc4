//! Distributed-tracing core: span identity and lifecycle, sampling, binary
//! propagation of span contexts, the bounded store of finished spans and the
//! vendor trace-state list.
//!
//! The library holds no state of its own and reads no clock: the settings,
//! the exporters and the span stores of a process are values that the caller
//! keeps, and every point in time is handed in.

pub mod basetypes;
pub mod config;
pub mod context;
pub mod export;
pub mod id_generator;
pub mod propagation;
pub mod sampling;
pub mod spanbucket;
pub mod spanstore;
pub mod status_codes;
pub mod trace;
pub mod tracestate;

pub use crate::basetypes::{SpanID, TraceID};
pub use crate::config::{load_config, set_global_default_sampler, set_global_id_generator, Config};
pub use crate::export::{register_exporter, unregister_exporter};
pub use crate::trace::{
    start_span, start_span_with_remote_parent, Span, SpanContext, TraceOptions,
};
