//! A structured logging and tracing pipeline: a global severity gate in front
//! of independently filtered sinks, a span tracker whose "current span" travels
//! with each logical task, trace sampling, batched export, and the steps of the
//! two instrumented request handlers that the service exposes.
pub mod severity;
pub mod span;
pub mod pipeline;
pub mod sampling;
pub mod exporter;
pub mod service;
