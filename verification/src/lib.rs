//! A GPU telemetry sampling library.
//!
//! One sampling pass turns per-device readings into a flat, sparse key-value
//! record, attributes a subset of the metrics to a target process tree, and
//! renders the record as a single JSON line with its keys in lexicographic
//! order.  Partial failures omit fields or fall back to a minimal record;
//! they never abort the sampling loop.

pub mod attribution;
pub mod jsontext;
pub mod keys;
pub mod laws;
pub mod numtext;
pub mod nvml_api;
pub mod order;
pub mod record;
pub mod sampler;
pub mod scheduler;
pub mod value;

