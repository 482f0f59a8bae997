//! Incremental, cached, split-aware task-graph core for interactive charts.
//!
//! A chart specification is split into a server-evaluated part and a
//! client-evaluated part. The pieces here are the shared value model
//! ([`task_value::TaskValue`]), its wire codec, the task variants that
//! produce values, the dependency graph with staleness tracking, the
//! sequential evaluation planner for the cache, the stitching step
//! that computes the client/server communication plan, and the
//! interactive session's state machine.

pub mod codec;
pub mod error;
pub mod graph;
pub mod ingest;
pub mod json;
pub mod runtime;
pub mod scalar;
pub mod session;
pub mod stitch;
pub mod table;
pub mod tasks;
pub mod task_value;
pub mod variable;
