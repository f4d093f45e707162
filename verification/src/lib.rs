//! A processor/port dataflow execution core for an analytical database,
//! together with the columnar-array and plan fragments that surround it.
//!
//! The engine turns a physical plan into a graph of processors joined by
//! single-slot ports, and drives that graph to completion with a cooperative
//! scheduler. Backpressure is structural: a port holds at most one batch.

pub mod build_res;
pub mod catalog;
pub mod decimal;
pub mod dict;
pub mod error;
pub mod exchange;
pub mod executor;
pub mod ipc;
pub mod marray;
pub mod meta;
pub mod parquet_ext;
pub mod parquet_read;
pub mod parquet_write;
pub mod pipe;
pub mod pipeline;
pub mod plan;
pub mod port;
pub mod processor;
pub mod profile;
pub mod row;
pub mod sink;
pub mod task;

pub use build_res::{PipelineBuildResult, PipelineExecutor, run};
pub use error::EngineError;
pub use pipeline::Pipeline;
pub use port::{Port, PortState};
pub use row::{DataBlock, Row};
