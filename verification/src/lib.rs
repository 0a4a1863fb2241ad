//! Execution core of a columnar query engine: partitioned table scans,
//! a closed set of scalar and aggregate expression nodes evaluated over
//! columnar batches, and pull-based pipeline stages that stream batches.

pub mod aggregator;
pub mod arithmetics;
pub mod context;
pub mod database;
pub mod datablocks;
pub mod datastreams;
pub mod datavalues;
pub mod error;
pub mod function;
pub mod partition;
pub mod table;
pub mod transform_source;

pub use error::EngineError;
