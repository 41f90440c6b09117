//! Flare profiler core: the on-disk formats of the sample store (time series
//! files and tuple-indexed files), the in-memory call trees built from stack
//! samples, and the bookkeeping of the JVM agent.

pub mod endian;
pub mod text;
pub mod arith;
pub mod clock;
pub mod errors;
pub mod value_type;
pub mod timeseries;
pub mod file_utils;
pub mod collections;
pub mod agent;
pub mod client;
pub mod server;
pub mod tuple_indexed;
pub mod protocol;
