//! The profiler client: the call trees it builds from thread samples.
pub mod tree;
pub mod call_tree;
pub mod client_utils;
pub mod sampler_client;
pub mod client_encoder;
