//! The profiler collector: the call trees it builds from thread samples
//! and the analysis of slow method calls.
pub mod tree;
pub mod method_analysis;
pub mod sample;
pub mod collector;
pub mod stack_tree;
pub mod ordinal_tree;
pub mod threads;
pub mod sample_encoder;
pub mod profiler;
