//! The JVM agent: its bookkeeping of event handlers and capabilities, the
//! types it reports about classes, methods and threads, and the sample
//! queue it fills.
pub mod error;
pub mod event;
pub mod capabilities;
pub mod version;
pub mod native;
pub mod thread;
pub mod method;
pub mod mem;
pub mod class;
pub mod jvm;
pub mod agent;
pub mod options;
pub mod config;
pub mod sample;
pub mod server;
pub mod environment;
pub mod encoder;
pub mod sampler;
pub mod instrumentation;
pub mod class_builder;
pub mod runtime;
pub mod stacks;
pub mod attach;
