//! The Java threads the agent reports on.
use super::native::{JavaLong, JavaObject, JavaThread};
use vstd::prelude::*;

verus! {

/// The link between a JVM thread and the agent code that asks about it.
#[derive(Clone, Copy, PartialEq, Eq, Hash, Debug, Structural)]
pub struct ThreadId {
    pub native_id: JavaThread,
}

/// What the JVM reports of a thread.
#[derive(Clone, PartialEq, Eq, Hash, Debug)]
pub struct Thread {
    pub id: ThreadId,
    /// The Java thread id (`Thread.getId()`).
    pub thread_id: JavaLong,
    pub name: String,
    pub priority: u32,
    pub is_daemon: bool,
    pub thread_group: JavaObject,
    pub context_class_loader: JavaObject,
}

} // verus!
