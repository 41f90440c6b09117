//! The runtime events the agent can observe: an object allocated, an
//! object freed, a method entered or left.
use super::class::ClassId;
use super::method::MethodId;
use super::thread::{Thread, ThreadId};
use vstd::prelude::*;

verus! {

/// An event of the running JVM.
pub trait RuntimeEvent {

}

/// An object allocated: its class, the thread that allocated it and its
/// size in bytes.
pub struct ObjectAllocationEvent {
    pub class_id: ClassId,
    pub thread: Thread,
    pub size: i64,
}

/// An object freed.
pub struct ObjectFreeEvent {}

/// A method entered or left: the method and the thread.
pub struct MethodInvocationEvent {
    pub method_id: MethodId,
    pub thread_id: ThreadId,
}

impl RuntimeEvent for ObjectAllocationEvent {

}

impl RuntimeEvent for MethodInvocationEvent {

}

} // verus!
