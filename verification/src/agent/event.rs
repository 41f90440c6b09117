//! The events a JVM reports to an agent, and the table of handlers an agent
//! registers for them.
use vstd::prelude::*;

verus! {

/// The events that can occur in a JVM application; for each event that is
/// enabled and has a handler, the JVM calls the handler.
#[derive(Clone, Copy, PartialEq, Eq, Debug, Structural)]
pub enum VMEvent {
    VMInit,
    VMDeath,
    VMObjectAlloc,
    VMObjectFree,
    VMStart,
    MethodEntry,
    MethodExit,
    ThreadStart,
    ThreadEnd,
    Exception,
    ExceptionCatch,
    MonitorWait,
    MonitorWaited,
    MonitorContendedEnter,
    MonitorContendedEntered,
    FieldAccess,
    FieldModification,
    GarbageCollectionStart,
    GarbageCollectionFinish,
    ClassFileLoadHook,
    ClassLoad,
    ClassPrepare,
    SingleStep,
    FramePop,
    Breakpoint,
    NativeMethodBind,
    CompiledMethodLoad,
    CompiledMethodUnload,
    DynamicCodeGenerated,
    DataDumpRequest,
    ResourceExhausted,
}

/// The JVMTI event number of each event.
pub open spec fn event_number(e: VMEvent) -> u32 {
    match e {
        VMEvent::VMInit => 50,
        VMEvent::VMDeath => 51,
        VMEvent::VMObjectAlloc => 84,
        VMEvent::VMObjectFree => 83,
        VMEvent::VMStart => 57,
        VMEvent::MethodEntry => 65,
        VMEvent::MethodExit => 66,
        VMEvent::ThreadStart => 52,
        VMEvent::ThreadEnd => 53,
        VMEvent::Exception => 58,
        VMEvent::ExceptionCatch => 59,
        VMEvent::MonitorWait => 73,
        VMEvent::MonitorWaited => 74,
        VMEvent::MonitorContendedEnter => 75,
        VMEvent::MonitorContendedEntered => 76,
        VMEvent::FieldAccess => 63,
        VMEvent::FieldModification => 64,
        VMEvent::GarbageCollectionStart => 81,
        VMEvent::GarbageCollectionFinish => 82,
        VMEvent::ClassFileLoadHook => 54,
        VMEvent::ClassLoad => 55,
        VMEvent::ClassPrepare => 56,
        VMEvent::SingleStep => 60,
        VMEvent::FramePop => 61,
        VMEvent::Breakpoint => 62,
        VMEvent::NativeMethodBind => 67,
        VMEvent::CompiledMethodLoad => 68,
        VMEvent::CompiledMethodUnload => 69,
        VMEvent::DynamicCodeGenerated => 70,
        VMEvent::DataDumpRequest => 71,
        VMEvent::ResourceExhausted => 80,
    }
}

impl VMEvent {
    /// The JVMTI event number of this event.
    pub fn code(&self) -> (r: u32)
        ensures
            r == event_number(*self),
    {
        match self {
            VMEvent::VMInit => 50,
            VMEvent::VMDeath => 51,
            VMEvent::VMObjectAlloc => 84,
            VMEvent::VMObjectFree => 83,
            VMEvent::VMStart => 57,
            VMEvent::MethodEntry => 65,
            VMEvent::MethodExit => 66,
            VMEvent::ThreadStart => 52,
            VMEvent::ThreadEnd => 53,
            VMEvent::Exception => 58,
            VMEvent::ExceptionCatch => 59,
            VMEvent::MonitorWait => 73,
            VMEvent::MonitorWaited => 74,
            VMEvent::MonitorContendedEnter => 75,
            VMEvent::MonitorContendedEntered => 76,
            VMEvent::FieldAccess => 63,
            VMEvent::FieldModification => 64,
            VMEvent::GarbageCollectionStart => 81,
            VMEvent::GarbageCollectionFinish => 82,
            VMEvent::ClassFileLoadHook => 54,
            VMEvent::ClassLoad => 55,
            VMEvent::ClassPrepare => 56,
            VMEvent::SingleStep => 60,
            VMEvent::FramePop => 61,
            VMEvent::Breakpoint => 62,
            VMEvent::NativeMethodBind => 67,
            VMEvent::CompiledMethodLoad => 68,
            VMEvent::CompiledMethodUnload => 69,
            VMEvent::DynamicCodeGenerated => 70,
            VMEvent::DataDumpRequest => 71,
            VMEvent::ResourceExhausted => 80,
        }
    }
}

/// Distinct events have distinct numbers.
pub proof fn lemma_event_numbers_distinct(a: VMEvent, b: VMEvent)
    requires
        a != b,
    ensures
        event_number(a) != event_number(b),
{
}

/// The handlers an agent registers, one optional handler per event; an
/// event without a handler is not delivered.
#[derive(Clone, Copy)]
pub struct EventCallbacks<H> {
    pub vm_init: Option<H>,
    pub vm_death: Option<H>,
    pub vm_object_alloc: Option<H>,
    pub vm_object_free: Option<H>,
    pub vm_start: Option<H>,
    pub method_entry: Option<H>,
    pub method_exit: Option<H>,
    pub thread_start: Option<H>,
    pub thread_end: Option<H>,
    pub exception: Option<H>,
    pub exception_catch: Option<H>,
    pub monitor_wait: Option<H>,
    pub monitor_waited: Option<H>,
    pub monitor_contended_enter: Option<H>,
    pub monitor_contended_entered: Option<H>,
    pub field_access: Option<H>,
    pub field_modification: Option<H>,
    pub garbage_collection_start: Option<H>,
    pub garbage_collection_finish: Option<H>,
    pub class_file_load_hook: Option<H>,
    pub class_load: Option<H>,
    pub class_prepare: Option<H>,
    pub single_step: Option<H>,
    pub frame_pop: Option<H>,
    pub breakpoint: Option<H>,
    pub native_method_bind: Option<H>,
    pub compiled_method_load: Option<H>,
    pub compiled_method_unload: Option<H>,
    pub dynamic_code_generated: Option<H>,
    pub data_dump_request: Option<H>,
    pub resource_exhausted: Option<H>,
}

impl<H> EventCallbacks<H> {
    /// Whether no event has a handler.
    pub open spec fn is_empty(&self) -> bool {
        &&& self.vm_init is None
        &&& self.vm_death is None
        &&& self.vm_object_alloc is None
        &&& self.vm_object_free is None
        &&& self.vm_start is None
        &&& self.method_entry is None
        &&& self.method_exit is None
        &&& self.thread_start is None
        &&& self.thread_end is None
        &&& self.exception is None
        &&& self.exception_catch is None
        &&& self.monitor_wait is None
        &&& self.monitor_waited is None
        &&& self.monitor_contended_enter is None
        &&& self.monitor_contended_entered is None
        &&& self.field_access is None
        &&& self.field_modification is None
        &&& self.garbage_collection_start is None
        &&& self.garbage_collection_finish is None
        &&& self.class_file_load_hook is None
        &&& self.class_load is None
        &&& self.class_prepare is None
        &&& self.single_step is None
        &&& self.frame_pop is None
        &&& self.breakpoint is None
        &&& self.native_method_bind is None
        &&& self.compiled_method_load is None
        &&& self.compiled_method_unload is None
        &&& self.dynamic_code_generated is None
        &&& self.data_dump_request is None
        &&& self.resource_exhausted is None
    }

    /// A table without any handler.
    pub fn new() -> (r: EventCallbacks<H>)
        ensures
            r.is_empty(),
    {
        EventCallbacks {
            vm_init: None,
            vm_death: None,
            vm_object_alloc: None,
            vm_object_free: None,
            vm_start: None,
            method_entry: None,
            method_exit: None,
            thread_start: None,
            thread_end: None,
            exception: None,
            exception_catch: None,
            monitor_wait: None,
            monitor_waited: None,
            monitor_contended_enter: None,
            monitor_contended_entered: None,
            field_access: None,
            field_modification: None,
            garbage_collection_start: None,
            garbage_collection_finish: None,
            class_file_load_hook: None,
            class_load: None,
            class_prepare: None,
            single_step: None,
            frame_pop: None,
            breakpoint: None,
            native_method_bind: None,
            compiled_method_load: None,
            compiled_method_unload: None,
            dynamic_code_generated: None,
            data_dump_request: None,
            resource_exhausted: None,
        }
    }
}

} // verus!
