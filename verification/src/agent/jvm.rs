//! The JVM as the agent sees it: the binding to a running JVM, its tool
//! interface (JVMTI) and its native interface (JNI). The agent is written
//! against these traits; the binding to a real JVM implements them.
use super::capabilities::Capabilities;
use super::class::{ClassId, ClassSignature};
use super::error::NativeError;
use super::event::{EventCallbacks, VMEvent};
use super::mem::MemoryAllocation;
use super::method::{MethodId, MethodSignature};
use super::native::{JavaClass, JavaInt, JavaLong, JavaMethod, JavaObject, JavaThread};
use super::thread::{Thread, ThreadId};
use super::version::VersionNumber;
use vstd::prelude::*;

verus! {

/// The operations the JVM offers through its native interface. What the
/// JVM answers to the lookups the agent makes is observed through the spec
/// functions: the class `java/lang/Thread`, its method `getId` with
/// signature `()J`, and what a `long` method answers on an object. The
/// agent asks these of fixed things (the thread class, `Thread.getId()`, a
/// thread's id), whose answers do not change while the JVM runs.
pub trait JNI {
    /// The class `java/lang/Thread`.
    spec fn thread_class(&self) -> ClassId;

    /// The method `getId` with signature `()J` of the class.
    spec fn get_id_method_in(&self, clazz: JavaClass) -> JavaMethod;

    /// What the `long` method answers on the object.
    spec fn long_answer(&self, obj: JavaObject, method_id: JavaMethod) -> JavaLong;

    /// The class of the given object.
    fn get_object_class(&self, object_id: &JavaObject) -> ClassId;

    fn find_class(&self, class_name: &str) -> (r: ClassId)
        ensures
            class_name@ == "java/lang/Thread"@ ==> r == self.thread_class(),
    ;

    fn get_method_id(&self, clazz: JavaClass, method_name: &str, method_sig: &str) -> (r: JavaMethod)
        ensures
            method_name@ == "getId"@ && method_sig@ == "()J"@ ==> r == self.get_id_method_in(clazz),
    ;

    fn call_long_method(&self, obj: JavaObject, method_id: JavaMethod) -> (r: JavaLong)
        ensures
            r == self.long_answer(obj, method_id),
    ;

    fn delete_local_ref(&self, obj: JavaObject);

    fn delete_global_ref(&self, obj: JavaObject);
}

/// The operations of the JVM tool interface that the agent uses. What the
/// environment holds is observed through the spec functions: the
/// capabilities it holds and could be granted, the handlers registered,
/// which events are delivered, the requests made and refused, and what the
/// JVM answers to the lookups and listings the agent makes. What the
/// environment holds changes only through the calls on it that set it.
pub trait JVMTI {
    /// What the agent registers as an event handler.
    type Handler: Copy;

    /// The capabilities this environment holds.
    spec fn held_capabilities(&self) -> Capabilities;

    /// The capabilities the JVM could grant this environment.
    spec fn grantable_capabilities(&self) -> Capabilities;

    /// The handlers registered with this environment.
    spec fn registered_handlers(&self) -> EventCallbacks<Self::Handler>;

    /// Whether this environment has the event delivered.
    spec fn delivers(&self, event: VMEvent) -> bool;

    /// The delivery last asked for the event, refused or not.
    spec fn requested_mode(&self, event: VMEvent) -> Option<bool>;

    /// Whether the last registration of handlers was refused.
    spec fn registration_refused(&self) -> bool;

    /// Whether the last request for capabilities was refused.
    spec fn capability_request_refused(&self) -> bool;

    /// The threads the JVM lists, as it answers during one sampling round.
    spec fn thread_list(&self) -> Result<Vec<ThreadId>, NativeError>;

    /// What the JVM reports of a thread, as it answers during one sampling
    /// round.
    spec fn thread_report(&self, thread: JavaThread) -> Result<Thread, NativeError>;

    /// A thread's CPU time, as the JVM answers during one sampling round.
    spec fn cpu_time_of(&self, thread: JavaThread) -> Result<JavaLong, NativeError>;

    /// A thread's stack, as the JVM answers during one sampling round.
    spec fn stack_of(&self, thread: JavaThread) -> Result<Vec<JavaStackFrame>, NativeError>;

    /// The stacks of all live threads with at most `max_frame_count` frames
    /// each, as the JVM answers during one sampling round.
    spec fn stack_listing(&self, max_frame_count: JavaInt) -> Result<Vec<StackInfo>, NativeError>;

    /// The name and signature of a method, as the JVM answers.
    spec fn method_name_of(&self, method: MethodId) -> Result<MethodSignature, NativeError>;

    /// The class declaring a method, as the JVM answers.
    spec fn declaring_class_of(&self, method: MethodId) -> Result<ClassId, NativeError>;

    /// The signature of a class, as the JVM answers.
    spec fn class_signature_of(&self, class: ClassId) -> Result<ClassSignature, NativeError>;

    /// The JVMTI version.
    fn get_version_number(&self) -> VersionNumber;

    /// Adds the capabilities set in `new_capabilities`, keeping the ones
    /// held before, and answers the capabilities held afterwards; on an
    /// error nothing is added. Handlers and deliveries are kept.
    fn add_capabilities(&mut self, new_capabilities: &Capabilities) -> (r: Result<
        Capabilities,
        NativeError,
    >)
        ensures
            final(self).registered_handlers() == old(self).registered_handlers(),
            forall|e: VMEvent| #[trigger] final(self).delivers(e) == old(self).delivers(e),
            r matches Ok(c) ==> c == final(self).held_capabilities() && c == Capabilities::either(
                old(self).held_capabilities(),
                *new_capabilities,
            ),
            r is Err ==> final(self).held_capabilities() == old(self).held_capabilities(),
            forall|e: VMEvent| #[trigger] final(self).requested_mode(e) == old(self).requested_mode(e),
            final(self).registration_refused() == old(self).registration_refused(),
            final(self).capability_request_refused() == r is Err,
    ;

    /// The capabilities held.
    fn get_capabilities(&self) -> (r: Capabilities)
        ensures
            r == self.held_capabilities(),
    ;

    /// The capabilities the JVM could grant.
    fn get_potential_capabilities(&self) -> (r: Capabilities)
        ensures
            r == self.grantable_capabilities(),
    ;

    /// Replaces the whole table of event handlers at once; an event
    /// without a handler is not delivered. On an error the table is kept.
    /// Capabilities and deliveries are kept.
    fn set_event_callbacks(&mut self, callbacks: EventCallbacks<Self::Handler>) -> (r: Option<
        NativeError,
    >)
        ensures
            final(self).held_capabilities() == old(self).held_capabilities(),
            forall|e: VMEvent| #[trigger] final(self).delivers(e) == old(self).delivers(e),
            r is None ==> final(self).registered_handlers() == callbacks,
            r is Some ==> final(self).registered_handlers() == old(self).registered_handlers(),
            final(self).registration_refused() == r is Some,
            forall|e: VMEvent| #[trigger] final(self).requested_mode(e) == old(self).requested_mode(e),
            final(self).capability_request_refused() == old(self).capability_request_refused(),
    ;

    /// Turns the delivery of one event on or off; on an error it is kept.
    /// Capabilities, handlers and the other events are kept.
    fn set_event_notification_mode(&mut self, event: VMEvent, mode: bool) -> (r: Option<NativeError>)
        ensures
            final(self).held_capabilities() == old(self).held_capabilities(),
            final(self).registered_handlers() == old(self).registered_handlers(),
            forall|e: VMEvent| e != event ==> #[trigger] final(self).delivers(e) == old(self).delivers(e),
            r is None ==> final(self).delivers(event) == mode,
            r is Some ==> final(self).delivers(event) == old(self).delivers(event),
            final(self).requested_mode(event) == Some(mode),
            forall|e: VMEvent| e != event ==> #[trigger] final(self).requested_mode(e) == old(self).requested_mode(e),
            final(self).registration_refused() == old(self).registration_refused(),
            final(self).capability_request_refused() == old(self).capability_request_refused(),
    ;

    fn get_thread_info(&self, thread_id: &JavaThread) -> (r: Result<Thread, NativeError>)
        ensures
            r == self.thread_report(*thread_id),
    ;

    fn get_method_declaring_class(&self, method_id: &MethodId) -> (r: Result<ClassId, NativeError>)
        ensures
            r == self.declaring_class_of(*method_id),
    ;

    fn get_method_name(&self, method_id: &MethodId) -> (r: Result<MethodSignature, NativeError>)
        ensures
            r == self.method_name_of(*method_id),
    ;

    fn get_class_signature(&self, class_id: &ClassId) -> (r: Result<ClassSignature, NativeError>)
        ensures
            r == self.class_signature_of(*class_id),
    ;

    fn allocate(&self, len: usize) -> Result<MemoryAllocation, NativeError>;

    fn deallocate(&self, ptr: u64);

    fn get_all_threads(&self) -> (r: Result<Vec<ThreadId>, NativeError>)
        ensures
            r == self.thread_list(),
    ;

    fn get_thread_cpu_time(&self, thread_id: &JavaThread) -> (r: Result<JavaLong, NativeError>)
        ensures
            r == self.cpu_time_of(*thread_id),
    ;

    fn get_stack_trace(&self, thread_id: &JavaThread) -> (r: Result<Vec<JavaStackFrame>, NativeError>)
        ensures
            r == self.stack_of(*thread_id),
    ;

    /// The stacks of all live threads at one moment, at most
    /// `max_frame_count` frames each.
    fn get_all_stack_infos(&self, max_frame_count: JavaInt) -> (r: Result<Vec<StackInfo>, NativeError>)
        ensures
            r == self.stack_listing(max_frame_count),
    ;

    /// How the JVM's per-thread CPU timer counts.
    fn get_thread_cpu_timer_info(&self) -> Result<TimerInfo, NativeError>;
}

/// The binding to a running JVM.
pub trait JVMF {
    /// The tool interface this binding hands out.
    type Env: JVMTI;

    /// The native interface of an attached thread.
    type Jni: JNI;

    /// The environment the binding hands out, or why it cannot.
    spec fn environment(&self) -> Result<Self::Env, NativeError>;

    /// The JVMTI environment, when the current thread is attached to the JVM.
    fn get_environment(&self) -> (r: Result<Self::Env, NativeError>)
        ensures
            r == self.environment(),
    ;

    /// What the binding answers when a thread attaches under the given name.
    spec fn attached(&self, thread_name: &str) -> Result<Self::Jni, NativeError>;

    /// Attaches the current thread to the JVM under the given name; a
    /// binding that cannot attach reports `NotImplemented`.
    fn attach(&self, thread_name: &str) -> (r: Result<Self::Jni, NativeError>)
        ensures
            r == self.attached(thread_name),
    ;

    fn destroy(&self) -> Result<(), NativeError>;
}

/// What the agent reports of a thread.
pub struct ThreadInfo {
    /// The Java thread id.
    pub thread_id: JavaLong,
    pub name: String,
    pub priority: u32,
    pub is_daemon: bool,
    pub cpu_time: i64,
}

/// The stack of one thread at one moment, innermost frame first.
pub struct JavaStackTrace {
    pub thread: ThreadInfo,
    pub state: JavaInt,
    pub cpu_time: i64,
    pub frame_buffer: Vec<JavaStackFrame>,
}

/// What the JVM reports of one thread's stack: the thread, its state and
/// its frames, innermost first.
pub struct StackInfo {
    pub thread: JavaThread,
    pub state: JavaInt,
    pub frame_buffer: Vec<JavaStackFrame>,
}

/// How the JVM's per-thread CPU timer counts: its largest value, whether
/// it may skip forward or back, and its kind.
pub struct TimerInfo {
    pub max_value: JavaLong,
    pub may_skip_forward: u8,
    pub may_skip_backward: u8,
    pub kind: u32,
    pub reserved1: JavaLong,
    pub reserved2: JavaLong,
}

/// One frame of a stack: the method and the location in it.
pub struct JavaStackFrame {
    pub method: JavaMethod,
    pub location: JavaLong,
}

} // verus!
