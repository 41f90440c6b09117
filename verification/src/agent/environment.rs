//! `Environment` combines the JVM's tool interface and native interface,
//! delegating each call to the one that offers it.
use super::capabilities::Capabilities;
use super::class::{ClassId, ClassSignature};
use super::error::NativeError;
use super::event::{EventCallbacks, VMEvent};
use super::jvm::{JavaStackFrame, JavaStackTrace, StackInfo, ThreadInfo, TimerInfo, JNI, JVMTI};
use super::stacks::{
    gives, is_idle, lemma_answered_err_stays, lemma_answered_prefix, stack_answer, stack_answer_of, traces_from_answers,
    StackAnswer,
};
use super::mem::MemoryAllocation;
use super::method::{MethodId, MethodSignature};
use super::native::{JavaClass, JavaLong, JavaMethod, JavaObject, JavaThread};
use super::thread::{Thread, ThreadId};
use super::version::VersionNumber;
use vstd::prelude::*;

verus! {

/// Both interfaces of a JVM, with the method id of `Thread.getId()` once
/// it has been looked up.
pub struct Environment<T: JVMTI, N: JNI> {
    jvmti: T,
    jni: N,
    thread_get_id_method: Option<JavaMethod>,
}

impl<T: JVMTI, N: JNI> Environment<T, N> {
    /// The method id of `Thread.getId()`, once looked up.
    pub closed spec fn cached_get_id(&self) -> Option<JavaMethod> {
        self.thread_get_id_method
    }

    /// The tool interface.
    pub closed spec fn tool(&self) -> T {
        self.jvmti
    }

    /// The native interface.
    pub closed spec fn native(&self) -> N {
        self.jni
    }

    /// The method `Thread.getId()` as this environment calls it: the one
    /// kept, or else the one the lookup of `getId` with signature `()J` in
    /// the class `java/lang/Thread` gives.
    pub open spec fn get_id_method(&self) -> JavaMethod {
        match self.cached_get_id() {
            Some(m) => m,
            None => self.native().get_id_method_in(self.native().thread_class().native_id),
        }
    }

    /// The Java id of a thread: what `Thread.getId()` answers on it.
    pub open spec fn java_id_of(&self, thread: JavaThread) -> JavaLong {
        self.native().long_answer(thread, self.get_id_method())
    }

    /// What the agent reports of a thread: its Java id with the name,
    /// priority and daemon flag the JVM reports, and no CPU time; or the
    /// JVM's error.
    pub open spec fn described(&self, thread: JavaThread) -> Result<ThreadInfo, NativeError> {
        match self.tool().thread_report(thread) {
            Ok(th) => Ok(
                ThreadInfo {
                    thread_id: self.java_id_of(thread),
                    name: th.name,
                    priority: th.priority,
                    is_daemon: th.is_daemon,
                    cpu_time: 0,
                },
            ),
            Err(e) => Err(e),
        }
    }

    /// An environment over the two interfaces; `Thread.getId()` not looked
    /// up yet.
    pub fn new(jvmti: T, jni: N) -> (r: Environment<T, N>)
        ensures
            r.tool() == jvmti,
            r.native() == jni,
            r.cached_get_id() is None,
    {
        Environment { jvmti: jvmti, jni: jni, thread_get_id_method: None }
    }

    /// The Java id of a thread, by calling `Thread.getId()` on it; the
    /// method is looked up once and kept.
    pub fn get_thread_id(&mut self, thread_id: &JavaThread) -> (r: JavaLong)
        ensures
            final(self).cached_get_id() == Some(old(self).get_id_method()),
            r == old(self).java_id_of(*thread_id),
            final(self).tool() == old(self).tool(),
            final(self).native() == old(self).native(),
    {
        match self.thread_get_id_method {
            Some(method_id) => self.call_long_method(*thread_id, method_id),
            None => {
                let thread_class = self.jni.find_class("java/lang/Thread");
                let get_id_method = self.jni.get_method_id(thread_class.native_id, "getId", "()J");
                self.thread_get_id_method = Some(get_id_method);
                self.call_long_method(*thread_id, get_id_method)
            },
        }
    }

    /// The class of an object.
    pub fn get_object_class(&self, object_id: &JavaObject) -> (r: ClassId) {
        self.jni.get_object_class(object_id)
    }

    pub fn find_class(&self, class_name: &str) -> (r: ClassId)
        ensures
            class_name@ == "java/lang/Thread"@ ==> r == self.native().thread_class(),
    {
        self.jni.find_class(class_name)
    }

    pub fn get_method_id(&self, clazz: JavaClass, method_name: &str, method_sig: &str) -> (r:
        JavaMethod)
        ensures
            method_name@ == "getId"@ && method_sig@ == "()J"@ ==> r == self.native().get_id_method_in(clazz),
    {
        self.jni.get_method_id(clazz, method_name, method_sig)
    }

    pub fn call_long_method(&self, obj: JavaObject, method_id: JavaMethod) -> (r: JavaLong)
        ensures
            r == self.native().long_answer(obj, method_id),
    {
        self.jni.call_long_method(obj, method_id)
    }

    pub fn delete_local_ref(&self, obj: JavaObject) {
        self.jni.delete_local_ref(obj);
    }

    pub fn delete_global_ref(&self, obj: JavaObject) {
        self.jni.delete_global_ref(obj);
    }

    pub fn get_version_number(&self) -> (r: VersionNumber) {
        self.jvmti.get_version_number()
    }

    pub fn add_capabilities(&mut self, new_capabilities: &Capabilities) -> (r: Result<
        Capabilities,
        NativeError,
    >)
        ensures
            final(self).native() == old(self).native(),
            final(self).cached_get_id() == old(self).cached_get_id(),
            final(self).tool().registered_handlers() == old(self).tool().registered_handlers(),
            forall|e: VMEvent| #[trigger] final(self).tool().delivers(e) == old(self).tool().delivers(e),
            r matches Ok(c) ==> c == final(self).tool().held_capabilities() && c == Capabilities::either(
                old(self).tool().held_capabilities(),
                *new_capabilities,
            ),
            r is Err ==> final(self).tool().held_capabilities() == old(self).tool().held_capabilities(),
    {
        self.jvmti.add_capabilities(new_capabilities)
    }

    pub fn get_capabilities(&self) -> (r: Capabilities)
        ensures
            r == self.tool().held_capabilities(),
    {
        self.jvmti.get_capabilities()
    }

    pub fn get_potential_capabilities(&self) -> (r: Capabilities)
        ensures
            r == self.tool().grantable_capabilities(),
    {
        self.jvmti.get_potential_capabilities()
    }

    pub fn set_event_callbacks(&mut self, callbacks: EventCallbacks<T::Handler>) -> (r: Option<
        NativeError,
    >)
        ensures
            final(self).native() == old(self).native(),
            final(self).cached_get_id() == old(self).cached_get_id(),
            final(self).tool().held_capabilities() == old(self).tool().held_capabilities(),
            forall|e: VMEvent| #[trigger] final(self).tool().delivers(e) == old(self).tool().delivers(e),
            r is None ==> final(self).tool().registered_handlers() == callbacks,
            r is Some ==> final(self).tool().registered_handlers() == old(self).tool().registered_handlers(),
    {
        self.jvmti.set_event_callbacks(callbacks)
    }

    pub fn set_event_notification_mode(&mut self, event: VMEvent, mode: bool) -> (r: Option<
        NativeError,
    >)
        ensures
            final(self).native() == old(self).native(),
            final(self).cached_get_id() == old(self).cached_get_id(),
            final(self).tool().held_capabilities() == old(self).tool().held_capabilities(),
            final(self).tool().registered_handlers() == old(self).tool().registered_handlers(),
            forall|e: VMEvent| e != event ==> #[trigger] final(self).tool().delivers(e) == old(self).tool().delivers(e),
            r is None ==> final(self).tool().delivers(event) == mode,
            r is Some ==> final(self).tool().delivers(event) == old(self).tool().delivers(event),
    {
        self.jvmti.set_event_notification_mode(event, mode)
    }

    pub fn get_thread_info(&self, thread_id: &JavaThread) -> (r: Result<Thread, NativeError>)
        ensures
            r == self.tool().thread_report(*thread_id),
    {
        self.jvmti.get_thread_info(thread_id)
    }

    /// What the agent reports of a thread: its Java id, name, priority and
    /// daemon flag, with no CPU time yet; releases the references the JVM
    /// handed out with the thread's information. Fails with the JVM's
    /// error when the thread cannot be described.
    pub fn get_thread_info_ex(&mut self, thread_id: &JavaThread) -> (r: Result<ThreadInfo, NativeError>)
        ensures
            r == old(self).described(*thread_id),
            r matches Ok(info) ==> info.cpu_time == 0,
            final(self).cached_get_id() == Some(old(self).get_id_method()),
            final(self).tool() == old(self).tool(),
            final(self).native() == old(self).native(),
    {
        let java_thread_id = self.get_thread_id(thread_id);
        let thread = match self.jvmti.get_thread_info(thread_id) {
            Ok(t) => t,
            Err(e) => {
                return Err(e);
            },
        };
        let thread_info = ThreadInfo {
            thread_id: java_thread_id,
            name: thread.name.clone(),
            priority: thread.priority,
            is_daemon: thread.is_daemon,
            cpu_time: 0,
        };
        self.delete_local_ref(thread.thread_group);
        self.delete_local_ref(thread.context_class_loader);
        Ok(thread_info)
    }

    pub fn get_method_declaring_class(&self, method_id: &MethodId) -> (r: Result<ClassId, NativeError>)
        ensures
            r == self.tool().declaring_class_of(*method_id),
    {
        self.jvmti.get_method_declaring_class(method_id)
    }

    pub fn get_method_name(&self, method_id: &MethodId) -> (r: Result<MethodSignature, NativeError>)
        ensures
            r == self.tool().method_name_of(*method_id),
    {
        self.jvmti.get_method_name(method_id)
    }

    pub fn get_class_signature(&self, class_id: &ClassId) -> (r: Result<ClassSignature, NativeError>)
        ensures
            r == self.tool().class_signature_of(*class_id),
    {
        self.jvmti.get_class_signature(class_id)
    }

    pub fn allocate(&self, len: usize) -> (r: Result<MemoryAllocation, NativeError>) {
        self.jvmti.allocate(len)
    }

    pub fn deallocate(&self, ptr: u64) {
        self.jvmti.deallocate(ptr)
    }

    pub fn get_all_threads(&self) -> (r: Result<Vec<ThreadId>, NativeError>)
        ensures
            r == self.tool().thread_list(),
    {
        self.jvmti.get_all_threads()
    }

    pub fn get_thread_cpu_time(&self, thread_id: &JavaThread) -> (r: Result<JavaLong, NativeError>)
        ensures
            r == self.tool().cpu_time_of(*thread_id),
    {
        self.jvmti.get_thread_cpu_time(thread_id)
    }

    pub fn get_stack_trace(&self, thread_id: &JavaThread) -> (r: Result<Vec<JavaStackFrame>, NativeError>)
        ensures
            r == self.tool().stack_of(*thread_id),
    {
        self.jvmti.get_stack_trace(thread_id)
    }

    pub fn get_thread_cpu_timer_info(&self) -> (r: Result<TimerInfo, NativeError>) {
        self.jvmti.get_thread_cpu_timer_info()
    }

    /// The answers about the listed stacks, from the reads made for each
    /// stack's thread: its CPU time and its description.
    pub open spec fn stack_answers(&self, infos: Seq<StackInfo>) -> Seq<StackAnswer> {
        Seq::new(
            infos.len(),
            |i: int| stack_answer_of(self.tool().cpu_time_of(infos[i].thread), self.described(infos[i].thread)),
        )
    }

    /// The stack traces of all live threads: the JVM is asked for the stacks
    /// of all threads with at most 2000 frames each; an error is passed on;
    /// otherwise the traces are those of `stack_traces_from` on the stacks
    /// listed.
    pub fn get_all_stacktraces(&mut self) -> (r: Result<Vec<JavaStackTrace>, NativeError>)
        ensures
            final(self).tool() == old(self).tool(),
            final(self).native() == old(self).native(),
            final(self).get_id_method() == old(self).get_id_method(),
            match old(self).tool().stack_listing(2000) {
                Err(e) => (r matches Err(x) && x == e),
                Ok(infos) => gives(infos@, old(self).stack_answers(infos@), r),
            },
    {
        let infos = match self.jvmti.get_all_stack_infos(2000) {
            Ok(v) => v,
            Err(e) => {
                return Err(e);
            },
        };
        self.stack_traces_from(&infos)
    }

    /// The stack traces of the listed stacks, in order: each thread's CPU
    /// time is read; a thread whose CPU time reads as zero is idle, passed
    /// over and its reference released; any other is described, its
    /// reference released, and kept with the CPU time read (zero when it
    /// could not be read), its state and its frames. Fails with the JVM's
    /// error at the first kept thread that cannot be described. The result
    /// is `traces_from_answers` over the answers of the reads made for each
    /// stack's thread.
    pub fn stack_traces_from(&mut self, infos: &Vec<StackInfo>) -> (r: Result<Vec<JavaStackTrace>, NativeError>)
        ensures
            final(self).tool() == old(self).tool(),
            final(self).native() == old(self).native(),
            final(self).get_id_method() == old(self).get_id_method(),
            gives(infos@, old(self).stack_answers(infos@), r),
    {
        let ghost full = old(self).stack_answers(infos@);
        let mut answers: Vec<StackAnswer> = Vec::new();
        let mut i: usize = 0;
        while i < infos.len()
            invariant
                i <= infos@.len(),
                answers@.len() == i,
                full == old(self).stack_answers(infos@),
                full.len() == infos@.len(),
                self.tool() == old(self).tool(),
                self.native() == old(self).native(),
                self.get_id_method() == old(self).get_id_method(),
                forall|k: int| 0 <= k < i ==> #[trigger] answers@[k] == full[k],
            decreases infos@.len() - i,
        {
            let info = &infos[i];
            let cpu_read = self.get_thread_cpu_time(&info.thread);
            if is_idle(&cpu_read) {
                self.delete_local_ref(info.thread);
                let a = stack_answer(cpu_read, Err(NativeError::NotAvailable));
                answers.push(a);
            } else {
                let described = self.get_thread_info_ex(&info.thread);
                let failed = described.is_err();
                if !failed {
                    self.delete_local_ref(info.thread);
                }
                let a = stack_answer(cpu_read, described);
                assert(a == full[i as int]);
                answers.push(a);
                if failed {
                    let r = traces_from_answers(infos, &answers);
                    proof {
                        lemma_answered_prefix(infos@, answers@, full, (i + 1) as nat);
                        lemma_answered_err_stays(infos@, answers@, (i + 1) as nat, answers@.len() as nat);
                        lemma_answered_err_stays(infos@, full, (i + 1) as nat, full.len() as nat);
                    }
                    return r;
                }
            }
            i = i + 1;
        }
        assert(answers@ =~= full);
        traces_from_answers(infos, &answers)
    }
}

} // verus!
