//! The agent: the handlers it registers for JVM events, the capabilities
//! those handlers need, and the steps that hand both to the JVM.
use super::capabilities::Capabilities;
use super::error::NativeError;
use super::event::{EventCallbacks, VMEvent};
use super::jvm::{JVMF, JVMTI};
use super::version::VersionNumber;
use vstd::prelude::*;

verus! {

/// The events the agent turns on or off, in the order it does so.
pub open spec fn traced_events() -> Seq<VMEvent> {
    seq![
        VMEvent::VMObjectAlloc,
        VMEvent::VMObjectFree,
        VMEvent::VMStart,
        VMEvent::VMInit,
        VMEvent::VMDeath,
        VMEvent::MethodEntry,
        VMEvent::MethodExit,
        VMEvent::ThreadStart,
        VMEvent::ThreadEnd,
        VMEvent::Exception,
        VMEvent::ExceptionCatch,
        VMEvent::MonitorWait,
        VMEvent::MonitorWaited,
        VMEvent::MonitorContendedEnter,
        VMEvent::MonitorContendedEntered,
        VMEvent::FieldAccess,
        VMEvent::FieldModification,
        VMEvent::GarbageCollectionStart,
        VMEvent::GarbageCollectionFinish,
        VMEvent::ClassFileLoadHook,
    ]
}

/// Whether the table holds a handler for the event.
pub open spec fn has_handler<H>(cb: EventCallbacks<H>, e: VMEvent) -> bool {
    match e {
        VMEvent::VMObjectAlloc => cb.vm_object_alloc is Some,
        VMEvent::VMObjectFree => cb.vm_object_free is Some,
        VMEvent::VMStart => cb.vm_start is Some,
        VMEvent::VMInit => cb.vm_init is Some,
        VMEvent::VMDeath => cb.vm_death is Some,
        VMEvent::MethodEntry => cb.method_entry is Some,
        VMEvent::MethodExit => cb.method_exit is Some,
        VMEvent::ThreadStart => cb.thread_start is Some,
        VMEvent::ThreadEnd => cb.thread_end is Some,
        VMEvent::Exception => cb.exception is Some,
        VMEvent::ExceptionCatch => cb.exception_catch is Some,
        VMEvent::MonitorWait => cb.monitor_wait is Some,
        VMEvent::MonitorWaited => cb.monitor_waited is Some,
        VMEvent::MonitorContendedEnter => cb.monitor_contended_enter is Some,
        VMEvent::MonitorContendedEntered => cb.monitor_contended_entered is Some,
        VMEvent::FieldAccess => cb.field_access is Some,
        VMEvent::FieldModification => cb.field_modification is Some,
        VMEvent::GarbageCollectionStart => cb.garbage_collection_start is Some,
        VMEvent::GarbageCollectionFinish => cb.garbage_collection_finish is Some,
        VMEvent::ClassFileLoadHook => cb.class_file_load_hook is Some,
        VMEvent::ClassLoad => cb.class_load is Some,
        VMEvent::ClassPrepare => cb.class_prepare is Some,
        VMEvent::SingleStep => cb.single_step is Some,
        VMEvent::FramePop => cb.frame_pop is Some,
        VMEvent::Breakpoint => cb.breakpoint is Some,
        VMEvent::NativeMethodBind => cb.native_method_bind is Some,
        VMEvent::CompiledMethodLoad => cb.compiled_method_load is Some,
        VMEvent::CompiledMethodUnload => cb.compiled_method_unload is Some,
        VMEvent::DynamicCodeGenerated => cb.dynamic_code_generated is Some,
        VMEvent::DataDumpRequest => cb.data_dump_request is Some,
        VMEvent::ResourceExhausted => cb.resource_exhausted is Some,
    }
}

/// The events the agent turns on or off, in order.
pub fn traced_event_list() -> (r: Vec<VMEvent>)
    ensures
        r@ == traced_events(),
{
    let r: Vec<VMEvent> = vec![
        VMEvent::VMObjectAlloc,
        VMEvent::VMObjectFree,
        VMEvent::VMStart,
        VMEvent::VMInit,
        VMEvent::VMDeath,
        VMEvent::MethodEntry,
        VMEvent::MethodExit,
        VMEvent::ThreadStart,
        VMEvent::ThreadEnd,
        VMEvent::Exception,
        VMEvent::ExceptionCatch,
        VMEvent::MonitorWait,
        VMEvent::MonitorWaited,
        VMEvent::MonitorContendedEnter,
        VMEvent::MonitorContendedEntered,
        VMEvent::FieldAccess,
        VMEvent::FieldModification,
        VMEvent::GarbageCollectionStart,
        VMEvent::GarbageCollectionFinish,
        VMEvent::ClassFileLoadHook,
    ];
    assert(r@ =~= traced_events());
    r
}

/// Whether the table holds a handler for the event.
pub fn handler_present<H>(cb: &EventCallbacks<H>, e: VMEvent) -> (r: bool)
    ensures
        r == has_handler(*cb, e),
{
    match e {
        VMEvent::VMObjectAlloc => cb.vm_object_alloc.is_some(),
        VMEvent::VMObjectFree => cb.vm_object_free.is_some(),
        VMEvent::VMStart => cb.vm_start.is_some(),
        VMEvent::VMInit => cb.vm_init.is_some(),
        VMEvent::VMDeath => cb.vm_death.is_some(),
        VMEvent::MethodEntry => cb.method_entry.is_some(),
        VMEvent::MethodExit => cb.method_exit.is_some(),
        VMEvent::ThreadStart => cb.thread_start.is_some(),
        VMEvent::ThreadEnd => cb.thread_end.is_some(),
        VMEvent::Exception => cb.exception.is_some(),
        VMEvent::ExceptionCatch => cb.exception_catch.is_some(),
        VMEvent::MonitorWait => cb.monitor_wait.is_some(),
        VMEvent::MonitorWaited => cb.monitor_waited.is_some(),
        VMEvent::MonitorContendedEnter => cb.monitor_contended_enter.is_some(),
        VMEvent::MonitorContendedEntered => cb.monitor_contended_entered.is_some(),
        VMEvent::FieldAccess => cb.field_access.is_some(),
        VMEvent::FieldModification => cb.field_modification.is_some(),
        VMEvent::GarbageCollectionStart => cb.garbage_collection_start.is_some(),
        VMEvent::GarbageCollectionFinish => cb.garbage_collection_finish.is_some(),
        VMEvent::ClassFileLoadHook => cb.class_file_load_hook.is_some(),
        VMEvent::ClassLoad => cb.class_load.is_some(),
        VMEvent::ClassPrepare => cb.class_prepare.is_some(),
        VMEvent::SingleStep => cb.single_step.is_some(),
        VMEvent::FramePop => cb.frame_pop.is_some(),
        VMEvent::Breakpoint => cb.breakpoint.is_some(),
        VMEvent::NativeMethodBind => cb.native_method_bind.is_some(),
        VMEvent::CompiledMethodLoad => cb.compiled_method_load.is_some(),
        VMEvent::CompiledMethodUnload => cb.compiled_method_unload.is_some(),
        VMEvent::DynamicCodeGenerated => cb.dynamic_code_generated.is_some(),
        VMEvent::DataDumpRequest => cb.data_dump_request.is_some(),
        VMEvent::ResourceExhausted => cb.resource_exhausted.is_some(),
    }
}

/// The capabilities that the handlers of a table need: each event kind's
/// capability is set exactly when one of its events has a handler.
pub open spec fn needed_capabilities<H>(cb: EventCallbacks<H>) -> Capabilities {
    Capabilities {
        can_generate_method_entry_events: cb.method_entry is Some,
        can_generate_method_exit_events: cb.method_exit is Some,
        can_generate_vm_object_alloc_events: cb.vm_object_alloc is Some,
        can_generate_object_free_events: cb.vm_object_free is Some,
        can_generate_exception_events: cb.exception is Some || cb.exception_catch is Some,
        can_generate_monitor_events: cb.monitor_wait is Some || cb.monitor_waited is Some
            || cb.monitor_contended_enter is Some || cb.monitor_contended_entered is Some,
        can_generate_field_access_events: cb.field_access is Some,
        can_generate_field_modification_events: cb.field_modification is Some,
        can_generate_garbage_collection_events: cb.garbage_collection_start is Some
            || cb.garbage_collection_finish is Some,
    }
}

/// A JVM agent: the binding to the JVM, its tool interface, the
/// capabilities the agent asks for and the handlers it registers.
pub struct Agent<J: JVMF> {
    jvm: J,
    pub jvmti: J::Env,
    pub capabilities: Capabilities,
    callbacks: EventCallbacks<<J::Env as JVMTI>::Handler>,
}

impl<J: JVMF> Agent<J> {
    /// The handlers registered so far.
    pub closed spec fn handlers(&self) -> EventCallbacks<<J::Env as JVMTI>::Handler> {
        self.callbacks
    }

    /// The JVM tool interface the agent talks to.
    pub closed spec fn tool(&self) -> J::Env {
        self.jvmti
    }

    /// The binding to the JVM.
    pub closed spec fn binding(&self) -> J {
        self.jvm
    }

    /// The capabilities the agent asks for.
    pub closed spec fn wanted(&self) -> Capabilities {
        self.capabilities
    }

    /// Whether the capabilities asked for are exactly those the registered
    /// handlers need.
    pub closed spec fn capabilities_match_handlers(&self) -> bool {
        self.capabilities == needed_capabilities(self.handlers())
    }

    /// Whether this agent is blank: no handler and no capability.
    pub closed spec fn is_blank(&self) -> bool {
        self.handlers().is_empty() && self.capabilities.is_none()
    }

    /// A blank agent on the given JVM binding, with the binding's tool
    /// interface; fails with the binding's error when the tool interface
    /// is not available.
    pub fn new(jvm_agent: J) -> (r: Result<Agent<J>, NativeError>)
        ensures
            r matches Ok(a) ==> a.binding() == jvm_agent && a.is_blank()
                && a.capabilities_match_handlers(),
            match jvm_agent.environment() {
                Ok(env) => (r matches Ok(a) && a.tool() == env),
                Err(e) => (r matches Err(x) && x == e),
            },
    {
        match jvm_agent.get_environment() {
            Ok(jvmti) => Ok(
                Agent {
                    jvm: jvm_agent,
                    capabilities: Capabilities::new(),
                    callbacks: EventCallbacks::new(),
                    jvmti,
                },
            ),
            Err(err) => Err(err),
        }
    }

    /// A blank agent on the given JVM binding, after attaching the current
    /// thread to the JVM; fails with the binding's error when the thread
    /// cannot attach or the tool interface is not available.
    pub fn new_from(jvm: J) -> (r: Result<Agent<J>, NativeError>)
        ensures
            r matches Ok(a) ==> a.binding() == jvm && a.is_blank() && a.capabilities_match_handlers()
                && jvm.environment() == Ok::<J::Env, NativeError>(a.tool()),
            r is Ok <==> jvm.attached("Flare-Profiler-Attach") is Ok && jvm.environment() is Ok,
            jvm.attached("Flare-Profiler-Attach") matches Err(e) ==> (r matches Err(x) && x == e),
            jvm.attached("Flare-Profiler-Attach") is Ok ==> (jvm.environment() matches Err(e) ==> (r matches Err(x) && x == e)),
    {
        match jvm.attach("Flare-Profiler-Attach") {
            Ok(_) => {},
            Err(err) => {
                return Err(err);
            },
        }
        match jvm.get_environment() {
            Ok(jvmti) => Ok(
                Agent {
                    jvm: jvm,
                    capabilities: Capabilities::new(),
                    callbacks: EventCallbacks::new(),
                    jvmti,
                },
            ),
            Err(err) => Err(err),
        }
    }

    /// Attaches the current thread to the JVM under the given name.
    pub fn attach(&self, thread_name: &str) -> (r: Result<<J as JVMF>::Jni, NativeError>)
        ensures
            r == self.binding().attached(thread_name),
    {
        self.jvm.attach(thread_name)
    }

    /// The JVMTI version in use.
    pub fn get_version(&self) -> (r: VersionNumber) {
        self.jvmti.get_version_number()
    }

    /// Destroys the JVM.
    pub fn destroy(&self) -> (r: Result<(), NativeError>) {
        self.jvm.destroy()
    }

    /// The capabilities to ask the JVM for: those asked for so far that
    /// the JVM could grant.
    pub fn requested_capabilities(&self, potential: &Capabilities) -> (r: Capabilities)
        ensures
            r == Capabilities::both(self.wanted(), *potential),
    {
        self.capabilities.intersect(potential)
    }

    /// For each traced event, in order, whether to deliver it: exactly when
    /// it has a handler.
    pub fn event_modes(&self) -> (r: Vec<(VMEvent, bool)>)
        ensures
            r@.len() == traced_events().len(),
            forall|i: int|
                0 <= i < r@.len() ==> #[trigger] r@[i] == (
                    traced_events()[i],
                    has_handler(self.handlers(), traced_events()[i]),
                ),
    {
        let events = traced_event_list();
        let mut r: Vec<(VMEvent, bool)> = Vec::new();
        let mut i: usize = 0;
        while i < events.len()
            invariant
                events@ == traced_events(),
                i <= events@.len(),
                r@.len() == i,
                forall|k: int|
                    0 <= k < i ==> #[trigger] r@[k] == (
                        traced_events()[k],
                        has_handler(self.handlers(), traced_events()[k]),
                    ),
            decreases events@.len() - i,
        {
            let e = events[i];
            r.push((e, handler_present(&self.callbacks, e)));
            i = i + 1;
        }
        r
    }

    /// Turns off the delivery of every traced event, in order; an event the
    /// JVM refuses to turn off stays as it was. Capabilities and handlers
    /// held by the JVM are kept.
    pub fn shutdown(&mut self)
        ensures
            final(self).wanted() == old(self).wanted(),
            final(self).handlers() == old(self).handlers(),
            final(self).binding() == old(self).binding(),
            final(self).tool().held_capabilities() == old(self).tool().held_capabilities(),
            final(self).tool().registered_handlers() == old(self).tool().registered_handlers(),
            forall|e: VMEvent|
                #![trigger final(self).tool().delivers(e)]
                traced_events().contains(e) ==> !final(self).tool().delivers(e) || final(self).tool().delivers(e)
                    == old(self).tool().delivers(e),
            forall|e: VMEvent|
                #![trigger final(self).tool().delivers(e)]
                !traced_events().contains(e) ==> final(self).tool().delivers(e) == old(self).tool().delivers(e),
            forall|e: VMEvent|
                #![trigger final(self).tool().requested_mode(e)]
                traced_events().contains(e) ==> final(self).tool().requested_mode(e) == Some(false),
            forall|e: VMEvent|
                #![trigger final(self).tool().requested_mode(e)]
                !traced_events().contains(e) ==> final(self).tool().requested_mode(e) == old(self).tool().requested_mode(e),
    {
        let events = traced_event_list();
        let ghost j0 = self.jvmti;
        let mut i: usize = 0;
        while i < events.len()
            invariant
                i <= events@.len(),
                events@ == traced_events(),
                self.capabilities == old(self).capabilities,
                self.callbacks == old(self).callbacks,
                self.jvm == old(self).jvm,
                j0 == old(self).jvmti,
                self.jvmti.held_capabilities() == j0.held_capabilities(),
                self.jvmti.registered_handlers() == j0.registered_handlers(),
                forall|e: VMEvent|
                    #![trigger self.jvmti.delivers(e)]
                    self.jvmti.delivers(e) == j0.delivers(e) || (!self.jvmti.delivers(e) && exists|k: int|
                        0 <= k < i && events@[k] == e),
                forall|e: VMEvent|
                    #![trigger self.jvmti.requested_mode(e)]
                    (exists|k: int| 0 <= k < i && events@[k] == e) ==> self.jvmti.requested_mode(e) == Some(false),
                forall|e: VMEvent|
                    #![trigger self.jvmti.requested_mode(e)]
                    !(exists|k: int| 0 <= k < i && events@[k] == e) ==> self.jvmti.requested_mode(e)
                        == j0.requested_mode(e),
            decreases events@.len() - i,
        {
            let event = events[i];
            let ghost before = self.jvmti;
            let res = self.jvmti.set_event_notification_mode(event, false);
            proof {
                assert forall|e: VMEvent| #![trigger self.jvmti.delivers(e)]
                    self.jvmti.delivers(e) == j0.delivers(e) || (!self.jvmti.delivers(e) && exists|k: int|
                        0 <= k < i + 1 && events@[k] == e) by {
                    if e == event && res is None {
                        assert(events@[i as int] == e);
                    } else {
                        assert(self.jvmti.delivers(e) == before.delivers(e));
                    }
                }
                assert forall|e: VMEvent| #![trigger self.jvmti.requested_mode(e)]
                    (exists|k: int| 0 <= k < i + 1 && events@[k] == e) implies self.jvmti.requested_mode(e) == Some(false) by {
                    if e != event {
                        let k = choose|k: int| 0 <= k < i + 1 && events@[k] == e;
                        assert(k != i);
                        assert(before.requested_mode(e) == self.jvmti.requested_mode(e));
                    }
                }
                assert forall|e: VMEvent| #![trigger self.jvmti.requested_mode(e)]
                    !(exists|k: int| 0 <= k < i + 1 && events@[k] == e) implies self.jvmti.requested_mode(e)
                        == j0.requested_mode(e) by {
                    assert(events@[i as int] != e);
                    assert(!(exists|k: int| 0 <= k < i && events@[k] == e));
                    assert(before.requested_mode(e) == self.jvmti.requested_mode(e));
                }
            }
            i = i + 1;
        }
        proof {
            assert forall|e: VMEvent| #![trigger self.jvmti.delivers(e)]
                self.jvmti.delivers(e) != j0.delivers(e) implies traced_events().contains(e) by {
                let k = choose|k: int| 0 <= k < i && events@[k] == e;
                assert(traced_events()[k] == e);
            }
            assert forall|e: VMEvent| #![trigger self.jvmti.requested_mode(e)]
                traced_events().contains(e) implies self.jvmti.requested_mode(e) == Some(false) by {
                let k = choose|k: int| 0 <= k < traced_events().len() && traced_events()[k] == e;
                assert(events@[k] == e);
            }
            assert forall|e: VMEvent| #![trigger self.jvmti.requested_mode(e)]
                !traced_events().contains(e) implies self.jvmti.requested_mode(e) == j0.requested_mode(e) by {
                if exists|k: int| 0 <= k < i && events@[k] == e {
                    let k = choose|k: int| 0 <= k < i && events@[k] == e;
                    assert(traced_events()[k] == e);
                }
            }
        }
    }

    /// Hands the agent's wishes to the JVM: asks for the capabilities it
    /// wants that the JVM could grant, keeps those the JVM then reports
    /// (or, when the request fails, those it held), registers the handlers
    /// and, when that succeeds, asks for each traced event to be delivered
    /// exactly when it has a handler. A request the JVM refuses leaves what
    /// it concerns as it was; a refused registration asks for no event.
    pub fn update(&mut self)
        ensures
            final(self).handlers() == old(self).handlers(),
            final(self).binding() == old(self).binding(),
            final(self).wanted() == final(self).tool().held_capabilities(),
            !final(self).tool().capability_request_refused() ==> final(self).tool().held_capabilities()
                == Capabilities::either(
                old(self).tool().held_capabilities(),
                Capabilities::both(old(self).wanted(), old(self).tool().grantable_capabilities()),
            ),
            final(self).tool().capability_request_refused() ==> final(self).tool().held_capabilities()
                == old(self).tool().held_capabilities(),
            final(self).tool().registration_refused() ==> {
                &&& final(self).tool().registered_handlers() == old(self).tool().registered_handlers()
                &&& forall|e: VMEvent|
                    #![trigger final(self).tool().delivers(e)]
                    final(self).tool().delivers(e) == old(self).tool().delivers(e)
                &&& forall|e: VMEvent|
                    #![trigger final(self).tool().requested_mode(e)]
                    final(self).tool().requested_mode(e) == old(self).tool().requested_mode(e)
            },
            !final(self).tool().registration_refused() ==> {
                &&& final(self).tool().registered_handlers() == old(self).handlers()
                &&& forall|e: VMEvent|
                    #![trigger final(self).tool().requested_mode(e)]
                    traced_events().contains(e) ==> final(self).tool().requested_mode(e) == Some(
                        has_handler(old(self).handlers(), e),
                    )
                &&& forall|e: VMEvent|
                    #![trigger final(self).tool().requested_mode(e)]
                    !traced_events().contains(e) ==> final(self).tool().requested_mode(e) == old(
                        self,
                    ).tool().requested_mode(e)
            },
            forall|e: VMEvent|
                #![trigger final(self).tool().delivers(e)]
                traced_events().contains(e) ==> final(self).tool().delivers(e) == has_handler(
                    old(self).handlers(),
                    e,
                ) || final(self).tool().delivers(e) == old(self).tool().delivers(e),
            forall|e: VMEvent|
                #![trigger final(self).tool().delivers(e)]
                !traced_events().contains(e) ==> final(self).tool().delivers(e) == old(self).tool().delivers(e),
    {
        let potential_caps = self.jvmti.get_potential_capabilities();
        self.capabilities = self.requested_capabilities(&potential_caps);
        match self.jvmti.add_capabilities(&self.capabilities) {
            Ok(caps) => {
                self.capabilities = caps;
            },
            Err(_) => {
                let caps = self.jvmti.get_capabilities();
                self.capabilities = caps;
            },
        }
        let ghost j0 = self.jvmti;
        match self.jvmti.set_event_callbacks(self.callbacks) {
            None => {
                let modes = self.event_modes();
                let mut i: usize = 0;
                while i < modes.len()
                    invariant
                        i <= modes@.len(),
                        modes@.len() == traced_events().len(),
                        forall|k: int|
                            0 <= k < modes@.len() ==> #[trigger] modes@[k] == (
                                traced_events()[k],
                                has_handler(old(self).handlers(), traced_events()[k]),
                            ),
                        self.handlers() == old(self).handlers(),
                        self.binding() == old(self).binding(),
                        self.capabilities == j0.held_capabilities(),
                        self.jvmti.held_capabilities() == j0.held_capabilities(),
                        self.jvmti.capability_request_refused() == j0.capability_request_refused(),
                        self.jvmti.registered_handlers() == old(self).handlers(),
                        !self.jvmti.registration_refused(),
                        forall|e: VMEvent|
                            #![trigger self.jvmti.delivers(e)]
                            self.jvmti.delivers(e) == j0.delivers(e) || exists|k: int|
                                0 <= k < i && modes@[k].0 == e && self.jvmti.delivers(e) == modes@[k].1,
                        forall|e: VMEvent|
                            #![trigger self.jvmti.requested_mode(e)]
                            (exists|k: int| 0 <= k < i && modes@[k].0 == e) ==> self.jvmti.requested_mode(e)
                                == Some(has_handler(old(self).handlers(), e)),
                        forall|e: VMEvent|
                            #![trigger self.jvmti.requested_mode(e)]
                            !(exists|k: int| 0 <= k < i && modes@[k].0 == e) ==> self.jvmti.requested_mode(e)
                                == j0.requested_mode(e),
                    decreases modes@.len() - i,
                {
                    let (event, mode) = modes[i];
                    let ghost before = self.jvmti;
                    let res = self.jvmti.set_event_notification_mode(event, mode);
                    proof {
                        assert(modes@[i as int] == (traced_events()[i as int], has_handler(old(self).handlers(), traced_events()[i as int])));
                        assert forall|e: VMEvent| #![trigger self.jvmti.delivers(e)]
                            self.jvmti.delivers(e) == j0.delivers(e) || exists|k: int|
                                0 <= k < i + 1 && modes@[k].0 == e && self.jvmti.delivers(e) == modes@[k].1 by {
                            if e == event {
                                if res is None {
                                    assert(modes@[i as int].0 == e && self.jvmti.delivers(e) == modes@[i as int].1);
                                } else {
                                    assert(self.jvmti.delivers(e) == before.delivers(e));
                                }
                            } else {
                                assert(self.jvmti.delivers(e) == before.delivers(e));
                            }
                        }
                        assert forall|e: VMEvent| #![trigger self.jvmti.requested_mode(e)]
                            (exists|k: int| 0 <= k < i + 1 && modes@[k].0 == e) implies self.jvmti.requested_mode(e)
                                == Some(has_handler(old(self).handlers(), e)) by {
                            if e != event {
                                let k = choose|k: int| 0 <= k < i + 1 && modes@[k].0 == e;
                                assert(k != i);
                                assert(before.requested_mode(e) == self.jvmti.requested_mode(e));
                            }
                        }
                        assert forall|e: VMEvent| #![trigger self.jvmti.requested_mode(e)]
                            !(exists|k: int| 0 <= k < i + 1 && modes@[k].0 == e) implies self.jvmti.requested_mode(e)
                                == j0.requested_mode(e) by {
                            assert(modes@[i as int].0 != e);
                            assert(!(exists|k: int| 0 <= k < i && modes@[k].0 == e));
                            assert(before.requested_mode(e) == self.jvmti.requested_mode(e));
                        }
                    }
                    i = i + 1;
                }
                proof {
                    assert forall|e: VMEvent| #![trigger self.jvmti.delivers(e)]
                        self.jvmti.delivers(e) != j0.delivers(e) implies traced_events().contains(e)
                            && self.jvmti.delivers(e) == has_handler(old(self).handlers(), e) by {
                        let k = choose|k: int|
                            0 <= k < i && modes@[k].0 == e && self.jvmti.delivers(e) == modes@[k].1;
                        assert(modes@[k] == (traced_events()[k], has_handler(old(self).handlers(), traced_events()[k])));
                        assert(traced_events()[k] == e);
                    }
                    assert forall|e: VMEvent| #![trigger self.jvmti.requested_mode(e)]
                        traced_events().contains(e) implies self.jvmti.requested_mode(e) == Some(
                            has_handler(old(self).handlers(), e),
                        ) by {
                        let k = choose|k: int| 0 <= k < traced_events().len() && traced_events()[k] == e;
                        assert(modes@[k].0 == e);
                    }
                    assert forall|e: VMEvent| #![trigger self.jvmti.requested_mode(e)]
                        !traced_events().contains(e) implies self.jvmti.requested_mode(e) == j0.requested_mode(e) by {
                        if exists|k: int| 0 <= k < i && modes@[k].0 == e {
                            let k = choose|k: int| 0 <= k < i && modes@[k].0 == e;
                            assert(modes@[k] == (traced_events()[k], has_handler(old(self).handlers(), traced_events()[k])));
                            assert(traced_events()[k] == e);
                        }
                    }
                }
            },
            Some(_) => {},
        }
    }

    /// Registers (or, with `None`, removes) the method entry handler, and asks for the capability
    /// that its events need exactly when one of them has a handler.
    pub fn on_method_entry(&mut self, handler: Option<<J::Env as JVMTI>::Handler>)
        ensures
            final(self).handlers() == (EventCallbacks { method_entry: handler, ..old(self).handlers() }),
            final(self).wanted() == (Capabilities { can_generate_method_entry_events: handler is Some, ..old(self).wanted() }),
            final(self).binding() == old(self).binding(),
            old(self).capabilities_match_handlers() ==> final(self).capabilities_match_handlers(),
    {
        let has_some = handler.is_some();
        self.callbacks.method_entry = handler;
        self.capabilities.can_generate_method_entry_events = has_some;
    }

    /// Registers (or, with `None`, removes) the method exit handler, and asks for the capability
    /// that its events need exactly when one of them has a handler.
    pub fn on_method_exit(&mut self, handler: Option<<J::Env as JVMTI>::Handler>)
        ensures
            final(self).handlers() == (EventCallbacks { method_exit: handler, ..old(self).handlers() }),
            final(self).wanted() == (Capabilities { can_generate_method_exit_events: handler is Some, ..old(self).wanted() }),
            final(self).binding() == old(self).binding(),
            old(self).capabilities_match_handlers() ==> final(self).capabilities_match_handlers(),
    {
        let has_some = handler.is_some();
        self.callbacks.method_exit = handler;
        self.capabilities.can_generate_method_exit_events = has_some;
    }

    /// Registers (or, with `None`, removes) the VM initialisation handler.
    pub fn on_vm_init(&mut self, handler: Option<<J::Env as JVMTI>::Handler>)
        ensures
            final(self).handlers() == (EventCallbacks { vm_init: handler, ..old(self).handlers() }),
            final(self).wanted() == old(self).wanted(),
            final(self).binding() == old(self).binding(),
            old(self).capabilities_match_handlers() ==> final(self).capabilities_match_handlers(),
    {
        self.callbacks.vm_init = handler;
    }

    /// Registers (or, with `None`, removes) the VM death handler.
    pub fn on_vm_death(&mut self, handler: Option<<J::Env as JVMTI>::Handler>)
        ensures
            final(self).handlers() == (EventCallbacks { vm_death: handler, ..old(self).handlers() }),
            final(self).wanted() == old(self).wanted(),
            final(self).binding() == old(self).binding(),
            old(self).capabilities_match_handlers() ==> final(self).capabilities_match_handlers(),
    {
        self.callbacks.vm_death = handler;
    }

    /// Registers (or, with `None`, removes) the VM start handler.
    pub fn on_vm_start(&mut self, handler: Option<<J::Env as JVMTI>::Handler>)
        ensures
            final(self).handlers() == (EventCallbacks { vm_start: handler, ..old(self).handlers() }),
            final(self).wanted() == old(self).wanted(),
            final(self).binding() == old(self).binding(),
            old(self).capabilities_match_handlers() ==> final(self).capabilities_match_handlers(),
    {
        self.callbacks.vm_start = handler;
    }

    /// Registers (or, with `None`, removes) the object allocation handler, and asks for the capability
    /// that its events need exactly when one of them has a handler.
    pub fn on_vm_object_alloc(&mut self, handler: Option<<J::Env as JVMTI>::Handler>)
        ensures
            final(self).handlers() == (EventCallbacks { vm_object_alloc: handler, ..old(self).handlers() }),
            final(self).wanted() == (Capabilities { can_generate_vm_object_alloc_events: handler is Some, ..old(self).wanted() }),
            final(self).binding() == old(self).binding(),
            old(self).capabilities_match_handlers() ==> final(self).capabilities_match_handlers(),
    {
        let has_some = handler.is_some();
        self.callbacks.vm_object_alloc = handler;
        self.capabilities.can_generate_vm_object_alloc_events = has_some;
    }

    /// Registers (or, with `None`, removes) the object free handler, and asks for the capability
    /// that its events need exactly when one of them has a handler.
    pub fn on_vm_object_free(&mut self, handler: Option<<J::Env as JVMTI>::Handler>)
        ensures
            final(self).handlers() == (EventCallbacks { vm_object_free: handler, ..old(self).handlers() }),
            final(self).wanted() == (Capabilities { can_generate_object_free_events: handler is Some, ..old(self).wanted() }),
            final(self).binding() == old(self).binding(),
            old(self).capabilities_match_handlers() ==> final(self).capabilities_match_handlers(),
    {
        let has_some = handler.is_some();
        self.callbacks.vm_object_free = handler;
        self.capabilities.can_generate_object_free_events = has_some;
    }

    /// Registers (or, with `None`, removes) the thread start handler.
    pub fn on_thread_start(&mut self, handler: Option<<J::Env as JVMTI>::Handler>)
        ensures
            final(self).handlers() == (EventCallbacks { thread_start: handler, ..old(self).handlers() }),
            final(self).wanted() == old(self).wanted(),
            final(self).binding() == old(self).binding(),
            old(self).capabilities_match_handlers() ==> final(self).capabilities_match_handlers(),
    {
        self.callbacks.thread_start = handler;
    }

    /// Registers (or, with `None`, removes) the thread end handler.
    pub fn on_thread_end(&mut self, handler: Option<<J::Env as JVMTI>::Handler>)
        ensures
            final(self).handlers() == (EventCallbacks { thread_end: handler, ..old(self).handlers() }),
            final(self).wanted() == old(self).wanted(),
            final(self).binding() == old(self).binding(),
            old(self).capabilities_match_handlers() ==> final(self).capabilities_match_handlers(),
    {
        self.callbacks.thread_end = handler;
    }

    /// Registers (or, with `None`, removes) the exception handler, and asks for the capability
    /// that its events need exactly when one of them has a handler.
    pub fn on_exception(&mut self, handler: Option<<J::Env as JVMTI>::Handler>)
        ensures
            final(self).handlers() == (EventCallbacks { exception: handler, ..old(self).handlers() }),
            final(self).wanted() == (Capabilities {
                can_generate_exception_events: needed_capabilities(final(self).handlers()).can_generate_exception_events,
                ..old(self).wanted()
            }),
            final(self).binding() == old(self).binding(),
            old(self).capabilities_match_handlers() ==> final(self).capabilities_match_handlers(),
    {
        let has_some = handler.is_some() || self.callbacks.exception_catch.is_some();
        self.callbacks.exception = handler;
        self.capabilities.can_generate_exception_events = has_some;
    }

    /// Registers (or, with `None`, removes) the exception catch handler, and asks for the capability
    /// that its events need exactly when one of them has a handler.
    pub fn on_exception_catch(&mut self, handler: Option<<J::Env as JVMTI>::Handler>)
        ensures
            final(self).handlers() == (EventCallbacks { exception_catch: handler, ..old(self).handlers() }),
            final(self).wanted() == (Capabilities {
                can_generate_exception_events: needed_capabilities(final(self).handlers()).can_generate_exception_events,
                ..old(self).wanted()
            }),
            final(self).binding() == old(self).binding(),
            old(self).capabilities_match_handlers() ==> final(self).capabilities_match_handlers(),
    {
        let has_some = handler.is_some() || self.callbacks.exception.is_some();
        self.callbacks.exception_catch = handler;
        self.capabilities.can_generate_exception_events = has_some;
    }

    /// Registers (or, with `None`, removes) the monitor wait handler, and asks for the capability
    /// that its events need exactly when one of them has a handler.
    pub fn on_monitor_wait(&mut self, handler: Option<<J::Env as JVMTI>::Handler>)
        ensures
            final(self).handlers() == (EventCallbacks { monitor_wait: handler, ..old(self).handlers() }),
            final(self).wanted() == (Capabilities {
                can_generate_monitor_events: needed_capabilities(final(self).handlers()).can_generate_monitor_events,
                ..old(self).wanted()
            }),
            final(self).binding() == old(self).binding(),
            old(self).capabilities_match_handlers() ==> final(self).capabilities_match_handlers(),
    {
        let has_some = handler.is_some() || self.callbacks.monitor_waited.is_some() || self.callbacks.monitor_contended_enter.is_some() || self.callbacks.monitor_contended_entered.is_some();
        self.callbacks.monitor_wait = handler;
        self.capabilities.can_generate_monitor_events = has_some;
    }

    /// Registers (or, with `None`, removes) the monitor waited handler, and asks for the capability
    /// that its events need exactly when one of them has a handler.
    pub fn on_monitor_waited(&mut self, handler: Option<<J::Env as JVMTI>::Handler>)
        ensures
            final(self).handlers() == (EventCallbacks { monitor_waited: handler, ..old(self).handlers() }),
            final(self).wanted() == (Capabilities {
                can_generate_monitor_events: needed_capabilities(final(self).handlers()).can_generate_monitor_events,
                ..old(self).wanted()
            }),
            final(self).binding() == old(self).binding(),
            old(self).capabilities_match_handlers() ==> final(self).capabilities_match_handlers(),
    {
        let has_some = handler.is_some() || self.callbacks.monitor_wait.is_some() || self.callbacks.monitor_contended_enter.is_some() || self.callbacks.monitor_contended_entered.is_some();
        self.callbacks.monitor_waited = handler;
        self.capabilities.can_generate_monitor_events = has_some;
    }

    /// Registers (or, with `None`, removes) the contended monitor enter handler, and asks for the capability
    /// that its events need exactly when one of them has a handler.
    pub fn on_monitor_contended_enter(&mut self, handler: Option<<J::Env as JVMTI>::Handler>)
        ensures
            final(self).handlers() == (EventCallbacks { monitor_contended_enter: handler, ..old(self).handlers() }),
            final(self).wanted() == (Capabilities {
                can_generate_monitor_events: needed_capabilities(final(self).handlers()).can_generate_monitor_events,
                ..old(self).wanted()
            }),
            final(self).binding() == old(self).binding(),
            old(self).capabilities_match_handlers() ==> final(self).capabilities_match_handlers(),
    {
        let has_some = handler.is_some() || self.callbacks.monitor_wait.is_some() || self.callbacks.monitor_waited.is_some() || self.callbacks.monitor_contended_entered.is_some();
        self.callbacks.monitor_contended_enter = handler;
        self.capabilities.can_generate_monitor_events = has_some;
    }

    /// Registers (or, with `None`, removes) the contended monitor entered handler, and asks for the capability
    /// that its events need exactly when one of them has a handler.
    pub fn on_monitor_contended_entered(&mut self, handler: Option<<J::Env as JVMTI>::Handler>)
        ensures
            final(self).handlers() == (EventCallbacks { monitor_contended_entered: handler, ..old(self).handlers() }),
            final(self).wanted() == (Capabilities {
                can_generate_monitor_events: needed_capabilities(final(self).handlers()).can_generate_monitor_events,
                ..old(self).wanted()
            }),
            final(self).binding() == old(self).binding(),
            old(self).capabilities_match_handlers() ==> final(self).capabilities_match_handlers(),
    {
        let has_some = handler.is_some() || self.callbacks.monitor_wait.is_some() || self.callbacks.monitor_waited.is_some() || self.callbacks.monitor_contended_enter.is_some();
        self.callbacks.monitor_contended_entered = handler;
        self.capabilities.can_generate_monitor_events = has_some;
    }

    /// Registers (or, with `None`, removes) the field access handler, and asks for the capability
    /// that its events need exactly when one of them has a handler.
    pub fn on_field_access(&mut self, handler: Option<<J::Env as JVMTI>::Handler>)
        ensures
            final(self).handlers() == (EventCallbacks { field_access: handler, ..old(self).handlers() }),
            final(self).wanted() == (Capabilities { can_generate_field_access_events: handler is Some, ..old(self).wanted() }),
            final(self).binding() == old(self).binding(),
            old(self).capabilities_match_handlers() ==> final(self).capabilities_match_handlers(),
    {
        let has_some = handler.is_some();
        self.callbacks.field_access = handler;
        self.capabilities.can_generate_field_access_events = has_some;
    }

    /// Registers (or, with `None`, removes) the field modification handler, and asks for the capability
    /// that its events need exactly when one of them has a handler.
    pub fn on_field_modification(&mut self, handler: Option<<J::Env as JVMTI>::Handler>)
        ensures
            final(self).handlers() == (EventCallbacks { field_modification: handler, ..old(self).handlers() }),
            final(self).wanted() == (Capabilities { can_generate_field_modification_events: handler is Some, ..old(self).wanted() }),
            final(self).binding() == old(self).binding(),
            old(self).capabilities_match_handlers() ==> final(self).capabilities_match_handlers(),
    {
        let has_some = handler.is_some();
        self.callbacks.field_modification = handler;
        self.capabilities.can_generate_field_modification_events = has_some;
    }

    /// Registers (or, with `None`, removes) the garbage collection start handler, and asks for the capability
    /// that its events need exactly when one of them has a handler.
    pub fn on_garbage_collection_start(&mut self, handler: Option<<J::Env as JVMTI>::Handler>)
        ensures
            final(self).handlers() == (EventCallbacks { garbage_collection_start: handler, ..old(self).handlers() }),
            final(self).wanted() == (Capabilities {
                can_generate_garbage_collection_events: needed_capabilities(final(self).handlers()).can_generate_garbage_collection_events,
                ..old(self).wanted()
            }),
            final(self).binding() == old(self).binding(),
            old(self).capabilities_match_handlers() ==> final(self).capabilities_match_handlers(),
    {
        let has_some = handler.is_some() || self.callbacks.garbage_collection_finish.is_some();
        self.callbacks.garbage_collection_start = handler;
        self.capabilities.can_generate_garbage_collection_events = has_some;
    }

    /// Registers (or, with `None`, removes) the garbage collection finish handler, and asks for the capability
    /// that its events need exactly when one of them has a handler.
    pub fn on_garbage_collection_finish(&mut self, handler: Option<<J::Env as JVMTI>::Handler>)
        ensures
            final(self).handlers() == (EventCallbacks { garbage_collection_finish: handler, ..old(self).handlers() }),
            final(self).wanted() == (Capabilities {
                can_generate_garbage_collection_events: needed_capabilities(final(self).handlers()).can_generate_garbage_collection_events,
                ..old(self).wanted()
            }),
            final(self).binding() == old(self).binding(),
            old(self).capabilities_match_handlers() ==> final(self).capabilities_match_handlers(),
    {
        let has_some = handler.is_some() || self.callbacks.garbage_collection_start.is_some();
        self.callbacks.garbage_collection_finish = handler;
        self.capabilities.can_generate_garbage_collection_events = has_some;
    }

    /// Registers (or, with `None`, removes) the class file load handler.
    pub fn on_class_file_load(&mut self, handler: Option<<J::Env as JVMTI>::Handler>)
        ensures
            final(self).handlers() == (EventCallbacks { class_file_load_hook: handler, ..old(self).handlers() }),
            final(self).wanted() == old(self).wanted(),
            final(self).binding() == old(self).binding(),
            old(self).capabilities_match_handlers() ==> final(self).capabilities_match_handlers(),
    {
        self.callbacks.class_file_load_hook = handler;
    }
}

} // verus!
