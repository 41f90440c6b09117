use flare::agent::attach::{attach_action, cpu_time_refresh, sample_interval, TraceAction};
use flare::agent::config::{is_entry_point, Config};
use flare::agent::agent::Agent;
use flare::agent::capabilities::Capabilities;
use flare::agent::class::{Class, ClassId, ClassSignature, JavaType};
use flare::agent::error::{translate_error, wrap_error, NativeError};
use flare::agent::event::{EventCallbacks, VMEvent};
use flare::agent::jvm::{JavaStackFrame, StackInfo, TimerInfo, JNI, JVMF, JVMTI};
use flare::agent::mem::MemoryAllocation;
use flare::agent::method::{MethodId, MethodSignature};
use flare::agent::options::Options;
use flare::agent::sample::{SampleQueue, ThreadData};
use flare::agent::server::{add_sample_data, add_sample_data_batch, is_server_running, SampleServer};
use flare::agent::thread::{Thread, ThreadId};
use flare::agent::version::VersionNumber;

struct MockJni;

impl JNI for MockJni {
    fn thread_class(&self) -> ClassId {
        self.find_class("java/lang/Thread")
    }
    fn get_id_method_in(&self, clazz: u64) -> u64 {
        self.get_method_id(clazz, "getId", "()J")
    }
    fn long_answer(&self, obj: u64, method_id: u64) -> i64 {
        self.call_long_method(obj, method_id)
    }
    fn get_object_class(&self, _object_id: &u64) -> ClassId {
        ClassId { native_id: 1 }
    }
    fn find_class(&self, _class_name: &str) -> ClassId {
        ClassId { native_id: 2 }
    }
    fn get_method_id(&self, _clazz: u64, _method_name: &str, _method_sig: &str) -> u64 {
        3
    }
    fn call_long_method(&self, obj: u64, _method_id: u64) -> i64 {
        obj as i64 + 100
    }
    fn delete_local_ref(&self, _obj: u64) {}
    fn delete_global_ref(&self, _obj: u64) {}
}

struct MockTi {
    potential: Capabilities,
    held: Capabilities,
    refuse_caps: bool,
    registered: usize,
    modes: Vec<(VMEvent, bool)>,
}

fn all_caps() -> Capabilities {
    Capabilities {
        can_generate_method_entry_events: true,
        can_generate_method_exit_events: true,
        can_generate_vm_object_alloc_events: true,
        can_generate_object_free_events: true,
        can_generate_exception_events: true,
        can_generate_monitor_events: true,
        can_generate_field_access_events: true,
        can_generate_field_modification_events: true,
        can_generate_garbage_collection_events: true,
    }
}

impl JVMTI for MockTi {
    type Handler = fn();
    fn thread_list(&self) -> Result<Vec<ThreadId>, NativeError> {
        self.get_all_threads()
    }
    fn thread_report(&self, thread: u64) -> Result<Thread, NativeError> {
        self.get_thread_info(&thread)
    }
    fn cpu_time_of(&self, thread: u64) -> Result<i64, NativeError> {
        self.get_thread_cpu_time(&thread)
    }
    fn stack_of(&self, thread: u64) -> Result<Vec<JavaStackFrame>, NativeError> {
        self.get_stack_trace(&thread)
    }
    fn stack_listing(&self, max_frame_count: i32) -> Result<Vec<StackInfo>, NativeError> {
        self.get_all_stack_infos(max_frame_count)
    }
    fn held_capabilities(&self) -> Capabilities {
        self.held
    }
    fn grantable_capabilities(&self) -> Capabilities {
        self.potential
    }
    fn registered_handlers(&self) -> EventCallbacks<fn()> {
        EventCallbacks::new()
    }
    fn delivers(&self, event: VMEvent) -> bool {
        self.modes.iter().rev().find(|(e, _)| *e == event).map_or(false, |(_, m)| *m)
    }
    fn requested_mode(&self, event: VMEvent) -> Option<bool> {
        self.modes.iter().rev().find(|(e, _)| *e == event).map(|(_, m)| *m)
    }
    fn registration_refused(&self) -> bool {
        false
    }
    fn capability_request_refused(&self) -> bool {
        self.refuse_caps
    }
    fn method_name_of(&self, method: MethodId) -> Result<MethodSignature, NativeError> {
        self.get_method_name(&method)
    }
    fn declaring_class_of(&self, method: MethodId) -> Result<ClassId, NativeError> {
        self.get_method_declaring_class(&method)
    }
    fn class_signature_of(&self, class: ClassId) -> Result<ClassSignature, NativeError> {
        self.get_class_signature(&class)
    }
    fn get_version_number(&self) -> VersionNumber {
        VersionNumber::from_u32(&0x3001_0201)
    }
    fn add_capabilities(&mut self, new_capabilities: &Capabilities) -> Result<Capabilities, NativeError> {
        if self.refuse_caps {
            Err(NativeError::NotAvailable)
        } else {
            self.held = *new_capabilities;
            Ok(self.held)
        }
    }
    fn get_capabilities(&self) -> Capabilities {
        self.held
    }
    fn get_potential_capabilities(&self) -> Capabilities {
        self.potential
    }
    fn set_event_callbacks(&mut self, _callbacks: EventCallbacks<fn()>) -> Option<NativeError> {
        self.registered += 1;
        None
    }
    fn set_event_notification_mode(&mut self, event: VMEvent, mode: bool) -> Option<NativeError> {
        self.modes.push((event, mode));
        None
    }
    fn get_thread_info(&self, thread_id: &u64) -> Result<Thread, NativeError> {
        Ok(Thread {
            id: ThreadId { native_id: *thread_id },
            thread_id: 0,
            name: "main".to_string(),
            priority: 5,
            is_daemon: false,
            thread_group: 0,
            context_class_loader: 0,
        })
    }
    fn get_method_declaring_class(&self, _method_id: &MethodId) -> Result<ClassId, NativeError> {
        Ok(ClassId { native_id: 9 })
    }
    fn get_method_name(&self, _method_id: &MethodId) -> Result<MethodSignature, NativeError> {
        Ok(MethodSignature::unknown())
    }
    fn get_class_signature(&self, _class_id: &ClassId) -> Result<ClassSignature, NativeError> {
        Err(NativeError::NotImplemented)
    }
    fn allocate(&self, len: usize) -> Result<MemoryAllocation, NativeError> {
        Ok(MemoryAllocation { ptr: 0, len })
    }
    fn deallocate(&self, _ptr: u64) {}
    fn get_all_threads(&self) -> Result<Vec<ThreadId>, NativeError> {
        Ok(vec![])
    }
    fn get_thread_cpu_time(&self, _thread_id: &u64) -> Result<i64, NativeError> {
        Ok(0)
    }
    fn get_stack_trace(&self, _thread_id: &u64) -> Result<Vec<JavaStackFrame>, NativeError> {
        Ok(vec![])
    }
    fn get_all_stack_infos(&self, _max_frame_count: i32) -> Result<Vec<StackInfo>, NativeError> {
        Err(NativeError::NotImplemented)
    }
    fn get_thread_cpu_timer_info(&self) -> Result<TimerInfo, NativeError> {
        Err(NativeError::NotImplemented)
    }
}

struct MockVm {
    env_error: Option<NativeError>,
    can_attach: bool,
    refuse_caps: bool,
}

impl JVMF for MockVm {
    type Env = MockTi;
    type Jni = MockJni;
    fn environment(&self) -> Result<MockTi, NativeError> {
        self.get_environment()
    }
    fn get_environment(&self) -> Result<MockTi, NativeError> {
        match self.env_error {
            Some(e) => Err(e),
            None => Ok(MockTi {
                potential: Capabilities {
                    can_generate_monitor_events: false,
                    ..all_caps()
                },
                held: Capabilities::new(),
                refuse_caps: self.refuse_caps,
                registered: 0,
                modes: vec![],
            }),
        }
    }
    fn attached(&self, thread_name: &str) -> Result<MockJni, NativeError> {
        self.attach(thread_name)
    }
    fn attach(&self, _thread_name: &str) -> Result<MockJni, NativeError> {
        if self.can_attach {
            Ok(MockJni)
        } else {
            Err(NativeError::ThreadNotAttached)
        }
    }
    fn destroy(&self) -> Result<(), NativeError> {
        Ok(())
    }
}

fn handler() {}

fn vm() -> MockVm {
    MockVm { env_error: None, can_attach: true, refuse_caps: false }
}

#[test]
fn new_agent_is_blank() {
    let agent = Agent::new(vm()).ok().unwrap();
    assert_eq!(agent.capabilities, Capabilities::new());
    assert_eq!(agent.get_version(), VersionNumber { major_version: 1, minor_version: 2, micro_version: 1 });
    assert!(agent.destroy().is_ok());
}

#[test]
fn new_agent_fails_without_environment() {
    let r = Agent::new(MockVm { env_error: Some(NativeError::WrongPhase), can_attach: true, refuse_caps: false });
    assert_eq!(r.err(), Some(NativeError::WrongPhase));
}

#[test]
fn new_from_attaches_first() {
    let r = Agent::new_from(MockVm { env_error: None, can_attach: false, refuse_caps: false });
    assert_eq!(r.err(), Some(NativeError::ThreadNotAttached));
    assert!(Agent::new_from(vm()).is_ok());
}

#[test]
fn handlers_set_and_clear_capabilities() {
    let mut agent = Agent::new(vm()).ok().unwrap();
    agent.on_method_entry(Some(handler));
    assert!(agent.capabilities.can_generate_method_entry_events);
    agent.on_exception(Some(handler));
    agent.on_exception_catch(Some(handler));
    agent.on_exception(None);
    assert!(agent.capabilities.can_generate_exception_events);
    agent.on_exception_catch(None);
    assert!(!agent.capabilities.can_generate_exception_events);
    agent.on_monitor_waited(Some(handler));
    agent.on_monitor_wait(None);
    assert!(agent.capabilities.can_generate_monitor_events);
    agent.on_garbage_collection_finish(Some(handler));
    assert!(agent.capabilities.can_generate_garbage_collection_events);
    agent.on_vm_init(Some(handler));
    assert!(!agent.capabilities.can_generate_vm_object_alloc_events);
    agent.on_method_entry(None);
    assert!(!agent.capabilities.can_generate_method_entry_events);
}

#[test]
fn update_requests_granted_capabilities_and_enables_handled_events() {
    let mut agent = Agent::new(vm()).ok().unwrap();
    agent.on_method_entry(Some(handler));
    agent.on_monitor_wait(Some(handler));
    agent.on_thread_start(Some(handler));
    agent.update();
    assert!(agent.capabilities.can_generate_method_entry_events);
    assert!(!agent.capabilities.can_generate_monitor_events);
    assert_eq!(agent.jvmti.registered, 1);
    assert_eq!(agent.jvmti.modes.len(), 20);
    assert_eq!(agent.jvmti.modes[0], (VMEvent::VMObjectAlloc, false));
    assert!(agent.jvmti.modes.contains(&(VMEvent::MethodEntry, true)));
    assert!(agent.jvmti.modes.contains(&(VMEvent::ThreadStart, true)));
    assert!(agent.jvmti.modes.contains(&(VMEvent::MonitorWait, true)));
    assert!(agent.jvmti.modes.contains(&(VMEvent::MethodExit, false)));
    let modes = agent.event_modes();
    assert_eq!(modes.len(), 20);
    assert_eq!(modes[19], (VMEvent::ClassFileLoadHook, false));
}

#[test]
fn update_keeps_held_capabilities_when_refused() {
    let mut agent = Agent::new(MockVm { env_error: None, can_attach: true, refuse_caps: true }).ok().unwrap();
    agent.on_method_exit(Some(handler));
    agent.update();
    assert_eq!(agent.capabilities, Capabilities::new());
}

#[test]
fn shutdown_disables_all_traced_events() {
    let mut agent = Agent::new(vm()).ok().unwrap();
    agent.on_method_exit(Some(handler));
    agent.shutdown();
    assert_eq!(agent.jvmti.modes.len(), 20);
    assert!(agent.jvmti.modes.iter().all(|(_, m)| !*m));
    assert!(agent.capabilities.can_generate_method_exit_events);
}

#[test]
fn error_codes() {
    assert_eq!(wrap_error(0), NativeError::NoError);
    assert_eq!(wrap_error(116), NativeError::Disconnected);
    assert_eq!(wrap_error(7), NativeError::UnknownError);
    assert_eq!(NativeError::NotImplemented.code(), 999999);
    for e in [NativeError::NullPointer, NativeError::OutOfMemory, NativeError::UnknownError] {
        assert_eq!(wrap_error(e.code()), e);
    }
    assert_eq!(translate_error(&NativeError::NullPointer), "Pointer is unexpectedly NULL.");
    assert_eq!(translate_error(&NativeError::UnknownError), "Unknown error.");
}

#[test]
fn event_numbers() {
    assert_eq!(VMEvent::VMInit.code(), 50);
    assert_eq!(VMEvent::MethodEntry.code(), 65);
    assert_eq!(VMEvent::VMObjectAlloc.code(), 84);
    let cb: EventCallbacks<fn()> = EventCallbacks::new();
    assert!(cb.method_entry.is_none() && cb.resource_exhausted.is_none());
}

#[test]
fn java_type_parse() {
    assert_eq!(JavaType::parse("I"), Some(JavaType::Int));
    assert_eq!(JavaType::parse("Z"), Some(JavaType::Boolean));
    assert_eq!(JavaType::parse(""), None);
    assert_eq!(JavaType::parse("X"), None);
    assert_eq!(JavaType::parse("L"), None);
    assert_eq!(JavaType::parse("Q12"), None);
    assert_eq!(JavaType::parse("[J"), Some(JavaType::Array(Box::new(JavaType::Long))));
    assert_eq!(
        JavaType::parse("Ljava/lang/String;"),
        Some(JavaType::Class("Ljava/lang/String;"))
    );
    assert_eq!(JavaType::parse("[X"), None);
}

#[test]
fn java_type_names() {
    assert_eq!(JavaType::to_string(&JavaType::Double), "double");
    let t = JavaType::parse("[[Ljava/lang/String;").unwrap();
    assert_eq!(JavaType::to_string(&t), "java.lang.String[][]");
    let t = JavaType::parse("LLjava/util/Map;").unwrap();
    assert_eq!(JavaType::to_string(&t), "java.util.Map");
}

#[test]
fn class_signature() {
    let t = JavaType::parse("Ljava/lang/String;").unwrap();
    let sig = ClassSignature::new(&t, "G".to_string());
    assert_eq!(sig.package, "java.lang");
    assert_eq!(sig.name, "java.lang.String");
    assert_eq!(sig.generic, "G");
    assert_eq!(sig.to_string(), "java.lang.String");
    let sig = ClassSignature::new(&JavaType::Int, String::new());
    assert_eq!(sig.package, "");
    let class = Class::new(ClassId { native_id: 4 }, JavaType::parse("LFoo;").unwrap());
    assert_eq!(class.to_string(), "Foo");
    assert_eq!(class.id.native_id, 4);
}

#[test]
fn method_signatures() {
    let m = MethodSignature::unknown();
    assert_eq!(m.name, "<UNKNOWN METHOD>");
    assert_eq!(m.signature, "<UNKNOWN>");
    let m = MethodSignature::new("run".into(), "()V".into(), "".into());
    assert_eq!(m.name, "run");
}

#[test]
fn options_parse() {
    let o = Options::parse("agentid=myagent,config=/tmp/a.conf,interval=10,trace".to_string());
    assert_eq!(o.agent_id, "myagent");
    assert_eq!(o.config_location, Some("/tmp/a.conf".to_string()));
    assert_eq!(o.custom_args, vec![("interval".to_string(), "10".to_string()), ("trace".to_string(), String::new())]);
    assert_eq!(o.custom_arg("interval").map(|s| s.as_str()), Some("10"));
    assert_eq!(o.custom_arg("missing"), None);
    let o = Options::parse(String::new());
    assert_eq!(o.agent_id, "jvmti");
    assert!(o.custom_args.is_empty() && o.config_location.is_none());
    let o = Options::parse("a=b=c,a=d".to_string());
    assert_eq!(o.custom_arg("a").map(|s| s.as_str()), Some("d"));
    assert_eq!(o.custom_args[0], ("a".to_string(), "b=c".to_string()));
    let o = Options::parse(",".to_string());
    assert_eq!(o.custom_args.len(), 2);
}

#[test]
fn sample_queue_keeps_newest() {
    let mut q: SampleQueue<u32> = SampleQueue::new();
    q.push_back(vec![1, 2, 3]);
    assert_eq!(q.pop_front(), Some(1));
    let many: Vec<u32> = (0..10001).collect();
    q.push_back(many);
    assert_eq!(q.queue.len(), 10000);
    assert_eq!(q.pop_front(), Some(1));
    assert_eq!(q.pop_front(), Some(2));
    let mut empty: SampleQueue<u32> = SampleQueue::new();
    assert_eq!(empty.pop_front(), None);
}

#[test]
fn sample_queue_stats() {
    let mut q: SampleQueue<u32> = SampleQueue::new();
    assert_eq!(q.stats(1000), None);
    q.push_back(vec![1, 2]);
    assert_eq!(q.stats(3000), Some((2, 2000)));
}

#[test]
fn server_functions() {
    let mut q: SampleQueue<u32> = SampleQueue::new();
    add_sample_data(&mut q, 5);
    add_sample_data_batch(&mut q, vec![6, 7]);
    assert_eq!(q.queue.iter().copied().collect::<Vec<u32>>(), vec![5, 6, 7]);
    let mut s = SampleServer::new();
    assert!(!is_server_running(&s));
    s.set_running(true);
    assert!(is_server_running(&s));
    assert_eq!(s.bind_port, 3333);
}

#[test]
fn thread_data_new() {
    let t = ThreadData::new(7, "worker".to_string());
    assert_eq!(t.id, 7);
    assert_eq!(t.name, "worker");
    assert!(t.stacktrace.is_empty());
}

#[test]
fn configured_entry_points() {
    let mut config = Config::default();
    assert_eq!(config.agent_name, "default");
    assert!(config.trace_enable);
    assert!(!is_entry_point(&config, "p.C", "run"));
    config.entry_points = vec!["p.D.go".to_string(), "p.C.run".to_string()];
    assert!(is_entry_point(&config, "p.C", "run"));
    assert!(is_entry_point(&config, "p.D", "go"));
    assert!(!is_entry_point(&config, "p.C", "ru"));
    assert!(!is_entry_point(&config, "p", "C.runx"));
}

#[test]
fn attach_decisions() {
    let o = Options::parse("trace=on,interval=+35".to_string());
    assert_eq!(sample_interval(&o), 35);
    assert_eq!(attach_action(&o, false), TraceAction::Start(35));
    assert_eq!(attach_action(&o, true), TraceAction::AlreadyRunning);
    let o = Options::parse("trace=on".to_string());
    assert_eq!(sample_interval(&o), 20);
    assert_eq!(attach_action(&o, false), TraceAction::Start(20));
    let o = Options::parse("trace=off,interval=5".to_string());
    assert_eq!(attach_action(&o, false), TraceAction::Stop);
    let o = Options::parse("trace,interval=5,interval=7".to_string());
    assert_eq!(sample_interval(&o), 7);
    assert_eq!(attach_action(&o, true), TraceAction::Stop);
    let o = Options::parse("agentid=a".to_string());
    assert_eq!(attach_action(&o, false), TraceAction::Nothing);
}

#[test]
fn cpu_time_refresh_after_fifty_ms() {
    assert_eq!(cpu_time_refresh(0, 1000), (true, 1000));
    assert_eq!(cpu_time_refresh(1000, 1050), (false, 1000));
    assert_eq!(cpu_time_refresh(1000, 1051), (true, 1051));
}

#[test]
fn sample_queue_first_in_first_out() {
    let mut q: SampleQueue<u32> = SampleQueue::new();
    let v: Vec<u32> = (0..10000).collect();
    q.push_back(v.clone());
    for x in v {
        assert_eq!(q.pop_front(), Some(x));
    }
    assert_eq!(q.pop_front(), None);
}
