use flare::agent::capabilities::Capabilities;
use flare::agent::class::{ClassId, ClassSignature};
use flare::agent::class_builder::{Class, ClassfileVersion, ConstantPool};
use flare::agent::environment::Environment;
use flare::agent::error::NativeError;
use flare::agent::event::{EventCallbacks, VMEvent};
use flare::agent::instrumentation::{Field, JavaClass, JavaType, Method};
use flare::agent::jvm::{JavaStackFrame, JavaStackTrace, StackInfo, ThreadInfo, TimerInfo, JNI, JVMTI};
use flare::agent::mem::MemoryAllocation;
use flare::agent::method::{MethodId, MethodSignature};
use flare::agent::sampler::{method_full_name, SampleRecord, Sampler, SamplerRequest};
use flare::protocol::RespValue;
use flare::agent::thread::{Thread, ThreadId};
use flare::agent::version::VersionNumber;

struct NoJni;

impl JNI for NoJni {
    fn thread_class(&self) -> ClassId {
        self.find_class("java/lang/Thread")
    }
    fn get_id_method_in(&self, clazz: u64) -> u64 {
        self.get_method_id(clazz, "getId", "()J")
    }
    fn long_answer(&self, obj: u64, method_id: u64) -> i64 {
        self.call_long_method(obj, method_id)
    }
    fn get_object_class(&self, _object_id: &u64) -> ClassId {
        ClassId { native_id: 0 }
    }
    fn find_class(&self, _class_name: &str) -> ClassId {
        ClassId { native_id: 0 }
    }
    fn get_method_id(&self, _clazz: u64, _method_name: &str, _method_sig: &str) -> u64 {
        0
    }
    fn call_long_method(&self, _obj: u64, _method_id: u64) -> i64 {
        0
    }
    fn delete_local_ref(&self, _obj: u64) {}
    fn delete_global_ref(&self, _obj: u64) {}
}

struct NamingTi;

impl JVMTI for NamingTi {
    type Handler = fn();
    fn thread_list(&self) -> Result<Vec<ThreadId>, NativeError> {
        self.get_all_threads()
    }
    fn thread_report(&self, thread: u64) -> Result<Thread, NativeError> {
        self.get_thread_info(&thread)
    }
    fn cpu_time_of(&self, thread: u64) -> Result<i64, NativeError> {
        self.get_thread_cpu_time(&thread)
    }
    fn stack_of(&self, thread: u64) -> Result<Vec<JavaStackFrame>, NativeError> {
        self.get_stack_trace(&thread)
    }
    fn stack_listing(&self, max_frame_count: i32) -> Result<Vec<StackInfo>, NativeError> {
        self.get_all_stack_infos(max_frame_count)
    }
    fn held_capabilities(&self) -> Capabilities {
        Capabilities::new()
    }
    fn grantable_capabilities(&self) -> Capabilities {
        Capabilities::new()
    }
    fn registered_handlers(&self) -> EventCallbacks<fn()> {
        EventCallbacks::new()
    }
    fn delivers(&self, _event: VMEvent) -> bool {
        false
    }
    fn requested_mode(&self, _event: VMEvent) -> Option<bool> {
        None
    }
    fn registration_refused(&self) -> bool {
        false
    }
    fn capability_request_refused(&self) -> bool {
        false
    }
    fn method_name_of(&self, method: MethodId) -> Result<MethodSignature, NativeError> {
        self.get_method_name(&method)
    }
    fn declaring_class_of(&self, method: MethodId) -> Result<ClassId, NativeError> {
        self.get_method_declaring_class(&method)
    }
    fn class_signature_of(&self, class: ClassId) -> Result<ClassSignature, NativeError> {
        self.get_class_signature(&class)
    }
    fn get_version_number(&self) -> VersionNumber {
        VersionNumber::from_u32(&0x3001_0201)
    }
    fn add_capabilities(&mut self, new_capabilities: &Capabilities) -> Result<Capabilities, NativeError> {
        Ok(*new_capabilities)
    }
    fn get_capabilities(&self) -> Capabilities {
        Capabilities::new()
    }
    fn get_potential_capabilities(&self) -> Capabilities {
        Capabilities::new()
    }
    fn set_event_callbacks(&mut self, _callbacks: EventCallbacks<fn()>) -> Option<NativeError> {
        None
    }
    fn set_event_notification_mode(&mut self, _event: VMEvent, _mode: bool) -> Option<NativeError> {
        None
    }
    fn get_thread_info(&self, _thread_id: &u64) -> Result<Thread, NativeError> {
        Err(NativeError::NotImplemented)
    }
    fn get_method_declaring_class(&self, method_id: &MethodId) -> Result<ClassId, NativeError> {
        Ok(ClassId { native_id: method_id.native_id })
    }
    fn get_method_name(&self, method_id: &MethodId) -> Result<MethodSignature, NativeError> {
        if method_id.native_id == 99 {
            return Err(NativeError::NotAvailable);
        }
        Ok(MethodSignature { name: format!("m{}", method_id.native_id), signature: "()V".to_string(), generic: String::new() })
    }
    fn get_class_signature(&self, _class_id: &ClassId) -> Result<ClassSignature, NativeError> {
        Ok(ClassSignature { package: "p".to_string(), name: "p.C".to_string(), generic: String::new() })
    }
    fn allocate(&self, len: usize) -> Result<MemoryAllocation, NativeError> {
        Ok(MemoryAllocation { ptr: 0, len })
    }
    fn deallocate(&self, _ptr: u64) {}
    fn get_all_threads(&self) -> Result<Vec<ThreadId>, NativeError> {
        Ok(vec![])
    }
    fn get_thread_cpu_time(&self, _thread_id: &u64) -> Result<i64, NativeError> {
        Ok(0)
    }
    fn get_stack_trace(&self, _thread_id: &u64) -> Result<Vec<JavaStackFrame>, NativeError> {
        Ok(vec![])
    }
    fn get_all_stack_infos(&self, _max_frame_count: i32) -> Result<Vec<StackInfo>, NativeError> {
        Ok(vec![])
    }
    fn get_thread_cpu_timer_info(&self) -> Result<TimerInfo, NativeError> {
        Err(NativeError::NotImplemented)
    }
}

fn stack(thread_id: i64, cpu_time: i64, frames: &[u64]) -> JavaStackTrace {
    JavaStackTrace {
        thread: ThreadInfo { thread_id, name: "worker".to_string(), priority: 5, is_daemon: true, cpu_time },
        state: 0,
        cpu_time,
        frame_buffer: frames.iter().map(|m| JavaStackFrame { method: *m, location: 0 }).collect(),
    }
}

fn summary(records: &[SampleRecord]) -> Vec<String> {
    records
        .iter()
        .map(|r| match r {
            SampleRecord::Method(m) => format!("method {} {} {}", m.method_id, m.full_name, m.hits_count),
            SampleRecord::Thread(t) => format!(
                "thread {} {:?} cpu={} time={} last={} len={}",
                t.id, t.stacktrace, t.cpu_time, t.sample_time, t.last_stack_frame, t.last_stack_len
            ),
        })
        .collect()
}

#[test]
fn sampler_sends_new_methods_then_thread() {
    let env = Environment::new(NamingTi, NoJni);
    let mut sampler = Sampler::new();
    let records = sampler.add_stack_traces(&env, &vec![stack(1, 100, &[10, 20])], 1000).unwrap();
    assert_eq!(
        summary(&records),
        vec![
            "method 10 p.C.m10() 1".to_string(),
            "method 20 p.C.m20() 1".to_string(),
            "thread 1 [10, 20] cpu=100 time=1000 last=0 len=2".to_string(),
        ]
    );
    match &records[2] {
        SampleRecord::Thread(t) => {
            assert_eq!(t.name, "worker");
            assert_eq!(t.priority, 5);
            assert!(t.daemon);
        }
        _ => panic!("not a thread record"),
    }
}

#[test]
fn sampler_passes_over_idle_threads() {
    let env = Environment::new(NamingTi, NoJni);
    let mut sampler = Sampler::new();
    sampler.add_stack_traces(&env, &vec![stack(1, 100, &[10, 20])], 1000).unwrap();
    // same CPU time: the top frame is compared with the one kept, which is
    // still zero, so the stack is sent and its top frame kept
    let again = sampler.add_stack_traces(&env, &vec![stack(1, 100, &[10, 20])], 1020).unwrap();
    assert_eq!(summary(&again), vec!["thread 1 [10, 20] cpu=100 time=1020 last=10 len=2".to_string()]);
    let idle = sampler.add_stack_traces(&env, &vec![stack(1, 100, &[10, 20])], 1040).unwrap();
    assert!(idle.is_empty());
    let empty = sampler.add_stack_traces(&env, &vec![stack(1, 100, &[])], 1050).unwrap();
    assert!(empty.is_empty());
    let busy = sampler.add_stack_traces(&env, &vec![stack(1, 150, &[10, 30])], 1060).unwrap();
    assert_eq!(
        summary(&busy),
        vec!["method 30 p.C.m30() 1".to_string(), "thread 1 [10, 30] cpu=150 time=1060 last=0 len=2".to_string()]
    );
}

#[test]
fn sampler_stops_on_lookup_failure() {
    let env = Environment::new(NamingTi, NoJni);
    let mut sampler = Sampler::new();
    assert!(matches!(sampler.add_stack_traces(&env, &vec![stack(1, 5, &[99])], 1), Err(NativeError::NotAvailable)));
    let m = sampler.get_method_info(&env, 7).unwrap();
    assert_eq!((m.method_id, m.hits_count), (7, 1));
    let m = sampler.get_method_info(&env, 7).unwrap();
    assert_eq!((m.method_id, m.full_name.as_str(), m.hits_count), (7, "p.C.m7()", 2));
}

#[test]
fn sampler_settings() {
    let mut sampler = Sampler::new();
    assert!(!sampler.is_running());
    sampler.set_options(20);
    assert_eq!(sampler.get_sample_interval(), 20);
    assert!(sampler.start(500));
    assert!(!sampler.start(600));
    assert_eq!(sampler.get_start_time(), 500);
    assert!(sampler.stop());
    assert!(!sampler.stop());
    let name = method_full_name(
        &ClassSignature { package: "java.lang".to_string(), name: "java.lang.String".to_string(), generic: String::new() },
        &MethodSignature { name: "length".to_string(), signature: "()I".to_string(), generic: String::new() },
    );
    assert_eq!(name, "java.lang.String.length()");
}

#[test]
fn instrumentation_model() {
    let f = Field::new("count".to_string(), JavaType::Integer);
    assert_eq!(f.name, "count");
    assert!(f.field_type == JavaType::Integer);
    let m = Method::new("run".to_string());
    assert!(m.return_type == JavaType::Void);
    let c = JavaClass::new();
    assert!(c.methods.is_empty() && c.fields.is_empty());
    JavaClass::add_method(m);
    let mut k = Class::new();
    assert!(k.version == ClassfileVersion::Java1_8);
    k.set_version(ClassfileVersion::Java1_5);
    assert!(k.version == ClassfileVersion::Java1_5);
    let pool: &mut ConstantPool = k.constant_pool();
    pool.add_utf8_constant("a".to_string());
    pool.add_string_constant("b".to_string());
    k.set_version(ClassfileVersion::Java1_9);
    let header = k.to_classfile();
    assert_eq!(header.major_version, 49);
    assert_eq!(header.minor_version, 0);
}

use flare::agent::jvm::ThreadInfo as Info;
use flare::agent::stacks::{build_stack_traces, get_stack_traces, traces_from_answers, StackAnswer, ThreadAnswers};
use flare::server::threads::method_info_of;
use std::collections::HashMap;

struct CountingJni;

impl JNI for CountingJni {
    fn thread_class(&self) -> ClassId {
        self.find_class("java/lang/Thread")
    }
    fn get_id_method_in(&self, clazz: u64) -> u64 {
        self.get_method_id(clazz, "getId", "()J")
    }
    fn long_answer(&self, obj: u64, method_id: u64) -> i64 {
        self.call_long_method(obj, method_id)
    }
    fn get_object_class(&self, _object_id: &u64) -> ClassId {
        ClassId { native_id: 0 }
    }
    fn find_class(&self, _class_name: &str) -> ClassId {
        ClassId { native_id: 1 }
    }
    fn get_method_id(&self, _clazz: u64, _method_name: &str, _method_sig: &str) -> u64 {
        2
    }
    fn call_long_method(&self, obj: u64, _method_id: u64) -> i64 {
        obj as i64 + 100
    }
    fn delete_local_ref(&self, _obj: u64) {}
    fn delete_global_ref(&self, _obj: u64) {}
}

struct ThreadsTi {
    cpu: i64,
    listed: Vec<u64>,
}

impl JVMTI for ThreadsTi {
    type Handler = fn();
    fn thread_list(&self) -> Result<Vec<ThreadId>, NativeError> {
        self.get_all_threads()
    }
    fn thread_report(&self, thread: u64) -> Result<Thread, NativeError> {
        self.get_thread_info(&thread)
    }
    fn cpu_time_of(&self, thread: u64) -> Result<i64, NativeError> {
        self.get_thread_cpu_time(&thread)
    }
    fn stack_of(&self, thread: u64) -> Result<Vec<JavaStackFrame>, NativeError> {
        self.get_stack_trace(&thread)
    }
    fn stack_listing(&self, max_frame_count: i32) -> Result<Vec<StackInfo>, NativeError> {
        self.get_all_stack_infos(max_frame_count)
    }
    fn held_capabilities(&self) -> Capabilities {
        Capabilities::new()
    }
    fn grantable_capabilities(&self) -> Capabilities {
        Capabilities::new()
    }
    fn registered_handlers(&self) -> EventCallbacks<fn()> {
        EventCallbacks::new()
    }
    fn delivers(&self, _event: VMEvent) -> bool {
        false
    }
    fn requested_mode(&self, _event: VMEvent) -> Option<bool> {
        None
    }
    fn registration_refused(&self) -> bool {
        false
    }
    fn capability_request_refused(&self) -> bool {
        false
    }
    fn method_name_of(&self, method: MethodId) -> Result<MethodSignature, NativeError> {
        self.get_method_name(&method)
    }
    fn declaring_class_of(&self, method: MethodId) -> Result<ClassId, NativeError> {
        self.get_method_declaring_class(&method)
    }
    fn class_signature_of(&self, class: ClassId) -> Result<ClassSignature, NativeError> {
        self.get_class_signature(&class)
    }
    fn get_version_number(&self) -> VersionNumber {
        VersionNumber::from_u32(&0x3001_0201)
    }
    fn add_capabilities(&mut self, new_capabilities: &Capabilities) -> Result<Capabilities, NativeError> {
        Ok(*new_capabilities)
    }
    fn get_capabilities(&self) -> Capabilities {
        Capabilities::new()
    }
    fn get_potential_capabilities(&self) -> Capabilities {
        Capabilities::new()
    }
    fn set_event_callbacks(&mut self, _callbacks: EventCallbacks<fn()>) -> Option<NativeError> {
        None
    }
    fn set_event_notification_mode(&mut self, _event: VMEvent, _mode: bool) -> Option<NativeError> {
        None
    }
    fn get_thread_info(&self, thread_id: &u64) -> Result<Thread, NativeError> {
        if *thread_id == 3 {
            return Err(NativeError::WrongPhase);
        }
        Ok(Thread {
            id: ThreadId { native_id: *thread_id },
            thread_id: 0,
            name: format!("t{}", thread_id),
            priority: 5,
            is_daemon: false,
            thread_group: 0,
            context_class_loader: 0,
        })
    }
    fn get_method_declaring_class(&self, _method_id: &MethodId) -> Result<ClassId, NativeError> {
        Err(NativeError::NotImplemented)
    }
    fn get_method_name(&self, _method_id: &MethodId) -> Result<MethodSignature, NativeError> {
        Err(NativeError::NotImplemented)
    }
    fn get_class_signature(&self, _class_id: &ClassId) -> Result<ClassSignature, NativeError> {
        Err(NativeError::NotImplemented)
    }
    fn allocate(&self, len: usize) -> Result<MemoryAllocation, NativeError> {
        Ok(MemoryAllocation { ptr: 0, len })
    }
    fn deallocate(&self, _ptr: u64) {}
    fn get_all_threads(&self) -> Result<Vec<ThreadId>, NativeError> {
        Ok(vec![ThreadId { native_id: 1 }, ThreadId { native_id: 3 }, ThreadId { native_id: 2 }])
    }
    fn get_thread_cpu_time(&self, thread_id: &u64) -> Result<i64, NativeError> {
        Ok(self.cpu * *thread_id as i64)
    }
    fn get_stack_trace(&self, thread_id: &u64) -> Result<Vec<JavaStackFrame>, NativeError> {
        Ok(vec![JavaStackFrame { method: *thread_id * 10, location: 0 }])
    }
    fn get_all_stack_infos(&self, max_frame_count: i32) -> Result<Vec<StackInfo>, NativeError> {
        assert_eq!(max_frame_count, 2000);
        Ok(self
            .listed
            .iter()
            .map(|t| StackInfo {
                thread: *t,
                state: *t as i32 + 1,
                frame_buffer: vec![JavaStackFrame { method: *t * 10, location: 1 }, JavaStackFrame { method: *t * 10 + 1, location: 2 }],
            })
            .collect())
    }
    fn get_thread_cpu_timer_info(&self) -> Result<TimerInfo, NativeError> {
        Ok(TimerInfo { max_value: -1, may_skip_forward: 0, may_skip_backward: 0, kind: 1, reserved1: 0, reserved2: 0 })
    }
}

#[test]
fn stack_traces_of_all_threads() {
    let mut env = Environment::new(ThreadsTi { cpu: 7, listed: vec![] }, CountingJni);
    let mut infos: HashMap<i64, Info> = HashMap::new();
    let stacks = get_stack_traces(&mut env, &mut infos, false).unwrap();
    // the thread that cannot be described is passed over
    assert_eq!(stacks.len(), 2);
    assert_eq!(stacks[0].thread.thread_id, 101);
    assert_eq!(stacks[0].thread.name, "t1");
    assert_eq!(stacks[0].cpu_time, 7);
    assert_eq!(stacks[1].cpu_time, 14);
    assert_eq!(stacks[1].frame_buffer[0].method, 20);
    assert_eq!(infos.len(), 2);
    infos.get_mut(&101).unwrap().cpu_time = 1;
    let again = get_stack_traces(&mut env, &mut infos, false).unwrap();
    assert_eq!(again[0].cpu_time, 1);
    let updated = get_stack_traces(&mut env, &mut infos, true).unwrap();
    assert_eq!(updated[0].cpu_time, 7);
    assert_eq!(updated[0].thread.cpu_time, 7);
}

#[test]
fn stored_method_names() {
    assert_eq!(method_info_of(5, b"A.b()").full_name, "A.b()");
    assert_eq!(method_info_of(5, b"").full_name, "5");
    assert_eq!(method_info_of(-5, &[0xff, 0xfe]).full_name, "-5");
    assert_eq!(method_info_of(5, b"x").hits_count, 0);
}

fn command(name: &str) -> RespValue {
    RespValue::Array(vec![RespValue::String(name.to_string()), RespValue::String("k".to_string()), RespValue::Integer(1)])
}

#[test]
fn sampler_requests() {
    let sampler = Sampler::new();
    assert_eq!(sampler.handle_request(&command("get_sample_info")), Some(SamplerRequest::GetSampleInfo));
    assert_eq!(sampler.handle_request(&command("get_method_cache")), Some(SamplerRequest::GetMethodCache));
    assert_eq!(sampler.handle_request(&command("get_methods")), Some(SamplerRequest::Unknown));
    assert_eq!(sampler.handle_request(&RespValue::Array(vec![RespValue::Integer(3)])), None);
    assert_eq!(sampler.handle_request(&RespValue::String("get_sample_info".to_string())), None);
}

#[test]
fn sampler_method_cache_messages() {
    let env = Environment::new(NamingTi, NoJni);
    let mut sampler = Sampler::new();
    assert!(sampler.method_cache_messages().is_empty());
    sampler.add_stack_traces(&env, &vec![stack(1, 100, &[10, 20, 10])], 1000).unwrap();
    let mut names: Vec<String> = sampler
        .method_cache_messages()
        .iter()
        .map(|m| match m {
            RespValue::Array(items) => match (&items[0], &items[2], &items[4]) {
                (RespValue::String(kind), RespValue::Integer(id), RespValue::String(name)) => format!("{} {} {}", kind, id, name),
                _ => panic!("unexpected message items"),
            },
            _ => panic!("unexpected message"),
        })
        .collect();
    names.sort();
    assert_eq!(names, vec!["method 10 p.C.m10()".to_string(), "method 20 p.C.m20()".to_string()]);
}

#[test]
fn all_stack_traces_pass_over_idle_threads() {
    let mut env = Environment::new(ThreadsTi { cpu: 7, listed: vec![1, 0, 2] }, CountingJni);
    let traces = env.get_all_stacktraces().unwrap();
    assert_eq!(traces.len(), 2);
    assert_eq!(traces[0].thread.thread_id, 101);
    assert_eq!(traces[0].thread.name, "t1");
    assert_eq!(traces[0].thread.cpu_time, 0);
    assert_eq!(traces[0].cpu_time, 7);
    assert_eq!(traces[0].state, 2);
    assert_eq!(traces[1].cpu_time, 14);
    assert_eq!(traces[1].state, 3);
    assert_eq!(traces[1].frame_buffer.len(), 2);
    assert_eq!(traces[1].frame_buffer[1].method, 21);
    assert_eq!(traces[1].frame_buffer[1].location, 2);
    assert_eq!(env.get_thread_cpu_timer_info().unwrap().max_value, -1);
}

#[test]
fn all_stack_traces_fail_on_undescribed_thread() {
    let mut env = Environment::new(ThreadsTi { cpu: 7, listed: vec![1, 3] }, CountingJni);
    assert!(matches!(env.get_all_stacktraces(), Err(NativeError::WrongPhase)));
}

#[test]
fn traces_from_jvm_answers() {
    let infos = vec![
        StackInfo { thread: 1, state: 4, frame_buffer: vec![JavaStackFrame { method: 7, location: 3 }] },
        StackInfo { thread: 2, state: 5, frame_buffer: vec![] },
        StackInfo { thread: 3, state: 6, frame_buffer: vec![] },
    ];
    let info = |id: i64| Info { thread_id: id, name: format!("t{}", id), priority: 5, is_daemon: false, cpu_time: 0 };
    let answers = vec![StackAnswer::Kept(9, Ok(info(11))), StackAnswer::Idle, StackAnswer::Kept(0, Ok(info(13)))];
    let traces = traces_from_answers(&infos, &answers).unwrap();
    assert_eq!(traces.len(), 2);
    assert_eq!((traces[0].thread.thread_id, traces[0].state, traces[0].cpu_time), (11, 4, 9));
    assert_eq!(traces[0].frame_buffer[0].method, 7);
    assert_eq!((traces[1].thread.thread_id, traces[1].state, traces[1].cpu_time), (13, 6, 0));
    let failing = vec![StackAnswer::Idle, StackAnswer::Kept(1, Err(NativeError::WrongPhase))];
    assert!(matches!(traces_from_answers(&infos, &failing), Err(NativeError::WrongPhase)));
}

#[test]
fn stack_traces_from_thread_answers() {
    let info = |id: i64| Info { thread_id: id, name: format!("t{}", id), priority: 5, is_daemon: false, cpu_time: 0 };
    let mut table: HashMap<i64, Info> = HashMap::new();
    let answers = vec![
        ThreadAnswers { java_id: 101, described: Ok(info(101)), cpu: Ok(7), frames: Ok(vec![JavaStackFrame { method: 10, location: 0 }]) },
        ThreadAnswers { java_id: 103, described: Err(NativeError::WrongPhase), cpu: Ok(1), frames: Ok(vec![]) },
        ThreadAnswers { java_id: 102, described: Ok(info(102)), cpu: Err(NativeError::NotAvailable), frames: Err(NativeError::NotAvailable) },
    ];
    let traces = build_stack_traces(&answers, &mut table, false);
    assert_eq!(traces.len(), 2);
    assert_eq!((traces[0].thread.thread_id, traces[0].cpu_time, traces[0].frame_buffer.len()), (101, 7, 1));
    assert_eq!((traces[1].thread.thread_id, traces[1].cpu_time, traces[1].frame_buffer.len()), (102, 0, 0));
    assert_eq!(table.len(), 2);
    // a known thread keeps its CPU time unless asked to read it again
    let again = vec![ThreadAnswers { java_id: 101, described: Err(NativeError::NotAvailable), cpu: Ok(50), frames: Ok(vec![]) }];
    assert_eq!(build_stack_traces(&again, &mut table, false)[0].cpu_time, 7);
    assert_eq!(build_stack_traces(&again, &mut table, true)[0].cpu_time, 50);
    assert_eq!(table.get(&101).unwrap().cpu_time, 50);
}
