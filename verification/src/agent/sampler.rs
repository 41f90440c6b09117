//! The sampler: what it keeps of each sampled thread and of each method
//! seen, and how a round of stack traces becomes the records sent to the
//! collector. A thread whose CPU time has not moved since its last sample,
//! and whose stack still has the same top frame and depth, is not sampled
//! again.
use super::class::ClassSignature;
use super::environment::Environment;
use super::error::NativeError;
use super::jvm::{JavaStackFrame, JavaStackTrace, JNI, JVMTI};
use super::method::{MethodId, MethodSignature};
use super::native::{JavaLong, JavaMethod};
use super::encoder::{is_method_message, resp_encode_method_data};
use super::sample::{MethodData, ThreadData};
use super::server::parse_request_options;
use crate::file_utils::str_chars_eq;
use crate::protocol::RespValue;
use crate::text::string_push;
use vstd::std_specs::hash::{into_iter_values, spec_values_iter};
use vstd::std_specs::iter::IteratorSpec;
use std::collections::HashMap;
use vstd::prelude::*;

verus! {

broadcast use vstd::std_specs::hash::group_hash_axioms;

/// A record for the collector: a sample of a thread, or a method seen for
/// the first time.
pub enum SampleRecord {
    Thread(ThreadData),
    Method(MethodData),
}

/// A thread record as plain values.
pub struct ThreadSampleView {
    pub id: i64,
    pub name: Seq<char>,
    pub priority: u32,
    pub daemon: bool,
    pub state: Seq<char>,
    pub cpu_time: i64,
    pub sample_time: i64,
    pub stacktrace: Seq<i64>,
    pub last_stack_frame: i64,
    pub last_stack_len: usize,
}

/// A thread record as plain values.
pub open spec fn sample_view(t: ThreadData) -> ThreadSampleView {
    ThreadSampleView {
        id: t.id,
        name: t.name@,
        priority: t.priority,
        daemon: t.daemon,
        state: t.state@,
        cpu_time: t.cpu_time,
        sample_time: t.sample_time,
        stacktrace: t.stacktrace@,
        last_stack_frame: t.last_stack_frame,
        last_stack_len: t.last_stack_len,
    }
}

/// The records of a table of threads, as plain values.
pub open spec fn view_map(m: Map<i64, ThreadData>) -> Map<i64, ThreadSampleView> {
    m.map_values(|t: ThreadData| sample_view(t))
}

/// The record a thread starts with when it is first sampled: its id, name,
/// priority, whether it is a daemon, and its CPU time.
pub open spec fn fresh_thread(st: JavaStackTrace) -> ThreadSampleView {
    ThreadSampleView {
        id: st.thread.thread_id,
        name: st.thread.name@,
        priority: st.thread.priority,
        daemon: st.thread.is_daemon,
        state: Seq::empty(),
        cpu_time: st.cpu_time,
        sample_time: 0,
        stacktrace: Seq::empty(),
        last_stack_frame: 0,
        last_stack_len: 0,
    }
}

/// Whether a stack is passed over: the thread was sampled before, its CPU
/// time has not moved, and its stack is empty or has the same top frame and
/// depth as last time.
pub open spec fn stack_skipped(before: Option<ThreadSampleView>, st: JavaStackTrace) -> bool {
    match before {
        None => false,
        Some(t) => t.cpu_time == st.cpu_time && (st.frame_buffer@.len() == 0 || (
        t.last_stack_frame == st.frame_buffer@[0].method as i64 && t.last_stack_len
            == st.frame_buffer@.len())),
    }
}

/// The top frame kept for a sampled stack: only read (and kept) when the
/// thread was sampled before and its CPU time has not moved; zero otherwise.
pub open spec fn kept_top_frame(before: Option<ThreadSampleView>, st: JavaStackTrace) -> i64 {
    match before {
        Some(t) => if t.cpu_time == st.cpu_time && st.frame_buffer@.len() > 0 {
            st.frame_buffer@[0].method as i64
        } else {
            0
        },
        None => 0,
    }
}

/// A thread's record after a sampled stack at `now`.
pub open spec fn touched(before: Option<ThreadSampleView>, st: JavaStackTrace, now: i64) -> ThreadSampleView {
    let base = match before {
        Some(t) => t,
        None => fresh_thread(st),
    };
    ThreadSampleView {
        cpu_time: st.cpu_time,
        sample_time: now,
        last_stack_frame: kept_top_frame(before, st),
        last_stack_len: st.frame_buffer@.len() as usize,
        ..base
    }
}

/// The record a table keeps for a thread, if any.
pub open spec fn record_of(m: Map<i64, ThreadSampleView>, id: i64) -> Option<ThreadSampleView> {
    if m.contains_key(id) {
        Some(m[id])
    } else {
        None
    }
}

/// The table of threads after a round of stacks.
pub open spec fn threads_after(m: Map<i64, ThreadSampleView>, stacks: Seq<JavaStackTrace>, now: i64) -> Map<
    i64,
    ThreadSampleView,
>
    decreases stacks.len(),
{
    if stacks.len() == 0 {
        m
    } else {
        let m1 = threads_after(m, stacks.drop_last(), now);
        let st = stacks.last();
        let before = record_of(m1, st.thread.thread_id);
        if stack_skipped(before, st) {
            m1
        } else {
            m1.insert(st.thread.thread_id, touched(before, st, now))
        }
    }
}

/// What the JVM answers when a method seen for the first time is looked
/// up: the method's full name (its class's name, a dot, its name and `()`),
/// or the error of the first lookup that fails, asking in turn for the
/// method's name, its declaring class and that class's signature.
pub open spec fn method_lookup<T: JVMTI>(jvm: T, method: JavaMethod) -> Result<Seq<char>, NativeError> {
    let id = MethodId { native_id: method };
    match jvm.method_name_of(id) {
        Err(e) => Err(e),
        Ok(sig) => match jvm.declaring_class_of(id) {
            Err(e) => Err(e),
            Ok(class) => match jvm.class_signature_of(class) {
                Err(e) => Err(e),
                Ok(cs) => Ok(cs.name@ + "."@ + sig.name@ + "()"@),
            },
        },
    }
}

/// Whether every method on the stacks is among the cached methods `m` or
/// is one the JVM can look up, so that a round of them meets no failed
/// lookup.
pub open spec fn all_methods_known<T: JVMTI>(
    stacks: Seq<JavaStackTrace>,
    m: Map<JavaMethod, MethodData>,
    jvm: T,
) -> bool {
    forall|i: int, j: int|
        0 <= i < stacks.len() && 0 <= j < stacks[i].frame_buffer@.len() ==> m.contains_key(
            #[trigger] stacks[i].frame_buffer@[j].method,
        ) || method_lookup(jvm, stacks[i].frame_buffer@[j].method) is Ok
}

/// The ids of the methods of the frames, in order.
pub open spec fn frame_ids(frames: Seq<JavaStackFrame>) -> Seq<i64> {
    frames.map_values(|f: JavaStackFrame| f.method as i64)
}

/// The thread records a round of stacks sends, in order: one for each stack
/// not passed over, the thread's record with the ids of the stack's methods
/// after what it held.
pub open spec fn threads_sent(
    m: Map<i64, ThreadSampleView>,
    stacks: Seq<JavaStackTrace>,
    now: i64,
) -> Seq<ThreadSampleView>
    decreases stacks.len(),
{
    if stacks.len() == 0 {
        Seq::empty()
    } else {
        let m1 = threads_after(m, stacks.drop_last(), now);
        let sent = threads_sent(m, stacks.drop_last(), now);
        let st = stacks.last();
        let before = record_of(m1, st.thread.thread_id);
        if stack_skipped(before, st) {
            sent
        } else {
            let t = touched(before, st, now);
            sent.push(ThreadSampleView { stacktrace: t.stacktrace + frame_ids(st.frame_buffer@), ..t })
        }
    }
}

/// The thread records among the records, in order, as plain values.
pub open spec fn thread_records(s: Seq<SampleRecord>) -> Seq<ThreadSampleView>
    decreases s.len(),
{
    if s.len() == 0 {
        Seq::empty()
    } else {
        match s.last() {
            SampleRecord::Thread(t) => thread_records(s.drop_last()).push(sample_view(t)),
            SampleRecord::Method(_) => thread_records(s.drop_last()),
        }
    }
}


/// The sampler's state: the methods seen, whether it runs, how often it
/// samples, when it started, and the last sample of each thread.
pub struct Sampler {
    method_cache: HashMap<JavaMethod, MethodData>,
    running: bool,
    sample_interval: u64,
    start_time: i64,
    threads_map: HashMap<JavaLong, ThreadData>,
}

impl Sampler {
    /// The methods seen, by method.
    pub closed spec fn methods(&self) -> Map<JavaMethod, MethodData> {
        self.method_cache@
    }

    /// The last sample of each thread, by thread id.
    pub closed spec fn threads(&self) -> Map<JavaLong, ThreadSampleView> {
        view_map(self.threads_map@)
    }

    /// Whether sampling runs.
    pub closed spec fn on(&self) -> bool {
        self.running
    }

    /// How often it samples, in milliseconds.
    pub closed spec fn interval(&self) -> u64 {
        self.sample_interval
    }

    /// When sampling started.
    pub closed spec fn started(&self) -> i64 {
        self.start_time
    }

    /// Whether each cached method is kept under its own id, with at least
    /// one hit counted.
    pub open spec fn wf(&self) -> bool {
        forall|k: JavaMethod|
            #[trigger] self.methods().contains_key(k) ==> self.methods()[k].method_id == k as i64
                && self.methods()[k].hits_count >= 1
    }

    /// A stopped sampler that has seen nothing.
    pub fn new() -> (r: Sampler)
        ensures
            r.wf(),
            r.methods() == Map::<JavaMethod, MethodData>::empty(),
            r.threads() == Map::<JavaLong, ThreadSampleView>::empty(),
            !r.on(),
            r.interval() == 0,
            r.started() == 0,
    {
        let r = Sampler {
            method_cache: HashMap::new(),
            running: false,
            sample_interval: 0,
            start_time: 0,
            threads_map: HashMap::new(),
        };
        assert(r.threads() =~= Map::<JavaLong, ThreadSampleView>::empty());
        r
    }

    /// Starts sampling at `now` unless it runs already; answers whether it
    /// started (the caller then starts the sample server).
    pub fn start(&mut self, now: i64) -> (r: bool)
        ensures
            r == !old(self).on(),
            final(self).on(),
            final(self).started() == if r {
                now
            } else {
                old(self).started()
            },
            final(self).interval() == old(self).interval(),
            final(self).methods() == old(self).methods(),
            final(self).threads() == old(self).threads(),
    {
        if !self.running {
            self.running = true;
            self.start_time = now;
            true
        } else {
            false
        }
    }

    /// Stops sampling if it runs; answers whether it stopped (the caller
    /// then stops the sample server).
    pub fn stop(&mut self) -> (r: bool)
        ensures
            r == old(self).on(),
            !final(self).on(),
            final(self).started() == old(self).started(),
            final(self).interval() == old(self).interval(),
            final(self).methods() == old(self).methods(),
            final(self).threads() == old(self).threads(),
    {
        if self.running {
            self.running = false;
            true
        } else {
            false
        }
    }

    /// Whether sampling runs.
    pub fn is_running(&self) -> (r: bool)
        ensures
            r == self.on(),
    {
        self.running
    }

    /// Sets how often it samples, in milliseconds.
    pub fn set_options(&mut self, sample_interval: u64)
        ensures
            final(self).interval() == sample_interval,
            final(self).on() == old(self).on(),
            final(self).started() == old(self).started(),
            final(self).methods() == old(self).methods(),
            final(self).threads() == old(self).threads(),
    {
        self.sample_interval = sample_interval;
    }

    /// How often it samples, in milliseconds.
    pub fn get_sample_interval(&self) -> (r: u64)
        ensures
            r == self.interval(),
    {
        self.sample_interval
    }

    /// When sampling started.
    pub fn get_start_time(&self) -> (r: i64)
        ensures
            r == self.started(),
    {
        self.start_time
    }

    /// The cached record of a method, counting one more hit; a method seen
    /// for the first time is looked up in the JVM (see `method_lookup`) and
    /// cached with its full name. A failed lookup leaves the cache as it was
    /// and answers the JVM's error.
    pub fn get_method_info<T: JVMTI, N: JNI>(&mut self, jvm_env: &Environment<T, N>, method: JavaMethod) -> (r:
        Result<MethodData, NativeError>)
        requires
            old(self).wf(),
            old(self).methods().contains_key(method) ==> old(self).methods()[method].hits_count
                < u32::MAX,
        ensures
            final(self).wf(),
            final(self).threads() == old(self).threads(),
            final(self).on() == old(self).on(),
            final(self).started() == old(self).started(),
            final(self).interval() == old(self).interval(),
            match r {
                Ok(m) => {
                    &&& final(self).methods().dom() == old(self).methods().dom().insert(method)
                    &&& forall|k: JavaMethod|
                        k != method && old(self).methods().contains_key(k)
                            ==> #[trigger] final(self).methods()[k] == old(self).methods()[k]
                    &&& final(self).methods()[method].method_id == m.method_id
                    &&& final(self).methods()[method].full_name@ == m.full_name@
                    &&& final(self).methods()[method].hits_count == m.hits_count
                    &&& m.method_id == method as i64
                    &&& if old(self).methods().contains_key(method) {
                        &&& m.full_name@ == old(self).methods()[method].full_name@
                        &&& m.hits_count == old(self).methods()[method].hits_count + 1
                    } else {
                        &&& m.hits_count == 1
                        &&& method_lookup(jvm_env.tool(), method) == Ok::<Seq<char>, NativeError>(m.full_name@)
                    }
                },
                Err(e) => {
                    &&& !old(self).methods().contains_key(method)
                    &&& method_lookup(jvm_env.tool(), method) == Err::<Seq<char>, NativeError>(e)
                    &&& final(self).methods() == old(self).methods()
                },
            },
            !old(self).methods().contains_key(method) ==> (r is Ok <==> method_lookup(jvm_env.tool(), method) is Ok),
    {
        let ghost before = self.method_cache@;
        let cached = self.method_cache.remove(&method);
        proof {
            if !before.contains_key(method) {
                assert(self.method_cache@ =~= before);
            }
        }
        let mut method_data = match cached {
            Some(m) => m,
            None => {
                let method_id = MethodId { native_id: method };
                let method_sig = match jvm_env.get_method_name(&method_id) {
                    Ok(s) => s,
                    Err(e) => return Err(e),
                };
                let class_id = match jvm_env.get_method_declaring_class(&method_id) {
                    Ok(c) => c,
                    Err(e) => return Err(e),
                };
                let class = match jvm_env.get_class_signature(&class_id) {
                    Ok(c) => c,
                    Err(e) => return Err(e),
                };
                let full_name = method_full_name(&class, &method_sig);
                MethodData { method_id: #[verifier::truncate] (method as i64), full_name, hits_count: 0 }
            },
        };
        method_data.hits_count = method_data.hits_count + 1;
        let copy = MethodData {
            method_id: method_data.method_id,
            full_name: method_data.full_name.clone(),
            hits_count: method_data.hits_count,
        };
        self.method_cache.insert(method, method_data);
        assert(self.method_cache@.dom() =~= before.dom().insert(method));
        Ok(copy)
    }
}

/// How many frames the stacks hold in all.
pub open spec fn frame_total(stacks: Seq<JavaStackTrace>) -> int
    decreases stacks.len(),
{
    if stacks.len() == 0 {
        0
    } else {
        frame_total(stacks.drop_last()) + stacks.last().frame_buffer@.len()
    }
}

/// A copy of a thread record.
pub fn copy_thread_data(t: &ThreadData) -> (r: ThreadData)
    ensures
        sample_view(r) == sample_view(*t),
{
    let stacktrace = t.stacktrace.clone();
    assert(stacktrace@ =~= t.stacktrace@);
    ThreadData {
        id: t.id,
        name: t.name.clone(),
        priority: t.priority,
        daemon: t.daemon,
        state: t.state.clone(),
        cpu_time: t.cpu_time,
        sample_time: t.sample_time,
        stacktrace,
        last_stack_frame: t.last_stack_frame,
        last_stack_len: t.last_stack_len,
    }
}

impl Sampler {
    /// Whether every cached method can count `n` more hits, and a new one
    /// `n` hits, within `u32`.
    pub open spec fn hits_fit(&self, n: int) -> bool {
        &&& n < u32::MAX
        &&& forall|k: JavaMethod|
            #[trigger] self.methods().contains_key(k) ==> self.methods()[k].hits_count + n
                < u32::MAX
    }

    /// Turns a round of stack traces, taken at `now_time`, into records for
    /// the collector, in order: for each stack not passed over (see
    /// `stack_skipped`), a record of each method seen for the first time,
    /// then the thread's record with the stack's methods, innermost first.
    /// The thread's record is kept with its new CPU time, sample time, top
    /// frame and depth. A failed method lookup stops the round with the
    /// JVM's error.
    pub fn add_stack_traces<T: JVMTI, N: JNI>(
        &mut self,
        jvmenv: &Environment<T, N>,
        stack_traces: &Vec<JavaStackTrace>,
        now_time: i64,
    ) -> (r: Result<Vec<SampleRecord>, NativeError>)
        requires
            old(self).wf(),
            old(self).hits_fit(frame_total(stack_traces@)),
        ensures
            final(self).wf(),
            final(self).on() == old(self).on(),
            final(self).started() == old(self).started(),
            final(self).interval() == old(self).interval(),
            all_methods_known(stack_traces@, old(self).methods(), jvmenv.tool()) ==> r is Ok,
            r matches Err(e) ==> exists|i: int, j: int|
                0 <= i < stack_traces@.len() && 0 <= j < stack_traces@[i].frame_buffer@.len()
                    && !old(self).methods().contains_key(#[trigger] stack_traces@[i].frame_buffer@[j].method)
                    && method_lookup(jvmenv.tool(), stack_traces@[i].frame_buffer@[j].method)
                    == Err::<Seq<char>, NativeError>(e),
            r matches Ok(records) ==> {
                &&& final(self).threads() == threads_after(old(self).threads(), stack_traces@, now_time)
                &&& thread_records(records@) == threads_sent(
                    old(self).threads(),
                    stack_traces@,
                    now_time,
                )
                &&& forall|j: int|
                    0 <= j < records@.len() ==> (#[trigger] records@[j] matches SampleRecord::Method(
                        m,
                    ) ==> m.hits_count == 1 && !old(self).methods().contains_key(m.method_id as u64)
                        && method_lookup(jvmenv.tool(), m.method_id as u64) == Ok::<Seq<char>, NativeError>(
                        m.full_name@,
                    ))
            },
    {
        let ghost stacks = stack_traces@;
        proof {
            lemma_frame_total_prefix(stacks, 0);
        }
        let ghost m0 = self.threads();
        let ghost c0 = self.methods();
        let mut records: Vec<SampleRecord> = Vec::new();
        let mut i: usize = 0;
        while i < stack_traces.len()
            invariant
                i <= stacks.len(),
                stacks == stack_traces@,
                c0 == old(self).methods(),
                self.wf(),
                self.on() == old(self).on(),
                self.started() == old(self).started(),
                self.interval() == old(self).interval(),
                self.hits_fit(frame_total(stacks) - frame_total(stacks.take(i as int))),
                frame_total(stacks.take(i as int)) <= frame_total(stacks),
                self.threads() == threads_after(m0, stacks.take(i as int), now_time),
                thread_records(records@) == threads_sent(m0, stacks.take(i as int), now_time),
                forall|k: JavaMethod| c0.contains_key(k) ==> #[trigger] self.methods().contains_key(k),
                forall|j: int|
                    0 <= j < records@.len() ==> (#[trigger] records@[j] matches SampleRecord::Method(
                        m,
                    ) ==> m.hits_count == 1 && !c0.contains_key(m.method_id as u64) && method_lookup(
                        jvmenv.tool(),
                        m.method_id as u64,
                    ) == Ok::<Seq<char>, NativeError>(m.full_name@)),
            decreases stacks.len() - i,
        {
            let ghost pre = stacks.take(i as int);
            let ghost pre1 = stacks.take(i + 1);
            assert(pre1.drop_last() =~= pre);
            assert(pre1.last() == stacks[i as int]);
            proof {
                lemma_frame_total_prefix(stacks, (i + 1) as int);
            }
            let ghost cm = self.methods();
            let st = &stack_traces[i];
            let thread_info = &st.thread;
            let tid = thread_info.thread_id;
            let ghost m1 = self.threads();
            let ghost before = record_of(m1, tid);
            let ghost map_before = self.threads_map@;
            let previous = self.threads_map.remove(&tid);
            let is_new = previous.is_none();
            let mut thread_data = match previous {
                Some(t) => t,
                None => {
                    let mut thd = ThreadData::new(tid, thread_info.name.clone());
                    thd.priority = thread_info.priority;
                    thd.daemon = thread_info.is_daemon;
                    thd.cpu_time = st.cpu_time;
                    thd
                },
            };
            proof {
                if !is_new {
                    assert(before == Some(sample_view(thread_data)));
                } else {
                    assert(before is None);
                    assert(sample_view(thread_data) == fresh_thread(*st));
                }
            }
            let stack_len = st.frame_buffer.len();
            let mut top_stack_frame: i64 = 0;
            let mut skip = false;
            if !is_new {
                if thread_data.cpu_time == st.cpu_time {
                    if stack_len > 0 {
                        top_stack_frame = #[verifier::truncate] (st.frame_buffer[0].method as i64);
                        if thread_data.last_stack_frame == top_stack_frame && thread_data.last_stack_len
                            == stack_len {
                            skip = true;
                        }
                    } else {
                        skip = true;
                    }
                }
            }
            assert(skip == stack_skipped(before, *st));
            assert(top_stack_frame == kept_top_frame(before, *st));
            if skip {
                self.threads_map.insert(tid, thread_data);
                assert(self.threads_map@ =~= map_before);
                assert(self.threads() =~= m1);
                assert(threads_sent(m0, pre1, now_time) == threads_sent(m0, pre, now_time));
            } else {
                thread_data.cpu_time = st.cpu_time;
                thread_data.sample_time = now_time;
                thread_data.last_stack_frame = top_stack_frame;
                thread_data.last_stack_len = stack_len;
                let mut record = copy_thread_data(&thread_data);
                let ghost t_view = sample_view(thread_data);
                assert(t_view == touched(before, *st, now_time));
                self.threads_map.insert(tid, thread_data);
                assert(self.threads() =~= m1.insert(tid, t_view));
                assert(self.methods() == cm);
                let frames = &st.frame_buffer;
                let ghost base_stack = record.stacktrace@;
                let ghost rem0 = frame_total(stacks) - frame_total(pre);
                let mut j: usize = 0;
                while j < frames.len()
                    invariant
                        j <= frames@.len(),
                        frames@.len() == stack_len,
                        i < stacks.len(),
                        stacks == stack_traces@,
                        frames@ == stacks[i as int].frame_buffer@,
                        c0 == old(self).methods(),
                        self.wf(),
                        self.on() == old(self).on(),
                        self.started() == old(self).started(),
                        self.interval() == old(self).interval(),
                        self.threads() == m1.insert(tid, t_view),
                        rem0 - frames@.len() >= 0,
                        self.hits_fit(rem0 - j),
                        record.stacktrace@ == base_stack + frame_ids(frames@.take(j as int)),
                        base_stack == t_view.stacktrace,
                        sample_view(record) == (ThreadSampleView {
                            stacktrace: record.stacktrace@,
                            ..t_view
                        }),
                        thread_records(records@) == threads_sent(m0, pre, now_time),
                        forall|k: JavaMethod| c0.contains_key(k) ==> #[trigger] self.methods().contains_key(k),
                        forall|q: int|
                            0 <= q < records@.len() ==> (#[trigger] records@[q] matches SampleRecord::Method(
                                m,
                            ) ==> m.hits_count == 1 && !c0.contains_key(m.method_id as u64) && method_lookup(
                                jvmenv.tool(),
                                m.method_id as u64,
                            ) == Ok::<Seq<char>, NativeError>(m.full_name@)),
                    decreases frames@.len() - j,
                {
                    let ghost c1 = self.methods();
                    let method_info = self.get_method_info(jvmenv, frames[j].method);
                    let m = match method_info {
                        Ok(m) => m,
                        Err(e) => {
                            proof {
                                assert(!c0.contains_key(frames@[j as int].method));
                                assert(stacks[i as int].frame_buffer@[j as int].method == frames@[j as int].method);
                                assert(method_lookup(jvmenv.tool(), stacks[i as int].frame_buffer@[j as int].method)
                                    == Err::<Seq<char>, NativeError>(e));
                            }
                            return Err(e);
                        },
                    };
                    proof {
                        assert forall|k: JavaMethod| #[trigger] self.methods().contains_key(k) implies self.methods()[k].hits_count + (rem0 - (j + 1)) < u32::MAX by {
                            if k != frames@[j as int].method {
                                assert(c1.contains_key(k));
                            }
                        }
                        lemma_id_round_trip(frames@[j as int].method);
                        if m.hits_count == 1 && c0.contains_key(m.method_id as u64) {
                            assert(c1.contains_key(frames@[j as int].method));
                        }
                    }
                    let ghost records_before = records@;
                    if m.hits_count == 1 {
                        let first_seen = MethodData {
                            method_id: m.method_id,
                            full_name: m.full_name.clone(),
                            hits_count: m.hits_count,
                        };
                        records.push(SampleRecord::Method(first_seen));
                        assert(records@.drop_last() =~= records_before);
                    }
                    assert(thread_records(records@) == thread_records(records_before));
                    record.stacktrace.push(m.method_id);
                    j = j + 1;
                    assert(frames@.take(j as int).drop_last() =~= frames@.take(j - 1));
                    assert(record.stacktrace@ =~= base_stack + frame_ids(frames@.take(j as int)));
                }
                assert(frames@.take(frames@.len() as int) =~= frames@);
                let ghost records_before = records@;
                let ghost rv = sample_view(record);
                assert(rv == ThreadSampleView { stacktrace: t_view.stacktrace + frame_ids(st.frame_buffer@), ..t_view });
                records.push(SampleRecord::Thread(record));
                assert(records@.drop_last() =~= records_before);
                assert(thread_records(records@) == thread_records(records_before).push(rv));
                assert(threads_sent(m0, pre1, now_time) == threads_sent(m0, pre, now_time).push(rv));
            }
            i = i + 1;
        }
        assert(stacks.take(stacks.len() as int) =~= stacks);
        Ok(records)
    }
}

/// A method handle read as a signed id and back is the handle.
proof fn lemma_id_round_trip(x: u64)
    ensures
        ((x as i64) as u64) == x,
{
    assert(((x as i64) as u64) == x) by (bit_vector);
}

/// The frames of a prefix of stacks are no more than those of all, and
/// one more stack adds its frames.
proof fn lemma_frame_total_prefix(stacks: Seq<JavaStackTrace>, n: int)
    requires
        0 <= n <= stacks.len(),
    ensures
        n > 0 ==> frame_total(stacks.take(n)) == frame_total(stacks.take(n - 1))
            + stacks[n - 1].frame_buffer@.len(),
        0 <= frame_total(stacks.take(n)) <= frame_total(stacks),
    decreases stacks.len(),
{
    if n > 0 {
        assert(stacks.take(n).drop_last() =~= stacks.take(n - 1));
    }
    if n < stacks.len() {
        assert(stacks.drop_last().take(n) =~= stacks.take(n));
        lemma_frame_total_prefix(stacks.drop_last(), n);
    } else {
        assert(stacks.take(n) =~= stacks);
        if n > 0 {
            lemma_frame_total_prefix(stacks.drop_last(), n - 1);
            assert(stacks.drop_last().take(n - 1) =~= stacks.take(n - 1));
        }
    }
}

/// The full name of a method: its class's name, a dot, its name and `()`.
pub fn method_full_name(class: &ClassSignature, method_sig: &MethodSignature) -> (r: String)
    ensures
        r@ == class.name@ + "."@ + method_sig.name@ + "()"@,
{
    let mut out = class.name.clone();
    string_push(&mut out, '.');
    let name = crate::text::chars_of(method_sig.name.as_str());
    let ghost start = out@;
    let mut i: usize = 0;
    while i < name.len()
        invariant
            i <= name@.len(),
            out@ == start + name@.take(i as int),
        decreases name@.len() - i,
    {
        string_push(&mut out, name[i]);
        i = i + 1;
        assert(out@ =~= start + name@.take(i as int));
    }
    assert(name@.take(name@.len() as int) =~= name@);
    string_push(&mut out, '(');
    string_push(&mut out, ')');
    proof {
        reveal_strlit(".");
        reveal_strlit("()");
    }
    assert(out@ =~= class.name@ + "."@ + method_sig.name@ + "()"@);
    out
}

/// A request that the sample server passes to the sampler.
#[derive(Clone, Copy, PartialEq, Eq, Debug, Structural)]
pub enum SamplerRequest {
    /// Send when sampling started and how often it samples.
    GetSampleInfo,
    /// Send a `method` message for each method seen.
    GetMethodCache,
    /// A command the sampler does not know; it is passed over.
    Unknown,
}

/// Whether `v` is the `method` message of one of the methods of `m`.
pub open spec fn is_cached_method_message(m: Map<JavaMethod, MethodData>, v: RespValue) -> bool {
    exists|k: JavaMethod| #[trigger] m.contains_key(k) && is_method_message(v, m[k])
}

/// The request a command names.
pub open spec fn request_named(cmd: Seq<char>) -> SamplerRequest {
    if cmd == "get_sample_info"@ {
        SamplerRequest::GetSampleInfo
    } else if cmd == "get_method_cache"@ {
        SamplerRequest::GetMethodCache
    } else {
        SamplerRequest::Unknown
    }
}

/// The request in a message: the command named by the first item of an
/// array when that item is a simple string; nothing for any other message.
pub open spec fn request_in(message: RespValue) -> Option<SamplerRequest> {
    match message {
        RespValue::Array(items) => match items@[0] {
            RespValue::String(cmd) => Some(request_named(cmd@)),
            _ => None,
        },
        _ => None,
    }
}

impl Sampler {
    /// The request in a message from the sample server; a message that is
    /// not an array whose first item is a simple string is passed over.
    pub fn handle_request(&self, message: &RespValue) -> (r: Option<SamplerRequest>)
        requires
            message matches RespValue::Array(items) ==> items@.len() >= 1,
        ensures
            r == request_in(*message),
    {
        match message {
            RespValue::Array(items) => match &items[0] {
                RespValue::String(cmd) => {
                    let options = parse_request_options(items);
                    Some(self.dispatch_request(cmd, &options))
                },
                _ => None,
            },
            _ => None,
        }
    }

    /// The request a command names.
    fn dispatch_request(&self, cmd: &String, options: &Vec<(String, RespValue)>) -> (r: SamplerRequest)
        ensures
            r == request_named(cmd@),
    {
        if str_chars_eq(cmd.as_str(), "get_sample_info") {
            SamplerRequest::GetSampleInfo
        } else if str_chars_eq(cmd.as_str(), "get_method_cache") {
            SamplerRequest::GetMethodCache
        } else {
            SamplerRequest::Unknown
        }
    }

    /// The `method` messages of the methods seen, one for each, in the order
    /// the cache is walked (which the contract leaves open).
    pub fn method_cache_messages(&self) -> (r: Vec<RespValue>)
        ensures
            r@.len() == self.methods().dom().len(),
            forall|i: int| 0 <= i < r@.len() ==> is_cached_method_message(self.methods(), #[trigger] r@[i]),
            forall|k: JavaMethod|
                #[trigger] self.methods().contains_key(k) ==> exists|i: int|
                    0 <= i < r@.len() && is_method_message(r@[i], self.methods()[k]),
    {
        let mut out: Vec<RespValue> = Vec::new();
        let walk = self.method_cache.values();
        let ghost all = into_iter_values(walk);
        proof {
            assert(walk.remaining().unref() == all);
        }
        for method_info in it: walk
            invariant
                it.seq().unref() == all,
                all.to_set() == self.method_cache@.values(),
                all.len() == self.method_cache@.dom().len(),
                out@.len() == it.index(),
                it.index() <= all.len(),
                forall|j: int| 0 <= j < it.index() ==> is_method_message(#[trigger] out@[j], all[j]),
        {
            let ghost j = it.index();
            assert(*method_info == all[j]);
            out.push(resp_encode_method_data(method_info));
        }
        proof {
            lemma_messages_cover(self.method_cache@, all, out@);
        }
        out
    }
}

/// Messages made one for each value of a walk over a map's values name
/// each method of the map, and only those.
proof fn lemma_messages_cover(m: Map<JavaMethod, MethodData>, all: Seq<MethodData>, out: Seq<RespValue>)
    requires
        all.to_set() == m.values(),
        out.len() == all.len(),
        forall|j: int| 0 <= j < all.len() ==> is_method_message(#[trigger] out[j], all[j]),
    ensures
        forall|i: int| 0 <= i < out.len() ==> is_cached_method_message(m, #[trigger] out[i]),
        forall|k: JavaMethod|
            #[trigger] m.contains_key(k) ==> exists|i: int| 0 <= i < out.len() && is_method_message(out[i], m[k]),
{
    assert forall|i: int| 0 <= i < out.len() implies is_cached_method_message(m, #[trigger] out[i]) by {
        assert(is_method_message(out[i], all[i]));
        assert(all.to_set().contains(all[i]));
        assert(m.values().contains(all[i]));
        let k = choose|k: JavaMethod| m.contains_key(k) && m[k] == all[i];
        assert(m.contains_key(k) && is_method_message(out[i], m[k]));
    }
    assert forall|k: JavaMethod| #[trigger] m.contains_key(k) implies exists|i: int|
        0 <= i < out.len() && is_method_message(out[i], m[k]) by {
        assert(m.values().contains(m[k]));
        assert(all.to_set().contains(m[k]));
        let i = choose|i: int| 0 <= i < all.len() && all[i] == m[k];
        assert(is_method_message(out[i], all[i]));
    }
}

} // verus!
