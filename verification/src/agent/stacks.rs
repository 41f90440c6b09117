//! Taking the stack traces of all threads of the JVM: each thread is
//! described once (kept by its Java id), its CPU time read when asked for
//! (and always for a thread seen for the first time), and its stack taken.
use super::environment::Environment;
use super::error::NativeError;
use super::jvm::{JavaStackFrame, JavaStackTrace, StackInfo, ThreadInfo, JNI, JVMTI};
use super::native::JavaInt;
use super::native::JavaLong;
use super::thread::ThreadId;
use std::collections::HashMap;
use vstd::prelude::*;

verus! {

broadcast use vstd::std_specs::hash::group_hash_axioms;

/// What is kept of a thread, as plain values.
pub struct ThreadInfoView {
    pub thread_id: JavaLong,
    pub name: Seq<char>,
    pub priority: u32,
    pub is_daemon: bool,
    pub cpu_time: i64,
}

/// What is kept of a thread, as plain values.
pub open spec fn info_view(t: ThreadInfo) -> ThreadInfoView {
    ThreadInfoView {
        thread_id: t.thread_id,
        name: t.name@,
        priority: t.priority,
        is_daemon: t.is_daemon,
        cpu_time: t.cpu_time,
    }
}

/// A copy of what is kept of a thread.
pub fn copy_thread_info(t: &ThreadInfo) -> (r: ThreadInfo)
    ensures
        info_view(r) == info_view(*t),
{
    ThreadInfo {
        thread_id: t.thread_id,
        name: t.name.clone(),
        priority: t.priority,
        is_daemon: t.is_daemon,
        cpu_time: t.cpu_time,
    }
}

/// What the JVM answered about one listed thread: its Java id, its
/// description, its CPU time and its stack. An answer that was not asked
/// for (a thread already described, a CPU time not to be read, the stack
/// of a thread passed over) holds any value and is not used.
pub struct ThreadAnswers {
    pub java_id: JavaLong,
    pub described: Result<ThreadInfo, NativeError>,
    pub cpu: Result<JavaLong, NativeError>,
    pub frames: Result<Vec<JavaStackFrame>, NativeError>,
}

/// The table of described threads, as plain values.
pub open spec fn infos_view(m: Map<JavaLong, ThreadInfo>) -> Map<JavaLong, ThreadInfoView> {
    m.map_values(|t: ThreadInfo| info_view(t))
}

/// What one thread's answers do to the table of described threads and which
/// trace they give: a thread not in the table that cannot be described is
/// passed over; otherwise its description (kept, or the new one) gets the
/// CPU time read when `update_cpu_time` asks for it or the thread is new
/// (the time known before when the read fails), is kept under its Java id,
/// and gives a trace with state 0, that CPU time and the stack read (empty
/// when the read fails).
pub open spec fn answer_step(m: Map<JavaLong, ThreadInfoView>, a: ThreadAnswers, update_cpu_time: bool) -> (
    Map<JavaLong, ThreadInfoView>,
    Option<TraceView>,
) {
    let is_new = !m.contains_key(a.java_id);
    if is_new && a.described is Err {
        (m, None)
    } else {
        let base = if is_new {
            info_view(a.described->Ok_0)
        } else {
            m[a.java_id]
        };
        let cpu = if update_cpu_time || is_new {
            match a.cpu {
                Ok(t) => t,
                Err(_) => base.cpu_time,
            }
        } else {
            base.cpu_time
        };
        let info = ThreadInfoView { cpu_time: cpu, ..base };
        let frames = match a.frames {
            Ok(v) => v@,
            Err(_) => Seq::empty(),
        };
        (m.insert(a.java_id, info), Some(TraceView { thread: info, state: 0, cpu_time: cpu, frames }))
    }
}

/// The table and the traces after the first `n` threads' answers, in
/// order.
pub open spec fn answers_applied(
    m: Map<JavaLong, ThreadInfoView>,
    answers: Seq<ThreadAnswers>,
    n: nat,
    update_cpu_time: bool,
) -> (Map<JavaLong, ThreadInfoView>, Seq<TraceView>)
    decreases n,
{
    if n == 0 {
        (m, Seq::empty())
    } else {
        let (m1, ts) = answers_applied(m, answers, (n - 1) as nat, update_cpu_time);
        let (m2, o) = answer_step(m1, answers[n - 1], update_cpu_time);
        (
            m2,
            match o {
                Some(t) => ts.push(t),
                None => ts,
            },
        )
    }
}

/// Applies one thread's answers to the table of described threads and
/// gives its trace, if any (see `answer_step`).
pub fn apply_answer(
    thread_info_map: &mut HashMap<JavaLong, ThreadInfo>,
    a: &ThreadAnswers,
    update_cpu_time: bool,
) -> (r: Option<JavaStackTrace>)
    ensures
        ({
            let (m, o) = answer_step(infos_view(old(thread_info_map)@), *a, update_cpu_time);
            &&& infos_view(final(thread_info_map)@) == m
            &&& match o {
                Some(t) => (r matches Some(x) && trace_view(x) == t),
                None => r is None,
            }
        }),
{
    let ghost m0 = thread_info_map@;
    let previous = thread_info_map.remove(&a.java_id);
    let is_new = previous.is_none();
    let mut thread_info = match previous {
        Some(t) => t,
        None => match &a.described {
            Ok(d) => copy_thread_info(d),
            Err(_) => {
                assert(thread_info_map@ =~= m0);
                return None;
            },
        },
    };
    let mut cpu_time = thread_info.cpu_time;
    if update_cpu_time || is_new {
        match a.cpu {
            Ok(t) => {
                cpu_time = t;
            },
            Err(_) => {},
        }
        thread_info.cpu_time = cpu_time;
    }
    let frames: Vec<JavaStackFrame> = match &a.frames {
        Ok(v) => copy_frames(v),
        Err(_) => Vec::new(),
    };
    let copy = copy_thread_info(&thread_info);
    thread_info_map.insert(a.java_id, thread_info);
    let trace = JavaStackTrace { thread: copy, state: 0, cpu_time, frame_buffer: frames };
    proof {
        let (m, o) = answer_step(infos_view(m0), *a, update_cpu_time);
        assert(infos_view(thread_info_map@) =~= m);
        assert(frames@ == match a.frames {
            Ok(v) => v@,
            Err(_) => Seq::<JavaStackFrame>::empty(),
        });
    }
    Some(trace)
}

/// The stack traces that the JVM's answers about the listed threads give,
/// in order, and the table of described threads after them (see
/// `answers_applied`).
pub fn build_stack_traces(
    answers: &Vec<ThreadAnswers>,
    thread_info_map: &mut HashMap<JavaLong, ThreadInfo>,
    update_cpu_time: bool,
) -> (r: Vec<JavaStackTrace>)
    ensures
        ({
            let (m, ts) = answers_applied(infos_view(old(thread_info_map)@), answers@, answers@.len() as nat, update_cpu_time);
            &&& infos_view(final(thread_info_map)@) == m
            &&& traces_view(r@) == ts
        }),
{
    let ghost m0 = infos_view(thread_info_map@);
    let mut traces: Vec<JavaStackTrace> = Vec::new();
    let mut i: usize = 0;
    assert(traces_view(traces@) =~= Seq::<TraceView>::empty());
    while i < answers.len()
        invariant
            i <= answers@.len(),
            m0 == infos_view(old(thread_info_map)@),
            answers_applied(m0, answers@, i as nat, update_cpu_time) == (infos_view(thread_info_map@), traces_view(traces@)),
        decreases answers@.len() - i,
    {
        let ghost before = traces@;
        match apply_answer(thread_info_map, &answers[i], update_cpu_time) {
            Some(t) => {
                traces.push(t);
                assert(traces_view(traces@) =~= traces_view(before).push(trace_view(traces@.last())));
            },
            None => {},
        }
        i = i + 1;
    }
    traces
}

/// What the JVM answers about a listed thread, from the reads the
/// environment makes for it: its Java id, its description, its CPU time and
/// its stack.
pub open spec fn thread_answers_of<T: JVMTI, N: JNI>(env: Environment<T, N>, t: ThreadId) -> ThreadAnswers {
    ThreadAnswers {
        java_id: env.java_id_of(t.native_id),
        described: env.described(t.native_id),
        cpu: env.tool().cpu_time_of(t.native_id),
        frames: env.tool().stack_of(t.native_id),
    }
}

/// The answers about each listed thread, in order.
pub open spec fn threads_answers<T: JVMTI, N: JNI>(env: Environment<T, N>, threads: Seq<ThreadId>) -> Seq<ThreadAnswers> {
    Seq::new(threads.len(), |i: int| thread_answers_of(env, threads[i]))
}

/// Two answers that agree on what a step reads give the same step.
proof fn lemma_step_reads(m: Map<JavaLong, ThreadInfoView>, a: ThreadAnswers, f: ThreadAnswers, update_cpu_time: bool)
    requires
        a.java_id == f.java_id,
        !m.contains_key(a.java_id) ==> a.described == f.described,
        (m.contains_key(a.java_id) || f.described is Ok) && (update_cpu_time || !m.contains_key(a.java_id)) ==> a.cpu
            == f.cpu,
        (m.contains_key(a.java_id) || f.described is Ok) ==> a.frames == f.frames,
    ensures
        answer_step(m, a, update_cpu_time) == answer_step(m, f, update_cpu_time),
{
}

/// The stack traces of all threads of the JVM, in the order the JVM lists
/// them: for each listed thread its Java id is read; a thread not yet in the
/// table is described (one that cannot be described is passed over); its
/// CPU time is read when `update_cpu_time` asks for it or it is new; its
/// stack is read; its reference is released. The traces and the table are
/// those of `build_stack_traces` over the JVM's answers about each listed
/// thread. Fails with the JVM's error, keeping the table, when the threads
/// cannot be listed.
pub fn get_stack_traces<T: JVMTI, N: JNI>(
    jvmenv: &mut Environment<T, N>,
    thread_info_map: &mut HashMap<JavaLong, ThreadInfo>,
    update_cpu_time: bool,
) -> (r: Result<Vec<JavaStackTrace>, NativeError>)
    ensures
        match old(jvmenv).tool().thread_list() {
            Err(e) => (r matches Err(x) && x == e) && final(thread_info_map)@ == old(thread_info_map)@,
            Ok(threads) => r matches Ok(stacks) && answers_applied(
                infos_view(old(thread_info_map)@),
                threads_answers(*old(jvmenv), threads@),
                threads@.len(),
                update_cpu_time,
            ) == (infos_view(final(thread_info_map)@), traces_view(stacks@)),
        },
        final(jvmenv).tool() == old(jvmenv).tool(),
        final(jvmenv).native() == old(jvmenv).native(),
        final(jvmenv).get_id_method() == old(jvmenv).get_id_method(),
{
    let threads = match jvmenv.get_all_threads() {
        Err(e) => return Err(e),
        Ok(threads) => threads,
    };
    let ghost env0 = *jvmenv;
    let ghost full = threads_answers(env0, threads@);
    let ghost m0 = infos_view(thread_info_map@);
    let mut stack_traces: Vec<JavaStackTrace> = Vec::new();
    let mut i: usize = 0;
    assert(traces_view(stack_traces@) =~= Seq::<TraceView>::empty());
    while i < threads.len()
        invariant
            i <= threads@.len(),
            env0 == *old(jvmenv),
            full == threads_answers(env0, threads@),
            m0 == infos_view(old(thread_info_map)@),
            answers_applied(m0, full, i as nat, update_cpu_time) == (
                infos_view(thread_info_map@),
                traces_view(stack_traces@),
            ),
            jvmenv.tool() == old(jvmenv).tool(),
            jvmenv.native() == old(jvmenv).native(),
            jvmenv.get_id_method() == old(jvmenv).get_id_method(),
        decreases threads@.len() - i,
    {
        let native_id = threads[i].native_id;
        let java_thread_id = jvmenv.get_thread_id(&native_id);
        let is_new_thread = !thread_info_map.contains_key(&java_thread_id);
        let described = if is_new_thread {
            jvmenv.get_thread_info_ex(&native_id)
        } else {
            Err(NativeError::NotAvailable)
        };
        let passed_over = described.is_err() && is_new_thread;
        let cpu = if !passed_over && (update_cpu_time || is_new_thread) {
            jvmenv.get_thread_cpu_time(&native_id)
        } else {
            Err(NativeError::NotAvailable)
        };
        let frames = if !passed_over {
            jvmenv.get_stack_trace(&native_id)
        } else {
            Err(NativeError::NotAvailable)
        };
        jvmenv.delete_local_ref(native_id);
        let answer = ThreadAnswers { java_id: java_thread_id, described, cpu, frames };
        let ghost before = stack_traces@;
        let ghost m1 = infos_view(thread_info_map@);
        proof {
            assert(full[i as int] == thread_answers_of(env0, threads@[i as int]));
            lemma_step_reads(m1, answer, full[i as int], update_cpu_time);
        }
        match apply_answer(thread_info_map, &answer, update_cpu_time) {
            Some(t) => {
                stack_traces.push(t);
                assert(traces_view(stack_traces@) =~= traces_view(before).push(trace_view(stack_traces@.last())));
            },
            None => {},
        }
        i = i + 1;
    }
    Ok(stack_traces)
}

/// What the JVM answered about one listed stack: its thread is idle (its
/// CPU time read as zero), or it is kept with the CPU time read (zero when
/// it could not be read) and the answer to describing the thread.
pub enum StackAnswer {
    Idle,
    Kept(i64, Result<ThreadInfo, NativeError>),
}

/// A stack trace as plain values.
pub struct TraceView {
    pub thread: ThreadInfoView,
    pub state: JavaInt,
    pub cpu_time: i64,
    pub frames: Seq<JavaStackFrame>,
}

/// A stack trace as plain values.
pub open spec fn trace_view(t: JavaStackTrace) -> TraceView {
    TraceView { thread: info_view(t.thread), state: t.state, cpu_time: t.cpu_time, frames: t.frame_buffer@ }
}

/// Stack traces as plain values.
pub open spec fn traces_view(ts: Seq<JavaStackTrace>) -> Seq<TraceView> {
    ts.map_values(|t: JavaStackTrace| trace_view(t))
}

/// The traces that the first `n` answers give for the listed stacks, in
/// order: an idle thread is passed over, a kept one gives its description,
/// the stack's state, the CPU time read and the stack's frames; the first
/// thread that cannot be described ends it with that error.
pub open spec fn answered(infos: Seq<StackInfo>, answers: Seq<StackAnswer>, n: nat) -> Result<
    Seq<TraceView>,
    NativeError,
>
    decreases n,
{
    if n == 0 {
        Ok(Seq::empty())
    } else {
        match answered(infos, answers, (n - 1) as nat) {
            Err(e) => Err(e),
            Ok(ts) => match answers[n - 1] {
                StackAnswer::Idle => Ok(ts),
                StackAnswer::Kept(cpu, Ok(t)) => Ok(
                    ts.push(
                        TraceView {
                            thread: info_view(t),
                            state: infos[n - 1].state,
                            cpu_time: cpu,
                            frames: infos[n - 1].frame_buffer@,
                        },
                    ),
                ),
                StackAnswer::Kept(_, Err(e)) => Err(e),
            },
        }
    }
}

/// Once the answers end in an error, later answers keep that error.
pub proof fn lemma_answered_err_stays(infos: Seq<StackInfo>, answers: Seq<StackAnswer>, n: nat, m: nat)
    requires
        n <= m,
        answered(infos, answers, n) is Err,
    ensures
        answered(infos, answers, m) == answered(infos, answers, n),
    decreases m - n,
{
    if n < m {
        lemma_answered_err_stays(infos, answers, n, (m - 1) as nat);
    }
}

/// The answer about one listed stack from the reads made for its thread:
/// idle exactly when its CPU time reads as zero; otherwise kept with the
/// CPU time read (zero when the read failed) and its description.
pub open spec fn stack_answer_of(cpu_read: Result<JavaLong, NativeError>, described: Result<ThreadInfo, NativeError>) -> StackAnswer {
    if cpu_read == Ok::<JavaLong, NativeError>(0) {
        StackAnswer::Idle
    } else {
        StackAnswer::Kept(
            match cpu_read {
                Ok(t) => t,
                Err(_) => 0,
            },
            described,
        )
    }
}

/// Whether a CPU-time read marks its thread idle: it read as zero.
pub fn is_idle(cpu_read: &Result<JavaLong, NativeError>) -> (r: bool)
    ensures
        r == (*cpu_read == Ok::<JavaLong, NativeError>(0)),
{
    match cpu_read {
        Ok(t) => *t == 0,
        Err(_) => false,
    }
}

/// The answer about one listed stack from the reads made for its thread
/// (see `stack_answer_of`).
pub fn stack_answer(cpu_read: Result<JavaLong, NativeError>, described: Result<ThreadInfo, NativeError>) -> (r: StackAnswer)
    ensures
        r == stack_answer_of(cpu_read, described),
{
    if is_idle(&cpu_read) {
        StackAnswer::Idle
    } else {
        let cpu_time: i64 = match cpu_read {
            Ok(t) => t,
            Err(_) => 0,
        };
        StackAnswer::Kept(cpu_time, described)
    }
}

/// Answers that agree on their first `n` entries give the same traces
/// there.
pub proof fn lemma_answered_prefix(infos: Seq<StackInfo>, a: Seq<StackAnswer>, b: Seq<StackAnswer>, n: nat)
    requires
        n <= a.len(),
        n <= b.len(),
        forall|k: int| 0 <= k < n ==> a[k] == b[k],
    ensures
        answered(infos, a, n) == answered(infos, b, n),
    decreases n,
{
    if n > 0 {
        lemma_answered_prefix(infos, a, b, (n - 1) as nat);
        assert(a[n - 1] == b[n - 1]);
    }
}

/// Whether `r` is what the answers give for the listed stacks.
pub open spec fn gives(infos: Seq<StackInfo>, answers: Seq<StackAnswer>, r: Result<Vec<JavaStackTrace>, NativeError>) -> bool {
    match answered(infos, answers, answers.len()) {
        Ok(v) => (r matches Ok(ts) && traces_view(ts@) == v),
        Err(e) => (r matches Err(x) && x == e),
    }
}

/// A copy of the frames.
pub fn copy_frames(frames: &Vec<JavaStackFrame>) -> (r: Vec<JavaStackFrame>)
    ensures
        r@ == frames@,
{
    let mut out: Vec<JavaStackFrame> = Vec::new();
    let mut i: usize = 0;
    while i < frames.len()
        invariant
            i <= frames@.len(),
            out@ == frames@.take(i as int),
        decreases frames@.len() - i,
    {
        out.push(JavaStackFrame { method: frames[i].method, location: frames[i].location });
        i = i + 1;
        assert(out@ =~= frames@.take(i as int));
    }
    assert(frames@.take(frames@.len() as int) =~= frames@);
    out
}

/// The stack traces that the JVM's answers give for the listed stacks (see
/// `answered`).
pub fn traces_from_answers(infos: &Vec<StackInfo>, answers: &Vec<StackAnswer>) -> (r: Result<
    Vec<JavaStackTrace>,
    NativeError,
>)
    requires
        answers@.len() <= infos@.len(),
    ensures
        gives(infos@, answers@, r),
{
    let mut traces: Vec<JavaStackTrace> = Vec::new();
    let mut i: usize = 0;
    assert(traces_view(traces@) =~= Seq::<TraceView>::empty());
    while i < answers.len()
        invariant
            i <= answers@.len(),
            answers@.len() <= infos@.len(),
            answered(infos@, answers@, i as nat) == Ok::<Seq<TraceView>, NativeError>(traces_view(traces@)),
        decreases answers@.len() - i,
    {
        let ghost before = traces@;
        match &answers[i] {
            StackAnswer::Idle => {},
            StackAnswer::Kept(cpu, Ok(t)) => {
                let info = &infos[i];
                let trace = JavaStackTrace {
                    thread: copy_thread_info(t),
                    state: info.state,
                    cpu_time: *cpu,
                    frame_buffer: copy_frames(&info.frame_buffer),
                };
                traces.push(trace);
                assert(traces_view(traces@) =~= traces_view(before).push(trace_view(traces@.last())));
            },
            StackAnswer::Kept(_, Err(e)) => {
                proof {
                    lemma_answered_err_stays(infos@, answers@, (i + 1) as nat, answers@.len() as nat);
                }
                return Err(*e);
            },
        }
        i = i + 1;
    }
    Ok(traces)
}

} // verus!
