//! What the client records of a sampled JVM: its threads and their
//! stacks, the methods seen, and the sampling session; how a thread sample
//! updates its table of threads, and its dashboard.
use crate::server::threads::ThreadSample;
use std::collections::HashMap;
use vstd::prelude::*;
use vstd::std_specs::hash::{into_iter_values, spec_values_iter};
use vstd::std_specs::iter::IteratorSpec;

verus! {

broadcast use vstd::std_specs::hash::group_hash_axioms;

/// One sample of a thread, as the client stores it.
#[derive(Clone)]
pub struct ThreadData {
    pub id: i64,
    pub name: String,
    pub priority: u32,
    pub daemon: bool,
    pub state: String,
    pub cpu_time: i64,
    pub cpu_time_delta: i64,
    pub sample_time: i64,
    pub stacktrace: Vec<i64>,
}

/// A method seen in the samples.
#[derive(Clone)]
pub struct MethodData {
    pub method_id: i64,
    pub full_name: String,
    pub hits_count: u32,
}

/// The sampling session and the latest sample of each thread.
pub struct DashboardInfo {
    sample_info: SampleInfo,
    threads: Vec<ThreadData>,
}

/// The sampling session: how often it samples, when sampling and recording
/// started, when the last sample was recorded, the agent and where the
/// samples are stored.
pub struct SampleInfo {
    pub sample_interval: i64,
    pub sample_start_time: i64,
    pub record_start_time: i64,
    pub last_record_time: i64,
    pub agent_addr: String,
    pub sample_data_dir: String,
}

/// What the client saves of a session: the session and its threads.
pub struct SummaryInfo {
    sample_info: SampleInfo,
    threads: Vec<ThreadData>,
}

/// A thread record as plain values.
pub struct ClientThreadView {
    pub id: i64,
    pub name: Seq<char>,
    pub priority: u32,
    pub daemon: bool,
    pub state: Seq<char>,
    pub cpu_time: i64,
    pub cpu_time_delta: i64,
    pub sample_time: i64,
    pub stacktrace: Seq<i64>,
}

/// A thread record as plain values.
pub open spec fn client_thread_view(t: ThreadData) -> ClientThreadView {
    ClientThreadView {
        id: t.id,
        name: t.name@,
        priority: t.priority,
        daemon: t.daemon,
        state: t.state@,
        cpu_time: t.cpu_time,
        cpu_time_delta: t.cpu_time_delta,
        sample_time: t.sample_time,
        stacktrace: t.stacktrace@,
    }
}

/// The records as plain values.
pub open spec fn client_thread_views(s: Seq<ThreadData>) -> Seq<ClientThreadView> {
    Seq::new(s.len(), |i: int| client_thread_view(s[i]))
}

/// A copy of a thread record.
pub fn copy_client_thread(t: &ThreadData) -> (r: ThreadData)
    ensures
        client_thread_view(r) == client_thread_view(*t),
{
    let stacktrace = t.stacktrace.clone();
    assert(stacktrace@ =~= t.stacktrace@);
    ThreadData {
        id: t.id,
        name: t.name.clone(),
        priority: t.priority,
        daemon: t.daemon,
        state: t.state.clone(),
        cpu_time: t.cpu_time,
        cpu_time_delta: t.cpu_time_delta,
        sample_time: t.sample_time,
        stacktrace,
    }
}

/// The record of a thread after a sample: the sample's time, CPU times,
/// state and name; a thread not seen before starts with priority zero, not
/// a daemon, and no stack. The stack is not kept here.
pub open spec fn client_recorded(before: Option<ClientThreadView>, s: ThreadSample) -> ClientThreadView {
    let base = match before {
        Some(t) => t,
        None => ClientThreadView {
            id: s.thread_id,
            name: s.name@,
            priority: 0,
            daemon: false,
            state: s.state@,
            cpu_time: s.cpu_time,
            cpu_time_delta: s.cpu_time_delta,
            sample_time: s.sample_time,
            stacktrace: Seq::empty(),
        },
    };
    ClientThreadView {
        sample_time: s.sample_time,
        cpu_time: s.cpu_time,
        cpu_time_delta: s.cpu_time_delta,
        state: s.state@,
        name: s.name@,
        ..base
    }
}

/// Records a sample in the client's table of threads; answers whether the
/// thread is new.
pub fn record_thread_sample(threads: &mut HashMap<i64, ThreadData>, sample: &ThreadSample) -> (r: bool)
    ensures
        final(threads)@.dom() == old(threads)@.dom().insert(sample.thread_id),
        forall|k: i64|
            k != sample.thread_id && old(threads)@.contains_key(k) ==> #[trigger] final(threads)@[k]
                == old(threads)@[k],
        client_thread_view(final(threads)@[sample.thread_id]) == client_recorded(
            if old(threads)@.contains_key(sample.thread_id) {
                Some(client_thread_view(old(threads)@[sample.thread_id]))
            } else {
                None
            },
            *sample,
        ),
        r == !old(threads)@.contains_key(sample.thread_id),
{
    let thread_id = sample.thread_id;
    let previous = threads.remove(&thread_id);
    let is_new = previous.is_none();
    let base = match previous {
        Some(t) => t,
        None => ThreadData {
            id: thread_id,
            name: sample.name.clone(),
            priority: 0,
            daemon: false,
            state: sample.state.clone(),
            cpu_time: sample.cpu_time,
            cpu_time_delta: sample.cpu_time_delta,
            sample_time: sample.sample_time,
            stacktrace: Vec::new(),
        },
    };
    let thread_data = ThreadData {
        sample_time: sample.sample_time,
        cpu_time: sample.cpu_time,
        cpu_time_delta: sample.cpu_time_delta,
        state: sample.state.clone(),
        name: sample.name.clone(),
        ..base
    };
    threads.insert(thread_id, thread_data);
    is_new
}

/// The records of a table, in the order the table is walked.
pub open spec fn client_table_walk(threads: &HashMap<i64, ThreadData>) -> Seq<ThreadData> {
    into_iter_values(spec_values_iter(threads))
}

impl DashboardInfo {
    /// The session shown.
    pub closed spec fn info(&self) -> SampleInfo {
        self.sample_info
    }

    /// The threads shown, in order.
    pub closed spec fn shown(&self) -> Seq<ThreadData> {
        self.threads@
    }
}

/// The dashboard: the session, and a copy of each thread's record, in the
/// order the table is walked.
pub fn get_dashboard(threads: &HashMap<i64, ThreadData>, sample_info: SampleInfo) -> (r: DashboardInfo)
    ensures
        r.info() == sample_info,
        client_thread_views(r.shown()) == client_thread_views(client_table_walk(threads)),
        client_table_walk(threads).to_set() == threads@.values(),
        client_table_walk(threads).len() == threads@.dom().len(),
{
    let walk = threads.values();
    proof {
        assert(walk.remaining().unref() == into_iter_values(walk));
    }
    let ghost order = client_table_walk(threads);
    let mut out: Vec<ThreadData> = Vec::new();
    for thread in it: walk
        invariant
            it.seq().unref() == order,
            order == client_table_walk(threads),
            out@.len() == it.index(),
            it.index() <= order.len(),
            client_thread_views(out@) == client_thread_views(order.take(it.index())),
    {
        let ghost j = it.index();
        assert(thread == it.seq()[j]);
        assert(*thread == order[j]);
        let ghost before = out@;
        let copy = copy_client_thread(thread);
        out.push(copy);
        assert forall|q: int| 0 <= q < j + 1 implies client_thread_view(out@[q]) == client_thread_view(
            order.take(j + 1)[q],
        ) by {
            if q < j {
                assert(client_thread_views(before)[q] == client_thread_views(order.take(j))[q]);
            }
        }
        assert(client_thread_views(out@) =~= client_thread_views(order.take(j + 1)));
    }
    assert(order.take(order.len() as int) =~= order);
    DashboardInfo { sample_info, threads: out }
}

} // verus!
