//! The collector's table of threads: each thread's latest sample, as the
//! agent reports it in a `thread` message, and the dashboard listing of the
//! threads sampled since the data directory was last rolled.
use super::sample::{DashboardInfo, MethodInfo, SampleInfo, ThreadData};
use crate::agent::encoder::is_thread_message as is_agent_thread_message;
use crate::agent::sample::ThreadData as AgentThreadData;
use crate::client::client_encoder::is_thread_message as is_client_thread_message;
use crate::client::client_utils::{
    first_key, get_resp_property, get_resp_property_as_int, get_resp_property_as_str, int_from,
    int_search_ok, key_from, names_key, str_from, str_search_ok,
};
use crate::client::sampler_client::ThreadData as ClientThreadData;
use crate::arith::tdiv;
use crate::protocol::{is_int, RespValue};
use crate::text::{chars_of, i64_to_string, int_to_decimal, str_from_utf8, string_push};
use vstd::utf8::{decode_utf8, valid_utf8};
use std::collections::HashMap;
use vstd::prelude::*;
use vstd::std_specs::hash::{into_iter_values, spec_values_iter};
use vstd::std_specs::iter::IteratorSpec;

verus! {

broadcast use vstd::std_specs::hash::group_hash_axioms;

/// What a `thread` message reports of one sample of a thread.
pub struct ThreadSample {
    pub sample_time: i64,
    pub thread_id: i64,
    pub cpu_time: i64,
    pub cpu_time_delta: i64,
    pub name: String,
    pub state: String,
    pub stacktrace: Vec<i64>,
}

/// The integer property `key` of a message (its properties follow the
/// command), zero when it has none.
pub open spec fn int_prop(data: Seq<RespValue>, key: Seq<char>) -> i64 {
    int_from(data, 1, key, 0)
}

/// The string property `key` of a message, empty when it has none.
pub open spec fn str_prop(data: Seq<RespValue>, key: Seq<char>) -> Seq<char> {
    match str_from(data, 1, key) {
        Some(s) => s,
        None => Seq::empty(),
    }
}

/// The integers among the items, in order.
pub open spec fn integers_of(items: Seq<RespValue>) -> Seq<i64>
    decreases items.len(),
{
    if items.len() == 0 {
        Seq::empty()
    } else {
        match items.last() {
            RespValue::Integer(i) => integers_of(items.drop_last()).push(i),
            _ => integers_of(items.drop_last()),
        }
    }
}

/// The frames of a message's `stacktrace` property: the integers of its
/// array, none when it is not an array.
pub open spec fn frames_prop(data: Seq<RespValue>) -> Seq<i64> {
    match first_key(data, 1, "stacktrace"@) {
        Some(x) => match data[x + 1] {
            RespValue::Array(items) => integers_of(items@),
            _ => Seq::empty(),
        },
        None => Seq::empty(),
    }
}

/// Whether reading the properties of a `thread` message never reads past
/// its end: no property name is its last item.
pub open spec fn thread_message_ok(data: Seq<RespValue>) -> bool {
    &&& int_search_ok(data, 1, "time"@)
    &&& int_search_ok(data, 1, "id"@)
    &&& int_search_ok(data, 1, "cpu_time"@)
    &&& int_search_ok(data, 1, "cpu_time_delta"@)
    &&& str_search_ok(data, 1, "name"@)
    &&& str_search_ok(data, 1, "state"@)
    &&& first_key(data, 1, "stacktrace"@) matches Some(x) ==> x + 1 < data.len()
}

/// The integers among the items, in order.
fn integers_in(items: &Vec<RespValue>) -> (r: Vec<i64>)
    ensures
        r@ == integers_of(items@),
{
    let mut frames: Vec<i64> = Vec::new();
    let mut i: usize = 0;
    while i < items.len()
        invariant
            i <= items@.len(),
            frames@ == integers_of(items@.take(i as int)),
        decreases items@.len() - i,
    {
        assert(items@.take(i + 1).drop_last() =~= items@.take(i as int));
        if let RespValue::Integer(method_id) = &items[i] {
            frames.push(*method_id);
        }
        i = i + 1;
    }
    assert(items@.take(items@.len() as int) =~= items@);
    frames
}

/// Whether the search for the property `key` (of the kind `want_int`
/// tells) from position 1 never reads past the end of the message.
fn property_search_ok(data_vec: &Vec<RespValue>, key: &str, want_int: bool) -> (r: bool)
    ensures
        want_int ==> r == int_search_ok(data_vec@, 1, key@),
        !want_int ==> r == str_search_ok(data_vec@, 1, key@),
{
    let n = data_vec.len();
    let mut x: usize = 1;
    while x < n
        invariant
            n == data_vec@.len(),
            x >= 1,
            want_int ==> int_search_ok(data_vec@, 1, key@) == int_search_ok(data_vec@, x as int, key@),
            !want_int ==> str_search_ok(data_vec@, 1, key@) == str_search_ok(data_vec@, x as int, key@),
        decreases n - x,
    {
        if names_key(&data_vec[x], key) {
            if x + 1 >= n {
                return false;
            }
            let found = match &data_vec[x + 1] {
                RespValue::Integer(_) => want_int,
                RespValue::String(_) => !want_int,
                _ => false,
            };
            if found {
                return true;
            }
        }
        if n - x <= 2 {
            return true;
        }
        x = x + 2;
    }
    true
}

/// Whether a `thread` message can be read without reading past its end.
pub fn thread_message_readable(data_vec: &Vec<RespValue>) -> (r: bool)
    ensures
        r == thread_message_ok(data_vec@),
{
    let ok = property_search_ok(data_vec, "time", true) && property_search_ok(data_vec, "id", true)
        && property_search_ok(data_vec, "cpu_time", true) && property_search_ok(
        data_vec,
        "cpu_time_delta",
        true,
    ) && property_search_ok(data_vec, "name", false) && property_search_ok(data_vec, "state", false);
    if !ok {
        return false;
    }
    let n = data_vec.len();
    let mut x: usize = 1;
    while x < n
        invariant
            n == data_vec@.len(),
            x >= 1,
            first_key(data_vec@, 1, "stacktrace"@) == key_from(data_vec@, x as int, "stacktrace"@),
            int_search_ok(data_vec@, 1, "time"@),
            int_search_ok(data_vec@, 1, "id"@),
            int_search_ok(data_vec@, 1, "cpu_time"@),
            int_search_ok(data_vec@, 1, "cpu_time_delta"@),
            str_search_ok(data_vec@, 1, "name"@),
            str_search_ok(data_vec@, 1, "state"@),
        decreases n - x,
    {
        if names_key(&data_vec[x], "stacktrace") {
            return x + 1 < n;
        }
        if n - x <= 2 {
            return true;
        }
        x = x + 2;
    }
    true
}

/// Reads a `thread` message: its sample time (`time`), thread id, CPU time
/// and CPU time since the last sample, name, state (zero or empty when
/// missing) and the integer frames of its stack.
pub fn parse_thread_sample(data_vec: &Vec<RespValue>) -> (r: ThreadSample)
    requires
        thread_message_ok(data_vec@),
    ensures
        r.sample_time == int_prop(data_vec@, "time"@),
        r.thread_id == int_prop(data_vec@, "id"@),
        r.cpu_time == int_prop(data_vec@, "cpu_time"@),
        r.cpu_time_delta == int_prop(data_vec@, "cpu_time_delta"@),
        r.name@ == str_prop(data_vec@, "name"@),
        r.state@ == str_prop(data_vec@, "state"@),
        r.stacktrace@ == frames_prop(data_vec@),
{
    proof {
        reveal_strlit("");
    }
    let sample_time = get_resp_property_as_int(data_vec, "time", 1, 0);
    let thread_id = get_resp_property_as_int(data_vec, "id", 1, 0);
    let cpu_time = get_resp_property_as_int(data_vec, "cpu_time", 1, 0);
    let cpu_time_delta = get_resp_property_as_int(data_vec, "cpu_time_delta", 1, 0);
    let name = get_resp_property_as_str(data_vec, "name", 1, "");
    let state = get_resp_property_as_str(data_vec, "state", 1, "");
    let stacktrace = match get_resp_property(data_vec, "stacktrace", 1) {
        Some(RespValue::Array(items)) => integers_in(items),
        _ => Vec::new(),
    };
    ThreadSample {
        sample_time,
        thread_id,
        cpu_time,
        cpu_time_delta,
        name: name.to_owned(),
        state: state.to_owned(),
        stacktrace,
    }
}

/// A thread record as plain values.
pub struct ThreadView {
    pub id: i64,
    pub name: Seq<char>,
    pub priority: u32,
    pub daemon: bool,
    pub state: Seq<char>,
    pub cpu_time: i64,
    pub cpu_time_delta: i64,
    pub sample_time: i64,
    pub sample_count: i64,
    pub stacktrace: Seq<i64>,
    pub duration: i64,
    pub self_duration: i64,
    pub self_cpu_time: i64,
}

/// A thread record as plain values.
pub open spec fn thread_view(t: ThreadData) -> ThreadView {
    ThreadView {
        id: t.id,
        name: t.name@,
        priority: t.priority,
        daemon: t.daemon,
        state: t.state@,
        cpu_time: t.cpu_time,
        cpu_time_delta: t.cpu_time_delta,
        sample_time: t.sample_time,
        sample_count: t.sample_count,
        stacktrace: t.stacktrace@,
        duration: t.duration,
        self_duration: t.self_duration,
        self_cpu_time: t.self_cpu_time,
    }
}

/// A copy of a thread record.
pub fn copy_thread(t: &ThreadData) -> (r: ThreadData)
    ensures
        thread_view(r) == thread_view(*t),
{
    let stacktrace = t.stacktrace.clone();
    assert(stacktrace@ =~= t.stacktrace@);
    ThreadData {
        id: t.id,
        name: t.name.clone(),
        priority: t.priority,
        daemon: t.daemon,
        state: t.state.clone(),
        cpu_time: t.cpu_time,
        cpu_time_delta: t.cpu_time_delta,
        sample_time: t.sample_time,
        sample_count: t.sample_count,
        stacktrace,
        duration: t.duration,
        self_duration: t.self_duration,
        self_cpu_time: t.self_cpu_time,
    }
}

/// The record of a thread after a sample: the sample's time, CPU times,
/// state, name and stack, and one more sample counted; a thread not seen
/// before starts with no sample counted, priority zero, not a daemon.
pub open spec fn recorded(before: Option<ThreadView>, s: ThreadSample) -> ThreadView {
    let base = match before {
        Some(t) => t,
        None => ThreadView {
            id: s.thread_id,
            name: s.name@,
            priority: 0,
            daemon: false,
            state: s.state@,
            cpu_time: s.cpu_time,
            cpu_time_delta: s.cpu_time_delta,
            sample_time: s.sample_time,
            sample_count: 0,
            stacktrace: Seq::empty(),
            duration: 0,
            self_duration: 0,
            self_cpu_time: 0,
        },
    };
    ThreadView {
        sample_time: s.sample_time,
        sample_count: (base.sample_count + 1) as i64,
        cpu_time: s.cpu_time,
        cpu_time_delta: s.cpu_time_delta,
        state: s.state@,
        name: s.name@,
        stacktrace: s.stacktrace@,
        ..base
    }
}

/// The record kept for a thread in the table, if any, as plain values.
pub open spec fn kept(threads: Map<i64, ThreadData>, id: i64) -> Option<ThreadView> {
    if threads.contains_key(id) {
        Some(thread_view(threads[id]))
    } else {
        None
    }
}

/// Records a sample in the table of threads; answers a copy of the
/// thread's record and whether the thread is new.
pub fn record_thread_sample(threads: &mut HashMap<i64, ThreadData>, sample: &ThreadSample) -> (r: (
    ThreadData,
    bool,
))
    requires
        old(threads)@.contains_key(sample.thread_id) ==> old(threads)@[sample.thread_id].sample_count
            < i64::MAX,
    ensures
        final(threads)@.dom() == old(threads)@.dom().insert(sample.thread_id),
        forall|k: i64|
            k != sample.thread_id && old(threads)@.contains_key(k) ==> #[trigger] final(threads)@[k]
                == old(threads)@[k],
        thread_view(final(threads)@[sample.thread_id]) == recorded(
            kept(old(threads)@, sample.thread_id),
            *sample,
        ),
        thread_view(r.0) == thread_view(final(threads)@[sample.thread_id]),
        r.1 == !old(threads)@.contains_key(sample.thread_id),
{
    let thread_id = sample.thread_id;
    let previous = threads.remove(&thread_id);
    let is_new = previous.is_none();
    let base = match previous {
        Some(t) => t,
        None => ThreadData {
            id: thread_id,
            name: sample.name.clone(),
            priority: 0,
            daemon: false,
            state: sample.state.clone(),
            cpu_time: sample.cpu_time,
            cpu_time_delta: sample.cpu_time_delta,
            sample_time: sample.sample_time,
            sample_count: 0,
            stacktrace: Vec::new(),
            duration: 0,
            self_duration: 0,
            self_cpu_time: 0,
        },
    };
    let stacktrace = sample.stacktrace.clone();
    assert(stacktrace@ =~= sample.stacktrace@);
    let thread_data = ThreadData {
        sample_time: sample.sample_time,
        sample_count: base.sample_count + 1,
        cpu_time: sample.cpu_time,
        cpu_time_delta: sample.cpu_time_delta,
        state: sample.state.clone(),
        name: sample.name.clone(),
        stacktrace,
        ..base
    };
    let copy = copy_thread(&thread_data);
    threads.insert(thread_id, thread_data);
    (copy, is_new)
}

/// The value a sample adds to the thread's CPU time series: the CPU time
/// since the last sample in microseconds (from nanoseconds, rounded toward
/// zero), cut to 32 bits.
pub fn cpu_series_value(cpu_time_delta: i64) -> (r: i32)
    ensures
        r == #[verifier::truncate] (tdiv(cpu_time_delta as int, 1000) as i32),
{
    #[verifier::truncate]
    ((cpu_time_delta / 1000) as i32)
}

/// Whether the records are in increasing order of thread id.
pub open spec fn sorted_by_id(v: Seq<ThreadData>) -> bool {
    forall|i: int, j: int| 0 <= i < j < v.len() ==> v[i].id <= v[j].id
}

/// Whether a thread was sampled since the data directory was last rolled.
pub open spec fn sampled(t: ThreadData) -> bool {
    t.sample_count > 0
}

/// The records of the table, in the order the table is walked.
pub open spec fn table_walk(threads: &HashMap<i64, ThreadData>) -> Seq<ThreadData> {
    into_iter_values(spec_values_iter(threads))
}

/// The dashboard: the session, and a copy of the record of each thread
/// sampled since the data directory was last rolled, in increasing order of
/// thread id.
pub fn get_dashboard(threads: &HashMap<i64, ThreadData>, sample_info: SampleInfo) -> (r:
    DashboardInfo)
    ensures
        r.sample_info == sample_info,
        sorted_by_id(r.threads@),
        r.threads@.map_values(|t: ThreadData| thread_view(t)).to_multiset() == table_walk(
            threads,
        ).filter(|t: ThreadData| sampled(t)).map_values(|t: ThreadData| thread_view(t)).to_multiset(),
        table_walk(threads).to_set() == threads@.values(),
        table_walk(threads).len() == threads@.dom().len(),
{
    let walk = threads.values();
    proof {
        assert(walk.remaining().unref() == into_iter_values(walk));
    }
    let ghost order = table_walk(threads);
    let mut listed: Vec<ThreadData> = Vec::new();
    assert(order.take(0).filter(|t: ThreadData| sampled(t)) =~= Seq::<ThreadData>::empty()) by {
        reveal_with_fuel(Seq::<ThreadData>::filter, 1);
    }
    assert(listed@.map_values(|t: ThreadData| thread_view(t)) =~= order.take(0).filter(
        |t: ThreadData| sampled(t),
    ).map_values(|t: ThreadData| thread_view(t)));
    for thread in it: walk
        invariant
            it.seq().unref() == order,
            order == table_walk(threads),
            sorted_by_id(listed@),
            listed@.map_values(|t: ThreadData| thread_view(t)).to_multiset() == order.take(
                it.index(),
            ).filter(|t: ThreadData| sampled(t)).map_values(|t: ThreadData| thread_view(t)).to_multiset(),
    {
        let ghost j = it.index();
        assert(thread == it.seq()[j]);
        assert(*thread == order[j]);
        let ghost before = listed@;
        assert(order.take(j + 1) =~= order.take(j).push(order[j]));
        assert(order.take(j + 1).filter(|t: ThreadData| sampled(t)) =~= if sampled(order[j]) {
            order.take(j).filter(|t: ThreadData| sampled(t)).push(order[j])
        } else {
            order.take(j).filter(|t: ThreadData| sampled(t))
        }) by {
            reveal_with_fuel(Seq::<ThreadData>::filter, 1);
            assert(order.take(j + 1).drop_last() =~= order.take(j));
        }
        if thread.sample_count > 0 {
            let copy = copy_thread(thread);
            let mut p: usize = 0;
            while p < listed.len() && listed[p].id <= copy.id
                invariant
                    p <= listed@.len(),
                    listed@ == before,
                    forall|q: int| 0 <= q < p ==> #[trigger] listed@[q].id <= copy.id,
                decreases listed@.len() - p,
            {
                p = p + 1;
            }
            listed.insert(p, copy);
            proof {
                let f = |t: ThreadData| thread_view(t);
                assert(listed@ == before.insert(p as int, copy));
                assert(listed@.map_values(f) =~= before.map_values(f).insert(p as int, f(copy)));
                let mv = before.map_values(f);
                assert(mv.insert(p as int, f(copy)).remove(p as int) =~= mv);
                mv.insert(p as int, f(copy)).to_multiset_ensures();
                mv.to_multiset_ensures();
                assert(mv.insert(p as int, f(copy)).to_multiset() =~= mv.to_multiset().insert(
                    f(copy),
                ));
                let g = order.take(j).filter(|t: ThreadData| sampled(t));
                assert(g.push(order[j]).map_values(f) =~= g.map_values(f).push(f(order[j])));
                g.map_values(f).to_multiset_ensures();
                assert(forall|a: int, b: int|
                    0 <= a < b < listed@.len() ==> listed@[a].id <= listed@[b].id) by {
                    before.insert_ensures(p as int, copy);
                }
            }
        }
    }
    assert(order.take(order.len() as int) =~= order);
    DashboardInfo { sample_info, threads: listed }
}

/// Where the collector keeps its sample directories.
pub const FLARE_SAMPLES_DIR: &'static str = "flare-samples";

/// Whether the samples of `sample_time` go to a new data directory: none
/// was started yet, or the current one was started more than `period`
/// milliseconds before.
pub fn should_roll_data_dir(record_start_time: i64, sample_time: i64, period: i64) -> (r: bool)
    requires
        record_start_time != 0 ==> i64::MIN <= sample_time - record_start_time <= i64::MAX,
    ensures
        r == (record_start_time == 0 || sample_time - record_start_time > period),
{
    record_start_time == 0 || sample_time - record_start_time > period
}

/// The text with each `:` replaced by `_`.
pub open spec fn colons_replaced(s: Seq<char>) -> Seq<char> {
    s.map_values(|c: char| if c == ':' { '_' } else { c })
}

/// The data directory for samples of an agent from the given time (as
/// text): under the samples directory, the agent's address with `:` made
/// `_`, a dash and the time.
pub fn sample_data_dir_name(agent_addr: &str, now_time: &str) -> (r: String)
    ensures
        r@ == FLARE_SAMPLES_DIR@ + "/"@ + colons_replaced(agent_addr@) + "-"@ + now_time@,
{
    let mut out = String::new();
    let base = chars_of(FLARE_SAMPLES_DIR);
    let addr = chars_of(agent_addr);
    let time = chars_of(now_time);
    let mut i: usize = 0;
    while i < base.len()
        invariant
            i <= base@.len(),
            out@ == base@.take(i as int),
        decreases base@.len() - i,
    {
        string_push(&mut out, base[i]);
        i = i + 1;
        assert(out@ =~= base@.take(i as int));
    }
    assert(base@.take(base@.len() as int) =~= base@);
    string_push(&mut out, '/');
    let ghost head = out@;
    let mut j: usize = 0;
    while j < addr.len()
        invariant
            j <= addr@.len(),
            out@ == head + colons_replaced(addr@.take(j as int)),
        decreases addr@.len() - j,
    {
        let c = addr[j];
        if c == ':' {
            string_push(&mut out, '_');
        } else {
            string_push(&mut out, c);
        }
        j = j + 1;
        assert(out@ =~= head + colons_replaced(addr@.take(j as int)));
    }
    assert(addr@.take(addr@.len() as int) =~= addr@);
    string_push(&mut out, '-');
    let ghost mid = out@;
    let mut k: usize = 0;
    while k < time.len()
        invariant
            k <= time@.len(),
            out@ == mid + time@.take(k as int),
        decreases time@.len() - k,
    {
        string_push(&mut out, time[k]);
        k = k + 1;
        assert(out@ =~= mid + time@.take(k as int));
    }
    assert(time@.take(time@.len() as int) =~= time@);
    proof {
        reveal_strlit("/");
        reveal_strlit("-");
    }
    assert(out@ =~= FLARE_SAMPLES_DIR@ + "/"@ + colons_replaced(agent_addr@) + "-"@ + now_time@);
    out
}

/// Sets the sample count of every thread to zero, as a new data directory
/// starts.
pub fn reset_sample_counts(threads: &mut HashMap<i64, ThreadData>)
    ensures
        final(threads)@.dom() == old(threads)@.dom(),
        forall|k: i64|
            #[trigger] old(threads)@.contains_key(k) ==> thread_view(final(threads)@[k])
                == (ThreadView { sample_count: 0, ..thread_view(old(threads)@[k]) }),
{
    let ghost start = threads@;
    let keys = threads.keys();
    let ghost all = keys.remaining().unref();
    proof {
        assert forall|a: int, b: int| 0 <= a < b < all.len() implies all[a] != all[b] by {
            assert(keys.remaining()[a] != keys.remaining()[b]);
        }
    }
    let mut ids: Vec<i64> = Vec::new();
    for id in it: keys
        invariant
            it.seq().unref() == all,
            ids@ == all.take(it.index()),
    {
        ids.push(*id);
        assert(ids@ =~= all.take(it.index() + 1));
    }
    assert(ids@ =~= all);
    let mut i: usize = 0;
    while i < ids.len()
        invariant
            i <= ids@.len(),
            ids@ == all,
            all.to_set() == start.dom(),
            all.no_duplicates(),
            threads@.dom() == start.dom(),
            forall|k: i64|
                #[trigger] start.contains_key(k) ==> if all.take(i as int).contains(k) {
                    thread_view(threads@[k]) == (ThreadView { sample_count: 0, ..thread_view(start[k]) })
                } else {
                    threads@[k] == start[k]
                },
        decreases ids@.len() - i,
    {
        let id = ids[i];
        assert(all.to_set().contains(id));
        let entry = threads.remove(&id);
        match entry {
            Some(t) => {
                let mut t = t;
                t.sample_count = 0;
                threads.insert(id, t);
            },
            None => {},
        }
        proof {
            assert forall|k: i64| #[trigger] start.contains_key(k) implies if all.take(i + 1).contains(k) {
                thread_view(threads@[k]) == ThreadView { sample_count: 0, ..thread_view(start[k]) }
            } else {
                threads@[k] == start[k]
            } by {
                if k == id {
                    assert(all.take(i + 1)[i as int] == k);
                    assert(all.take(i + 1).contains(k));
                    assert(!all.take(i as int).contains(k)) by {
                        if all.take(i as int).contains(k) {
                            let q = choose|q: int| 0 <= q < i && #[trigger] all[q] == k;
                            assert(all[q] == all[i as int]);
                        }
                    }
                } else {
                    assert(all.take(i + 1).contains(k) == all.take(i as int).contains(k)) by {
                        if all.take(i + 1).contains(k) {
                            let q = choose|q: int| 0 <= q < i + 1 && #[trigger] all.take(i + 1)[q] == k;
                            assert(all.take(i as int)[q] == k);
                        }
                        if all.take(i as int).contains(k) {
                            let q = choose|q: int| 0 <= q < i && #[trigger] all.take(i as int)[q] == k;
                            assert(all.take(i + 1)[q] == k);
                        }
                    }
                }
            }
            assert(threads@.dom() =~= start.dom());
        }
        i = i + 1;
    }
    proof {
        assert forall|k: i64| #[trigger] start.contains_key(k) implies all.take(
            all.len() as int,
        ).contains(k) by {
            assert(all.to_set().contains(k));
            assert(all.take(all.len() as int) =~= all);
        }
    }
}

/// Whether the summary is due to be saved: the session is not read-only
/// and the last save was at least a second before `now`.
pub fn summary_save_due(readonly: bool, now: i64, last_save_time: i64) -> (r: bool)
    requires
        i64::MIN <= now - last_save_time <= i64::MAX,
    ensures
        r == (!readonly && now - last_save_time >= 1000),
{
    !readonly && !(now - last_save_time < 1000)
}

/// The table of threads of a loaded summary: each record under its id (a
/// later record for the same id replaces an earlier one).
pub fn load_threads(threads: &Vec<ThreadData>) -> (r: HashMap<i64, ThreadData>)
    ensures
        forall|id: i64|
            #[trigger] r@.contains_key(id) <==> exists|i: int| 0 <= i < threads@.len() && threads@[i].id == id,
        forall|i: int|
            0 <= i < threads@.len() && (forall|j: int| i < j < threads@.len() ==> threads@[j].id != threads@[i].id)
                ==> thread_view(r@[#[trigger] threads@[i].id]) == thread_view(threads@[i]),
{
    let mut table: HashMap<i64, ThreadData> = HashMap::new();
    let mut i: usize = 0;
    while i < threads.len()
        invariant
            i <= threads@.len(),
            forall|id: i64|
                #[trigger] table@.contains_key(id) <==> exists|q: int| 0 <= q < i && threads@[q].id == id,
            forall|q: int|
                0 <= q < i && (forall|j: int| q < j < i ==> threads@[j].id != threads@[q].id)
                    ==> thread_view(table@[#[trigger] threads@[q].id]) == thread_view(threads@[q]),
        decreases threads@.len() - i,
    {
        let copy = copy_thread(&threads[i]);
        let id = threads[i].id;
        table.insert(id, copy);
        proof {
            assert forall|x: i64| #[trigger] table@.contains_key(x) <==> exists|q: int| 0 <= q < i + 1 && threads@[q].id == x by {
                if x == id {
                    assert(threads@[i as int].id == x);
                }
            }
        }
        i = i + 1;
    }
    table
}

/// The records as plain values.
pub open spec fn thread_views(s: Seq<ThreadData>) -> Seq<ThreadView> {
    Seq::new(s.len(), |i: int| thread_view(s[i]))
}

/// The records of the table, in the order the table is walked, to save in
/// the summary.
pub fn summary_threads(threads: &HashMap<i64, ThreadData>) -> (r: Vec<ThreadData>)
    ensures
        thread_views(r@) == thread_views(table_walk(threads)),
        table_walk(threads).to_set() == threads@.values(),
        table_walk(threads).len() == threads@.dom().len(),
{
    let walk = threads.values();
    proof {
        assert(walk.remaining().unref() == into_iter_values(walk));
    }
    let ghost order = table_walk(threads);
    let mut out: Vec<ThreadData> = Vec::new();
    for thread in it: walk
        invariant
            it.seq().unref() == order,
            order == table_walk(threads),
            out@.len() == it.index(),
            it.index() <= order.len(),
            thread_views(out@) == thread_views(order.take(it.index())),
    {
        let ghost j = it.index();
        assert(thread == it.seq()[j]);
        assert(*thread == order[j]);
        let ghost before = out@;
        let copy = copy_thread(thread);
        out.push(copy);
        assert forall|q: int| 0 <= q < j + 1 implies thread_view(out@[q]) == thread_view(
            order.take(j + 1)[q],
        ) by {
            if q < j {
                assert(thread_views(before)[q] == thread_views(order.take(j))[q]);
            }
        }
        assert(thread_views(out@) =~= thread_views(order.take(j + 1)));
    }
    assert(order.take(order.len() as int) =~= order);
    out
}

/// The integers of items that are all integers are those integers.
proof fn lemma_integers_of_ints(items: Seq<RespValue>, ints: Seq<i64>)
    requires
        items.len() == ints.len(),
        forall|k: int| 0 <= k < ints.len() ==> is_int(#[trigger] items[k], ints[k]),
    ensures
        integers_of(items) == ints,
    decreases items.len(),
{
    if items.len() > 0 {
        lemma_integers_of_ints(items.drop_last(), ints.drop_last());
        assert(is_int(items[items.len() - 1], ints[ints.len() - 1]));
        assert(ints.drop_last().push(ints.last()) =~= ints);
    }
}

/// The property names of a thread message are all different.
proof fn lemma_keys_differ()
    ensures
        "time"@ != "id"@,
        "time"@ != "name"@,
        "time"@ != "cpu_time"@,
        "time"@ != "cpu_time_delta"@,
        "time"@ != "state"@,
        "time"@ != "stacktrace"@,
        "id"@ != "name"@,
        "id"@ != "cpu_time"@,
        "id"@ != "cpu_time_delta"@,
        "id"@ != "state"@,
        "id"@ != "stacktrace"@,
        "name"@ != "cpu_time"@,
        "name"@ != "cpu_time_delta"@,
        "name"@ != "state"@,
        "name"@ != "stacktrace"@,
        "cpu_time"@ != "cpu_time_delta"@,
        "cpu_time"@ != "state"@,
        "cpu_time"@ != "stacktrace"@,
        "cpu_time_delta"@ != "state"@,
        "cpu_time_delta"@ != "stacktrace"@,
        "state"@ != "stacktrace"@,
{
    reveal_strlit("time");
    reveal_strlit("id");
    reveal_strlit("name");
    reveal_strlit("cpu_time");
    reveal_strlit("cpu_time_delta");
    reveal_strlit("state");
    reveal_strlit("stacktrace");
    assert("time"@.len() == 4 && "id"@.len() == 2 && "name"@.len() == 4 && "cpu_time"@.len() == 8);
    assert("cpu_time_delta"@.len() == 14 && "state"@.len() == 5 && "stacktrace"@.len() == 10);
    assert("time"@[0] != "name"@[0]);
}

/// What the collector reads from the `thread` message the agent sends for
/// a sample is the sample: its time, thread id, CPU time, name, state and
/// stack; the agent sends no CPU time since the last sample, which reads as
/// zero.
pub proof fn lemma_agent_message_read_back(v: RespValue, t: AgentThreadData)
    requires
        is_agent_thread_message(v, t),
    ensures
        v matches RespValue::Array(items) && {
            let data = items@;
            &&& thread_message_ok(data)
            &&& int_prop(data, "time"@) == t.sample_time
            &&& int_prop(data, "id"@) == t.id
            &&& int_prop(data, "cpu_time"@) == t.cpu_time
            &&& int_prop(data, "cpu_time_delta"@) == 0
            &&& str_prop(data, "name"@) == t.name@
            &&& str_prop(data, "state"@) == t.state@
            &&& frames_prop(data) == t.stacktrace@
        },
{
    lemma_keys_differ();
    let items = v->Array_0;
    let data = items@;
    reveal_with_fuel(int_from, 8);
    reveal_with_fuel(int_search_ok, 8);
    reveal_with_fuel(str_from, 8);
    reveal_with_fuel(str_search_ok, 8);
    reveal_with_fuel(key_from, 8);
    let frames = data[12]->Array_0;
    lemma_integers_of_ints(frames@, t.stacktrace@);
}

/// What the collector reads from the `thread` message the client forwards
/// for a sample is the sample: its time, thread id, CPU time, CPU time
/// since the last sample, name, state and stack.
pub proof fn lemma_client_message_read_back(v: RespValue, t: ClientThreadData)
    requires
        is_client_thread_message(v, t),
    ensures
        v matches RespValue::Array(items) && {
            let data = items@;
            &&& thread_message_ok(data)
            &&& int_prop(data, "time"@) == t.sample_time
            &&& int_prop(data, "id"@) == t.id
            &&& int_prop(data, "cpu_time"@) == t.cpu_time
            &&& int_prop(data, "cpu_time_delta"@) == t.cpu_time_delta
            &&& str_prop(data, "name"@) == t.name@
            &&& str_prop(data, "state"@) == t.state@
            &&& frames_prop(data) == t.stacktrace@
        },
{
    lemma_keys_differ();
    let items = v->Array_0;
    let data = items@;
    reveal_with_fuel(int_from, 8);
    reveal_with_fuel(int_search_ok, 8);
    reveal_with_fuel(str_from, 8);
    reveal_with_fuel(str_search_ok, 8);
    reveal_with_fuel(key_from, 8);
    let frames = data[14]->Array_0;
    lemma_integers_of_ints(frames@, t.stacktrace@);
}

/// The name a method's stored bytes give: the text they hold (none when
/// they are not UTF-8), or the method's id when that is empty.
pub open spec fn stored_method_name(method: i64, stored: Seq<u8>) -> Seq<char> {
    if valid_utf8(stored) && decode_utf8(stored).len() > 0 {
        decode_utf8(stored)
    } else {
        int_to_decimal(method as int)
    }
}

/// The record of a method read back from the method file, with no hits
/// counted.
pub fn method_info_of(method: i64, stored: &[u8]) -> (r: MethodInfo)
    ensures
        r.method_id == method,
        r.full_name@ == stored_method_name(method, stored@),
        r.hits_count == 0,
{
    let mut method_name = match str_from_utf8(stored) {
        Some(s) => s.to_owned(),
        None => String::new(),
    };
    if method_name.as_str().is_empty() {
        method_name = i64_to_string(method);
    }
    MethodInfo { method_id: method, full_name: method_name, hits_count: 0 }
}

} // verus!
