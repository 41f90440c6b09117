//! What the collector computes from the thread samples it stored: the time
//! each sample stands for, the CPU time spread over samples, the collapsed
//! stacks of a flame graph and the ordinal (time-ordered) call tree.
use super::sample::{StatsType, ThreadData};
use super::tree::TreeNode;
use crate::arith::{div_trunc_i64, tdiv};
use crate::text::{chars_of, i64_to_decimal, int_to_decimal, string_from_chars};
use vstd::prelude::*;

verus! {

/// What a sample list records per sample, for the computations below.
pub struct SampleView {
    pub sample_time: i64,
    pub cpu_time: i64,
    pub duration: i64,
    pub self_duration: i64,
    pub self_cpu_time: i64,
    pub stacktrace: Seq<i64>,
}

/// The recorded amounts of a sample.
pub open spec fn sample_view(t: ThreadData) -> SampleView {
    SampleView {
        sample_time: t.sample_time,
        cpu_time: t.cpu_time,
        duration: t.duration,
        self_duration: t.self_duration,
        self_cpu_time: t.self_cpu_time,
        stacktrace: t.stacktrace@,
    }
}

/// Whether two samples are the same but for their self duration.
pub open spec fn same_but_self_duration(a: ThreadData, b: ThreadData) -> bool {
    &&& a.id == b.id
    &&& a.name@ == b.name@
    &&& a.sample_time == b.sample_time
    &&& a.cpu_time == b.cpu_time
    &&& a.duration == b.duration
    &&& a.self_cpu_time == b.self_cpu_time
    &&& a.stacktrace@ == b.stacktrace@
}

/// The sample time of the sample before `k` that sets the self duration of
/// sample `k`: the last earlier sample time, when it is not zero.
pub open spec fn previous_time(v: Seq<ThreadData>, k: int) -> i64 {
    if k <= 0 {
        0
    } else {
        v[k - 1].sample_time
    }
}

/// Whether `after` is `before` with the self duration of each sample set to
/// the time since the sample before it (the first sample, and one after a
/// sample at time zero, keep theirs).
pub open spec fn self_durations_set(before: Seq<ThreadData>, after: Seq<ThreadData>) -> bool {
    &&& after.len() == before.len()
    &&& forall|k: int|
        0 <= k < before.len() ==> {
            &&& same_but_self_duration(#[trigger] after[k], before[k])
            &&& after[k].self_duration == if previous_time(before, k) != 0 {
                before[k].sample_time - previous_time(before, k)
            } else {
                before[k].self_duration as int
            }
        }
}

/// Whether each sample's time since the sample before it fits in `i64`.
pub open spec fn time_gaps_fit(v: Seq<ThreadData>) -> bool {
    forall|k: int|
        0 < k < v.len() ==> i64::MIN <= #[trigger] v[k].sample_time - v[k - 1].sample_time <= i64::MAX
}

/// Sets the self duration of each sample, in order, to the time since the
/// sample before it, as the samples of a range are read back.
pub fn set_self_durations(thread_data_vec: &mut Vec<ThreadData>)
    requires
        time_gaps_fit(old(thread_data_vec)@),
    ensures
        self_durations_set(old(thread_data_vec)@, final(thread_data_vec)@),
{
    let ghost before = thread_data_vec@;
    let mut last_sample_time: i64 = 0;
    let mut k: usize = 0;
    while k < thread_data_vec.len()
        invariant
            k <= before.len(),
            thread_data_vec@.len() == before.len(),
            time_gaps_fit(before),
            last_sample_time == previous_time(before, k as int),
            forall|j: int| k <= j < before.len() ==> #[trigger] thread_data_vec@[j] == before[j],
            forall|j: int|
                0 <= j < k ==> {
                    &&& same_but_self_duration(#[trigger] thread_data_vec@[j], before[j])
                    &&& thread_data_vec@[j].self_duration == if previous_time(before, j) != 0 {
                        before[j].sample_time - previous_time(before, j)
                    } else {
                        before[j].self_duration as int
                    }
                },
        decreases before.len() - k,
    {
        let sample_time = thread_data_vec[k].sample_time;
        if last_sample_time != 0 {
            let d = sample_time - last_sample_time;
            thread_data_vec[k].self_duration = d;
        }
        last_sample_time = sample_time;
        k = k + 1;
    }
}

/// The CPU time the `k`-th of `n` samples (from 1) gets when the CPU time
/// between `last_cpu_time` and `curr_cpu_time` is spread evenly over them.
pub open spec fn cpu_share(last_cpu_time: i64, curr_cpu_time: i64, n: int, k: int) -> int {
    last_cpu_time + k * tdiv(curr_cpu_time - last_cpu_time, n)
}

/// Whether the samples `start..end` can take their share of the CPU time
/// between `last_cpu_time` and `curr_cpu_time` within `i64`.
pub open spec fn cpu_shares_fit(last_cpu_time: i64, curr_cpu_time: i64, n: int) -> bool {
    &&& 0 < n <= i64::MAX
    &&& i64::MIN <= curr_cpu_time - last_cpu_time <= i64::MAX
    &&& forall|k: int|
        1 <= k <= n ==> i64::MIN <= #[trigger] cpu_share(last_cpu_time, curr_cpu_time, n, k)
            <= i64::MAX
}

/// Spreads the CPU time used between `last_cpu_time` and `curr_cpu_time`
/// evenly over the samples `start..end`: the `k`-th of them (from 1) gets
/// `last_cpu_time` plus `k` shares, the share rounded toward zero.
pub fn divide_cpu_time(
    thread_data_vec: &mut Vec<ThreadData>,
    start: usize,
    end: usize,
    last_cpu_time: i64,
    curr_cpu_time: i64,
)
    requires
        start < end <= old(thread_data_vec)@.len(),
        cpu_shares_fit(last_cpu_time, curr_cpu_time, end - start),
    ensures
        final(thread_data_vec)@.len() == old(thread_data_vec)@.len(),
        forall|k: int|
            0 <= k < old(thread_data_vec)@.len() ==> {
                let a = #[trigger] final(thread_data_vec)@[k];
                let b = old(thread_data_vec)@[k];
                if start <= k < end {
                    a.cpu_time == cpu_share(last_cpu_time, curr_cpu_time, end - start, k - start + 1)
                        && a == (ThreadData { cpu_time: a.cpu_time, ..b })
                } else {
                    a == b
                }
            },
{
    let len = end - start;
    assert(len <= i64::MAX);
    let cpu_time_per_trace = div_trunc_i64(curr_cpu_time - last_cpu_time, len as i64);
    let mut thread_cpu_time = last_cpu_time;
    let mut k: usize = start;
    let ghost before = thread_data_vec@;
    while k < end
        invariant
            start <= k <= end <= before.len(),
            len == end - start,
            thread_data_vec@.len() == before.len(),
            cpu_shares_fit(last_cpu_time, curr_cpu_time, len as int),
            cpu_time_per_trace == tdiv(curr_cpu_time - last_cpu_time, len as int),
            thread_cpu_time == last_cpu_time + (k - start) * cpu_time_per_trace,
            forall|j: int|
                0 <= j < before.len() && !(start <= j < k) ==> #[trigger] thread_data_vec@[j]
                    == before[j],
            forall|j: int|
                start <= j < k ==> {
                    let a = #[trigger] thread_data_vec@[j];
                    a.cpu_time == cpu_share(last_cpu_time, curr_cpu_time, len as int, j - start + 1)
                        && a == (ThreadData { cpu_time: a.cpu_time, ..before[j] })
                },
        decreases end - k,
    {
        let ghost kk: int = k - start + 1;
        assert(1 <= kk <= len);
        assert(i64::MIN <= cpu_share(last_cpu_time, curr_cpu_time, len as int, kk) <= i64::MAX);
        assert(cpu_share(last_cpu_time, curr_cpu_time, len as int, kk) == last_cpu_time + kk
            * cpu_time_per_trace);
        assert(last_cpu_time + kk * cpu_time_per_trace == thread_cpu_time + cpu_time_per_trace)
            by (nonlinear_arith)
            requires
                thread_cpu_time == last_cpu_time + (k - start) * cpu_time_per_trace,
                kk == k - start + 1,
        ;
        thread_cpu_time = thread_cpu_time + cpu_time_per_trace;
        thread_data_vec[k].cpu_time = thread_cpu_time;
        k = k + 1;
    }
}

/// The full name recorded for a method (the last one recorded), if any.
pub open spec fn method_name(names: Seq<(i64, String)>, method: i64) -> Option<Seq<char>>
    decreases names.len(),
{
    if names.len() == 0 {
        None
    } else if names.last().0 == method {
        Some(names.last().1@)
    } else {
        method_name(names.drop_last(), method)
    }
}

/// The full name recorded for a method (the last one recorded), if any.
pub fn find_method_name<'a>(names: &'a Vec<(i64, String)>, method: i64) -> (r: Option<&'a String>)
    ensures
        match method_name(names@, method) {
            Some(n) => r matches Some(s) && s@ == n,
            None => r is None,
        },
{
    let mut i = names.len();
    assert(names@.take(i as int) =~= names@);
    while i > 0
        invariant
            i <= names@.len(),
            method_name(names@, method) == method_name(names@.take(i as int), method),
        decreases i,
    {
        assert(names@.take(i as int).drop_last() =~= names@.take(i - 1));
        if names[i - 1].0 == method {
            return Some(&names[i - 1].1);
        }
        i = i - 1;
    }
    None
}

/// A collapsed stack extended by one more (inner) frame: its name after a
/// `;` (no `;` before the first name), or `;` and its id when it has no
/// name.
pub open spec fn collapse_step(names: Seq<(i64, String)>, acc: Seq<char>, method: i64) -> Seq<char> {
    match method_name(names, method) {
        Some(n) => if acc.len() > 0 {
            acc + seq![';'] + n
        } else {
            acc + n
        },
        None => acc + seq![';'] + int_to_decimal(method as int),
    }
}

/// The collapsed form of a stack given outermost frame first.
pub open spec fn collapse(names: Seq<(i64, String)>, frames: Seq<i64>) -> Seq<char>
    decreases frames.len(),
{
    if frames.len() == 0 {
        Seq::empty()
    } else {
        collapse_step(names, collapse(names, frames.drop_last()), frames.last())
    }
}

/// The weight of a sample for a weighing.
pub open spec fn stats_value(t: ThreadData, stats_type: StatsType) -> i64 {
    match stats_type {
        StatsType::DURATION => t.self_duration,
        StatsType::CPU_TIME => t.self_cpu_time,
        StatsType::SAMPLES => 1,
    }
}

/// The flame-graph line of a sample: its stack collapsed outermost frame
/// first, a space, and its weight.
pub open spec fn collapsed_line(t: ThreadData, names: Seq<(i64, String)>, stats_type: StatsType) -> Seq<
    char,
> {
    collapse(names, t.stacktrace@.reverse()) + seq![' '] + int_to_decimal(
        stats_value(t, stats_type) as int,
    )
}

/// Appends the characters of `more` to `out`.
fn push_chars(out: &mut Vec<char>, more: &Vec<char>)
    ensures
        final(out)@ == old(out)@ + more@,
{
    let ghost start = out@;
    let mut i: usize = 0;
    while i < more.len()
        invariant
            i <= more@.len(),
            out@ == start + more@.take(i as int),
        decreases more@.len() - i,
    {
        out.push(more[i]);
        i = i + 1;
        assert(out@ =~= start + more@.take(i as int));
    }
    assert(more@.take(more@.len() as int) =~= more@);
}

/// The flame-graph line of one sample.
fn collapsed_stack_of(t: &ThreadData, method_names: &Vec<(i64, String)>, stats_type: StatsType) -> (r:
    String)
    ensures
        r@ == collapsed_line(*t, method_names@, stats_type),
{
    let frames = &t.stacktrace;
    let ghost rev = frames@.reverse();
    let mut out: Vec<char> = Vec::new();
    let mut i: usize = frames.len();
    assert(rev.take(0) =~= Seq::<i64>::empty());
    while i > 0
        invariant
            i <= frames@.len(),
            rev == frames@.reverse(),
            out@ == collapse(method_names@, rev.take(frames@.len() - i)),
        decreases i,
    {
        let method = frames[i - 1];
        let ghost n = frames@.len() - i;
        assert(rev.take(n + 1).drop_last() =~= rev.take(n));
        assert(rev[n] == method);
        match find_method_name(method_names, method) {
            Some(name) => {
                if out.len() > 0 {
                    out.push(';');
                }
                let cs = chars_of(name.as_str());
                push_chars(&mut out, &cs);
            },
            None => {
                out.push(';');
                let cs = i64_to_decimal(method);
                push_chars(&mut out, &cs);
            },
        }
        i = i - 1;
        assert(out@ =~= collapse(method_names@, rev.take(frames@.len() - i)));
    }
    assert(rev.take(frames@.len() as int) =~= rev);
    let stats = match stats_type {
        StatsType::DURATION => t.self_duration,
        StatsType::CPU_TIME => t.self_cpu_time,
        StatsType::SAMPLES => 1,
    };
    out.push(' ');
    let digits = i64_to_decimal(stats);
    push_chars(&mut out, &digits);
    string_from_chars(out.as_slice())
}

/// The flame-graph lines of the samples, in order: each stack collapsed
/// outermost frame first, then a space and the sample's weight.
pub fn get_collapsed_call_stacks(
    thread_data_vec: &Vec<ThreadData>,
    method_names: &Vec<(i64, String)>,
    stats_type: StatsType,
) -> (r: Vec<String>)
    ensures
        r@.len() == thread_data_vec@.len(),
        forall|i: int|
            0 <= i < r@.len() ==> #[trigger] r@[i]@ == collapsed_line(
                thread_data_vec@[i],
                method_names@,
                stats_type,
            ),
{
    let mut collapsed_stacks: Vec<String> = Vec::new();
    let mut i: usize = 0;
    while i < thread_data_vec.len()
        invariant
            i <= thread_data_vec@.len(),
            collapsed_stacks@.len() == i,
            forall|j: int|
                0 <= j < i ==> #[trigger] collapsed_stacks@[j]@ == collapsed_line(
                    thread_data_vec@[j],
                    method_names@,
                    stats_type,
                ),
        decreases thread_data_vec@.len() - i,
    {
        let line = collapsed_stack_of(&thread_data_vec[i], method_names, stats_type);
        collapsed_stacks.push(line);
        i = i + 1;
    }
    collapsed_stacks
}

} // verus!
