//! What the profiler computes for its requests: the time range and the
//! aggregation unit of a CPU-time chart, the unit a flame graph counts in,
//! the frames of a flame graph drawn from a time-ordered call tree, and the
//! thread ids of a session.
use super::method_analysis::{call_added, MethodAnalysis, MethodCall};
use super::sample::{DashboardInfo, SampleInfo, StatsType};
use super::tree::TreeNode;
use crate::arith::{abs, div_trunc_i64, tdiv};
use crate::client::client_utils::new_invalid_input_error;
use crate::errors::{ErrorKind, IoError};
use crate::text::{chars_of, nat_to_decimal, push_decimal_digits, string_from_chars};
use vstd::prelude::*;

verus! {

/// The range of a CPU-time chart, clamped to what was recorded: a negative
/// bound stands for the first (or last) record.
pub open spec fn clamped_range(start_time: i64, end_time: i64, info: SampleInfo) -> (i64, i64) {
    (
        if start_time < 0 {
            info.record_start_time
        } else if start_time < info.record_start_time {
            info.record_start_time
        } else {
            start_time
        },
        if end_time < 0 {
            info.last_record_time
        } else if end_time > info.last_record_time {
            info.last_record_time
        } else {
            end_time
        },
    )
}

/// The aggregation unit of a chart of the given range that is to fit in
/// `graph_width` points: whole sample intervals, rounded down to a multiple
/// of ten intervals when there are more than ten per point.
pub open spec fn chart_unit(dt: int, graph_width: int, sample_interval: int) -> int {
    let ratio = tdiv(tdiv(dt, graph_width), sample_interval);
    let ratio = if ratio > 10 {
        tdiv(ratio, 10) * 10
    } else {
        ratio
    };
    ratio * sample_interval
}

/// The range and aggregation unit of a CPU-time chart: the range clamped to
/// what was recorded; a unit under 10 ms is replaced by one that fits the
/// range into `graph_width` points, which needs a non-empty range.
pub fn cpu_time_query(
    start_time: i64,
    end_time: i64,
    unit_time_ms: i64,
    graph_width: i64,
    sample_info: &SampleInfo,
) -> (r: Result<(i64, i64, i64), IoError>)
    requires
        unit_time_ms < 10 ==> graph_width != 0 && sample_info.sample_interval != 0,
        unit_time_ms < 10 ==> i64::MIN <= clamped_range(start_time, end_time, *sample_info).1
            - clamped_range(start_time, end_time, *sample_info).0 <= i64::MAX,
        unit_time_ms < 10 && clamped_range(start_time, end_time, *sample_info).1 > clamped_range(
            start_time,
            end_time,
            *sample_info,
        ).0 ==> i64::MIN <= chart_unit(
            clamped_range(start_time, end_time, *sample_info).1 - clamped_range(
                start_time,
                end_time,
                *sample_info,
            ).0,
            graph_width as int,
            sample_info.sample_interval as int,
        ) <= i64::MAX,
    ensures
        ({
            let (s, e) = clamped_range(start_time, end_time, *sample_info);
            if unit_time_ms >= 10 {
                r == Ok::<(i64, i64, i64), IoError>((s, e, unit_time_ms))
            } else if e - s <= 0 {
                r matches Err(err) && err.kind == ErrorKind::InvalidInput
                    && err.message@ == "time period error, end_time must be greater than start_time"@
            } else {
                r matches Ok(q) && q == (s, e, chart_unit(
                    e - s,
                    graph_width as int,
                    sample_info.sample_interval as int,
                ) as i64)
            }
        }),
{
    let mut start_time = start_time;
    let mut end_time = end_time;
    let mut unit_time_ms = unit_time_ms;
    if start_time < 0 {
        start_time = sample_info.record_start_time;
    } else if start_time < sample_info.record_start_time {
        start_time = sample_info.record_start_time;
    }
    if end_time < 0 {
        end_time = sample_info.last_record_time;
    } else if end_time > sample_info.last_record_time {
        end_time = sample_info.last_record_time;
    }
    if unit_time_ms < 10 {
        let dt = end_time - start_time;
        if dt <= 0 {
            return Err(
                new_invalid_input_error(
                    "time period error, end_time must be greater than start_time",
                ),
            );
        }
        let per_point = div_trunc_i64(dt, graph_width);
        proof {
            lemma_tdiv_shrinks(dt as int, graph_width as int);
        }
        let mut ratio = div_trunc_i64(per_point, sample_info.sample_interval);
        if ratio > 10 {
            let tens = div_trunc_i64(ratio, 10);
            assert(tens * 10 <= ratio) by (nonlinear_arith)
                requires
                    tens == ratio as int / 10,
                    ratio > 10,
            ;
            ratio = tens * 10;
        }
        unit_time_ms = ratio * sample_info.sample_interval;
    }
    Ok((start_time, end_time, unit_time_ms))
}

/// Division rounding toward zero makes nothing larger.
proof fn lemma_tdiv_shrinks(a: int, b: int)
    requires
        b != 0,
    ensures
        abs(tdiv(a, b)) <= abs(a),
{
    assert(abs(a) / abs(b) <= abs(a)) by (nonlinear_arith)
        requires
            abs(b) >= 1,
            abs(a) >= 0,
    ;
}

/// The unit a flame graph of a weighing counts in.
pub fn count_name(stats_type: StatsType) -> (r: &'static str)
    ensures
        r@ == match stats_type {
            StatsType::DURATION => "ms"@,
            StatsType::CPU_TIME => "micros"@,
            StatsType::SAMPLES => "samples"@,
        },
{
    match stats_type {
        StatsType::DURATION => "ms",
        StatsType::CPU_TIME => "micros",
        StatsType::SAMPLES => "samples",
    }
}

/// One frame of a flame graph: a call's label and depth, and when it
/// started and ended.
pub struct FlameFrame {
    pub label: String,
    pub depth: usize,
    pub start_time: usize,
    pub end_time: usize,
}

/// A frame as plain values.
pub struct FrameView {
    pub label: Seq<char>,
    pub depth: usize,
    pub start_time: usize,
    pub end_time: usize,
}

/// A frame as plain values.
pub open spec fn frame_view(f: FlameFrame) -> FrameView {
    FrameView { label: f.label@, depth: f.depth, start_time: f.start_time, end_time: f.end_time }
}

/// The frame of a call: its label and depth, its start and its start plus
/// its duration (each read as an unsigned count, as a cast does).
pub open spec fn node_frame(n: TreeNode) -> FrameView {
    FrameView {
        label: n.label@,
        depth: n.depth as usize,
        start_time: n.start_time as usize,
        end_time: (n.start_time + n.duration) as usize,
    }
}

/// The frames of a call and its callees, each call before its callees and
/// the callees in order.
pub open spec fn tree_frames(n: TreeNode) -> Seq<FrameView>
    decreases n, 1int, 0int,
{
    seq![node_frame(n)] + children_frames(n, n.children@.len() as int)
}

/// The frames of the first `k` callees of a call and of their callees.
pub open spec fn children_frames(n: TreeNode, k: int) -> Seq<FrameView>
    decreases n, 0int, k,
{
    if k <= 0 || k > n.children@.len() {
        Seq::empty()
    } else {
        proof {
            vstd::std_specs::vec::axiom_vec_index_decreases(n.children, k - 1);
        }
        children_frames(n, k - 1) + tree_frames(*n.children@[k - 1])
    }
}

/// Whether every call's start plus duration fits in `i64`.
pub open spec fn ends_fit(n: TreeNode) -> bool
    decreases n, 1int, 0int,
{
    &&& i64::MIN <= n.start_time + n.duration <= i64::MAX
    &&& children_end_fit(n, n.children@.len() as int)
}

/// Whether the ends of the first `k` callees of a call, and of theirs, fit.
pub open spec fn children_end_fit(n: TreeNode, k: int) -> bool
    decreases n, 0int, k,
{
    if k <= 0 || k > n.children@.len() {
        true
    } else {
        proof {
            vstd::std_specs::vec::axiom_vec_index_decreases(n.children, k - 1);
        }
        children_end_fit(n, k - 1) && ends_fit(*n.children@[k - 1])
    }
}

/// Appends the frames of a call and its callees, each call before its
/// callees and the callees in order.
pub fn prepare_flame_graph_frames(node: &TreeNode, frames: &mut Vec<FlameFrame>)
    requires
        ends_fit(*node),
    ensures
        final(frames)@.map_values(|f: FlameFrame| frame_view(f)) == old(frames)@.map_values(
            |f: FlameFrame| frame_view(f),
        ) + tree_frames(*node),
    decreases *node,
{
    let ghost start = frames@.map_values(|f: FlameFrame| frame_view(f));
    let frame = FlameFrame {
        label: node.label.clone(),
        depth: #[verifier::truncate] (node.depth as usize),
        start_time: #[verifier::truncate] (node.start_time as usize),
        end_time: #[verifier::truncate] ((node.start_time + node.duration) as usize),
    };
    frames.push(frame);
    assert(frames@.map_values(|f: FlameFrame| frame_view(f)) =~= start + seq![node_frame(*node)]);
    let mut i: usize = 0;
    while i < node.children.len()
        invariant
            i <= node.children@.len(),
            children_end_fit(*node, node.children@.len() as int),
            frames@.map_values(|f: FlameFrame| frame_view(f)) == start + seq![node_frame(*node)]
                + children_frames(*node, i as int),
        decreases node.children@.len() - i,
    {
        proof {
            vstd::std_specs::vec::axiom_vec_index_decreases(node.children, i as int);
            lemma_children_end_fit(*node, node.children@.len() as int, i as int);
        }
        let child: &TreeNode = &node.children[i];
        prepare_flame_graph_frames(child, frames);
        i = i + 1;
        assert(start + seq![node_frame(*node)] + children_frames(*node, i as int) =~= start + seq![
            node_frame(*node),
        ] + children_frames(*node, i - 1) + tree_frames(*node.children@[i - 1]));
    }
}

/// The ends of a call's callees fit one by one.
proof fn lemma_children_end_fit(n: TreeNode, k: int, i: int)
    requires
        children_end_fit(n, k),
        0 <= i < k <= n.children@.len(),
    ensures
        ends_fit(*n.children@[i]),
    decreases k,
{
    if i < k - 1 {
        lemma_children_end_fit(n, k - 1, i);
    }
}

/// The ids of the threads on a session's dashboard, in its order.
pub fn get_all_thread_ids(dashboard: &DashboardInfo) -> (r: Vec<i64>)
    ensures
        r@.len() == dashboard.threads@.len(),
        forall|i: int| 0 <= i < r@.len() ==> r@[i] == #[trigger] dashboard.threads@[i].id,
{
    let mut thread_ids: Vec<i64> = Vec::new();
    let mut i: usize = 0;
    while i < dashboard.threads.len()
        invariant
            i <= dashboard.threads@.len(),
            thread_ids@.len() == i,
            forall|j: int| 0 <= j < i ==> thread_ids@[j] == #[trigger] dashboard.threads@[j].id,
        decreases dashboard.threads@.len() - i,
    {
        thread_ids.push(dashboard.threads[i].id);
        i = i + 1;
    }
    thread_ids
}

/// Whether `t` occurs in `s`.
pub open spec fn contains_text(s: Seq<char>, t: Seq<char>) -> bool {
    exists|i: int| 0 <= i && i + t.len() <= s.len() && #[trigger] s.subrange(i, i + t.len()) == t
}

/// Whether a thread is searched: there is no name filter, or its name
/// contains the filter.
pub fn thread_name_matches(name: &str, filter: &str) -> (r: bool)
    ensures
        r == (filter@.len() == 0 || contains_text(name@, filter@)),
{
    let t = chars_of(filter);
    if t.len() == 0 {
        return true;
    }
    let s = chars_of(name);
    if t.len() > s.len() {
        return false;
    }
    let last = s.len() - t.len();
    let mut i: usize = 0;
    while i <= last
        invariant
            t@ == filter@,
            s@ == name@,
            t@.len() > 0,
            last + t@.len() == s@.len(),
            s@.len() == s.len(),
            forall|j: int| 0 <= j < i ==> #[trigger] s@.subrange(j, j + t@.len()) != t@,
        decreases last + 1 - i,
    {
        let mut k: usize = 0;
        let mut same = true;
        while k < t.len()
            invariant
                i + t@.len() <= s@.len(),
                s@.len() == s.len(),
                k <= t@.len(),
                same == forall|q: int| 0 <= q < k ==> s@[i + q] == t@[q],
            decreases t@.len() - k,
        {
            if s[i + k] != t[k] {
                same = false;
            }
            k = k + 1;
        }
        if same {
            assert(s@.subrange(i as int, i + t@.len()) =~= t@);
            return true;
        }
        assert(s@.subrange(i as int, i + t@.len()) != t@) by {
            let q = choose|q: int| 0 <= q < t@.len() && s@[i + q] != t@[q];
            assert(s@.subrange(i as int, i + t@.len())[q] == s@[i + q]);
        }
        i = i + 1;
    }
    false
}

/// The primary stacks of the calls, in order.
pub open spec fn primaries_of(calls: Seq<Box<MethodCall>>) -> Seq<Seq<i64>> {
    Seq::new(calls.len(), |k: int| calls[k].primary_stacks@)
}

/// Whether `trace` is the analyses as the calls of the given primary
/// stacks are added one by one.
pub open spec fn calls_added(trace: Seq<MethodAnalysis>, ps: Seq<Seq<i64>>) -> bool {
    &&& trace.len() == ps.len() + 1
    &&& forall|k: int| 0 <= k < ps.len() ==> #[trigger] call_added(trace[k], trace[k + 1], ps[k])
}

/// The message of a search stopped for finding too many calls.
pub open spec fn too_many_message(total: nat) -> Seq<char> {
    "too many slow method calls: "@ + nat_to_decimal(total) + ", search aborted!"@
}

/// A search for slow method calls over a session's threads, one thread
/// after the other: how many threads there are, how many calls it may find,
/// how many it found, the progress last reported, whether it stopped on too
/// many calls (and why), and the calls found, grouped.
pub struct SlowCallSearch {
    pub thread_size: usize,
    pub max_size: usize,
    pub total: usize,
    pub search_progress: usize,
    pub search_error: bool,
    pub search_error_msg: String,
    pub method_analysis: MethodAnalysis,
}

impl SlowCallSearch {
    /// A search over `thread_size` threads that stops past `max_size`
    /// calls; nothing found yet.
    pub fn new(thread_size: usize, max_size: usize) -> (r: SlowCallSearch)
        ensures
            r.thread_size == thread_size,
            r.max_size == max_size,
            r.total == 0,
            r.search_progress == 0,
            !r.search_error,
            r.search_error_msg@ == Seq::<char>::empty(),
            r.method_analysis.groups().len() == 0,
            r.method_analysis.last_group_id() == 0,
            r.method_analysis.feature_total() == 0,
    {
        SlowCallSearch {
            thread_size,
            max_size,
            total: 0,
            search_progress: 0,
            search_error: false,
            search_error_msg: String::new(),
            method_analysis: MethodAnalysis::new(),
        }
    }

    /// Takes what searching thread `i` found (nothing when the search
    /// failed). When it found something, the progress (in percent of the
    /// threads) is reported if it moved more than five points since the
    /// last report; an empty find ends the step there. Otherwise the calls
    /// found are counted and grouped, and the search stops, with an error
    /// message, once `max_size` calls are found. Answers the progress to
    /// report, if any, and whether the search stops.
    pub fn on_thread_searched(&mut self, i: usize, found: Option<Vec<Box<MethodCall>>>) -> (r: (
        Option<usize>,
        bool,
    ))
        requires
            i < old(self).thread_size,
            100 * old(self).thread_size <= usize::MAX,
            old(self).search_progress <= 100 * i / (old(self).thread_size as int),
            found matches Some(c) ==> old(self).total + c@.len() <= usize::MAX
                && old(self).method_analysis.last_group_id() + c@.len() < i64::MAX,
        ensures
            final(self).thread_size == old(self).thread_size,
            final(self).max_size == old(self).max_size,
            final(self).search_progress <= 100 * i / (old(self).thread_size as int),
            ({
                let np = (100 * i / (old(self).thread_size as int)) as usize;
                match found {
                    Some(c) => {
                        let reported = np - old(self).search_progress > 5;
                        &&& r.0 == if reported {
                            Some(np)
                        } else {
                            None::<usize>
                        }
                        &&& final(self).search_progress == if reported {
                            np
                        } else {
                            old(self).search_progress
                        }
                        &&& if c@.len() == 0 {
                            &&& !r.1
                            &&& final(self).total == old(self).total
                            &&& final(self).method_analysis == old(self).method_analysis
                            &&& final(self).search_error == old(self).search_error
                            &&& final(self).search_error_msg == old(self).search_error_msg
                        } else {
                            &&& final(self).total == old(self).total + c@.len()
                            &&& exists|trace: Seq<MethodAnalysis>|
                                {
                                    &&& calls_added(trace, primaries_of(c@))
                                    &&& trace[0] == old(self).method_analysis
                                    &&& trace.last() == final(self).method_analysis
                                }
                            &&& r.1 == (final(self).total >= old(self).max_size)
                        }
                    },
                    None => {
                        &&& r.0 is None
                        &&& final(self).search_progress == old(self).search_progress
                        &&& final(self).total == old(self).total
                        &&& final(self).method_analysis == old(self).method_analysis
                        &&& r.1 == (old(self).total >= old(self).max_size)
                    },
                }
            }),
            r.1 ==> final(self).search_error && final(self).search_error_msg@ == too_many_message(
                final(self).total as nat,
            ),
            !r.1 ==> final(self).search_error == old(self).search_error
                && final(self).search_error_msg == old(self).search_error_msg,
    {
        match found {
            Some(calls) => {
                let new_search_progress = 100 * i / self.thread_size;
                let mut reported: Option<usize> = None;
                if new_search_progress - self.search_progress > 5 {
                    self.search_progress = new_search_progress;
                    reported = Some(new_search_progress);
                }
                if calls.len() == 0 {
                    return (reported, false);
                }
                self.total = self.total + calls.len();
                let ghost cs = calls@;
                let ghost ps = primaries_of(cs);
                let ghost mut trace: Seq<MethodAnalysis> = seq![self.method_analysis];
                let ghost a0 = self.method_analysis;
                let ghost n = cs.len();
                let ghost s0 = *self;
                let mut rest = calls;
                let mut k: usize = 0;
                while rest.len() > 0
                    invariant
                        k + rest@.len() == n,
                        n == cs.len(),
                        n <= usize::MAX,
                        rest@ == cs.subrange(k as int, n as int),
                        self.thread_size == s0.thread_size,
                        self.max_size == s0.max_size,
                        self.total == s0.total,
                        self.search_progress == s0.search_progress,
                        self.search_error == s0.search_error,
                        self.search_error_msg == s0.search_error_msg,
                        trace.len() == k + 1,
                        trace[0] == a0,
                        trace.last() == self.method_analysis,
                        forall|q: int| 0 <= q < k ==> #[trigger] call_added(trace[q], trace[q + 1], ps[q]),
                        self.method_analysis.last_group_id() <= a0.last_group_id() + k,
                        a0.last_group_id() + n < i64::MAX,
                        ps == primaries_of(cs),
                    decreases rest@.len(),
                {
                    let call = rest.remove(0);
                    assert(call == cs[k as int]);
                    assert(ps[k as int] == call.primary_stacks@);
                    let ghost before = self.method_analysis;
                    self.method_analysis.add_method_call(call);
                    proof {
                        let old_trace = trace;
                        trace = trace.push(self.method_analysis);
                        assert forall|q: int| 0 <= q < k + 1 implies #[trigger] call_added(
                            trace[q],
                            trace[q + 1],
                            ps[q],
                        ) by {
                            if q < k {
                                assert(trace[q] == old_trace[q] && trace[q + 1] == old_trace[q + 1]);
                            }
                        }
                    }
                    k = k + 1;
                    assert(rest@ =~= cs.subrange(k as int, n as int));
                }
                let stop = self.stop_if_too_many();
                (reported, stop)
            },
            None => {
                let stop = self.stop_if_too_many();
                (None, stop)
            },
        }
    }

    /// Stops the search, with its error message, once `max_size` calls are
    /// found; answers whether it stopped.
    fn stop_if_too_many(&mut self) -> (r: bool)
        ensures
            r == (old(self).total >= old(self).max_size),
            r ==> final(self).search_error && final(self).search_error_msg@ == too_many_message(
                old(self).total as nat,
            ),
            !r ==> final(self).search_error == old(self).search_error
                && final(self).search_error_msg == old(self).search_error_msg,
            final(self).total == old(self).total,
            final(self).max_size == old(self).max_size,
            final(self).thread_size == old(self).thread_size,
            final(self).search_progress == old(self).search_progress,
            final(self).method_analysis == old(self).method_analysis,
    {
        if self.total >= self.max_size {
            self.search_error = true;
            let mut text = chars_of("too many slow method calls: ");
            push_decimal_digits(&mut text, self.total as u64);
            let tail = chars_of(", search aborted!");
            let mut j: usize = 0;
            let ghost head = text@;
            while j < tail.len()
                invariant
                    j <= tail@.len(),
                    text@ == head + tail@.take(j as int),
                decreases tail@.len() - j,
            {
                text.push(tail[j]);
                j = j + 1;
                assert(text@ =~= head + tail@.take(j as int));
            }
            assert(tail@.take(tail@.len() as int) =~= tail@);
            self.search_error_msg = string_from_chars(text.as_slice());
            true
        } else {
            false
        }
    }
}

} // verus!
