//! The ordinal (time-ordered) call tree of a thread, as a flame graph shows
//! it: the stacks of its samples, in order, are merged frame by frame into
//! the last child of each level when it is the same method, and appended as
//! new children otherwise.
use super::collector::{find_method_name, method_name};
use super::sample::ThreadData;
use super::tree::{can_add, same_but_children, with_added, TreeNode};
use crate::text::{i64_to_string, int_to_decimal};
use vstd::prelude::*;

verus! {

/// The label of a frame: its method's name, or the method's id when no name
/// is known.
pub open spec fn frame_label(names: Seq<(i64, String)>, method: i64) -> Seq<char> {
    match method_name(names, method) {
        Some(n) => n,
        None => int_to_decimal(method as int),
    }
}

/// The labels of a stack given innermost frame first, outermost first.
pub open spec fn stack_labels(names: Seq<(i64, String)>, frames: Seq<i64>) -> Seq<Seq<char>> {
    frames.reverse().map_values(|m: i64| frame_label(names, m))
}

/// Whether `n` is a chain of new nodes for the labels, one below the other
/// from depth `depth`, each recording one call of the given time and CPU
/// time, starting at `start_time`.
pub open spec fn fresh_chain(
    n: TreeNode,
    labels: Seq<Seq<char>>,
    depth: int,
    duration: i64,
    cpu: i64,
    start_time: i64,
) -> bool
    decreases labels.len(),
{
    &&& labels.len() > 0
    &&& n.parent is None
    &&& n.id == 0
    &&& n.label@ == labels[0]
    &&& n.calls == 1
    &&& n.cpu == cpu
    &&& n.duration == duration
    &&& n.start_time == start_time
    &&& n.depth == depth
    &&& if labels.len() == 1 {
        n.children@.len() == 0
    } else {
        &&& n.children@.len() == 1
        &&& fresh_chain(*n.children@[0], labels.drop_first(), depth + 1, duration, cpu, start_time)
    }
}

/// Whether `new` is `old` with a stack of labels, outermost first, merged
/// below it: the first label goes into the last child when that child has
/// it (which records one more call, and takes the rest of the labels), else
/// a chain of new nodes for the labels is appended.
pub open spec fn path_merged(
    old: TreeNode,
    new: TreeNode,
    labels: Seq<Seq<char>>,
    duration: i64,
    cpu: i64,
    start_time: i64,
) -> bool
    decreases labels.len(),
{
    if labels.len() == 0 {
        new == old
    } else if old.children@.len() > 0 && old.children@.last().label@ == labels[0] {
        &&& same_but_children(new, old)
        &&& new.children@.len() == old.children@.len()
        &&& new.children@.drop_last() == old.children@.drop_last()
        &&& path_merged(
            with_added(*old.children@.last(), duration, cpu, 1),
            *new.children@.last(),
            labels.drop_first(),
            duration,
            cpu,
            start_time,
        )
    } else {
        &&& same_but_children(new, old)
        &&& new.children@.len() == old.children@.len() + 1
        &&& new.children@.drop_last() == old.children@
        &&& fresh_chain(*new.children@.last(), labels, old.depth + 1, duration, cpu, start_time)
    }
}

/// Whether merging the labels below `old` keeps every total and depth
/// within its type.
pub open spec fn path_fits(old: TreeNode, labels: Seq<Seq<char>>, duration: i64, cpu: i64) -> bool
    decreases labels.len(),
{
    labels.len() == 0 || if old.children@.len() > 0 && old.children@.last().label@ == labels[0] {
        &&& can_add(*old.children@.last(), duration, cpu, 1)
        &&& path_fits(
            with_added(*old.children@.last(), duration, cpu, 1),
            labels.drop_first(),
            duration,
            cpu,
        )
    } else {
        old.depth + labels.len() <= i32::MAX
    }
}

/// Merges the frames `0..i` of a stack, the last one first, below `node`.
fn merge_path(
    node: &mut Box<TreeNode>,
    frames: &Vec<i64>,
    i: usize,
    method_names: &Vec<(i64, String)>,
    duration: i64,
    cpu: i64,
    start_time: i64,
)
    requires
        i <= frames@.len(),
        path_fits(**old(node), stack_labels(method_names@, frames@.take(i as int)), duration, cpu),
    ensures
        path_merged(
            **old(node),
            **final(node),
            stack_labels(method_names@, frames@.take(i as int)),
            duration,
            cpu,
            start_time,
        ),
    decreases i,
{
    let ghost labels = stack_labels(method_names@, frames@.take(i as int));
    if i == 0 {
        assert(labels =~= Seq::<Seq<char>>::empty());
        return ;
    }
    let method = frames[i - 1];
    let ghost rest = stack_labels(method_names@, frames@.take(i - 1));
    assert(labels.drop_first() =~= rest);
    assert(labels[0] == frame_label(method_names@, method));
    let label = match find_method_name(method_names, method) {
        Some(name) => name.clone(),
        None => i64_to_string(method),
    };
    assert(label@ == labels[0]);
    let ghost n0 = **node;
    if node.merge_last_child(label.as_str(), duration, cpu, 1) {
        let ghost n1 = **node;
        let child = node.last_child().unwrap();
        merge_path(child, frames, i - 1, method_names, duration, cpu, start_time);
        proof {
            let n2 = **node;
            assert(n2.children@.drop_last() =~= n0.children@.drop_last());
            assert(n2.children@.last() == *child);
        }
    } else {
        let child_depth = node.depth + 1;
        let child = node.append_child(
            TreeNode {
                parent: None,
                children: Vec::new(),
                depth: child_depth,
                id: 0,
                label,
                calls: 1,
                cpu,
                duration,
                start_time,
            },
        );
        let ghost c0 = **child;
        merge_path(child, frames, i - 1, method_names, duration, cpu, start_time);
        proof {
            let c = **child;
            let n2 = **node;
            assert(n2.children@.drop_last() =~= n0.children@);
            assert(n2.children@.last() == *child);
            if rest.len() > 0 {
                assert(c.children@.len() == 1);
                assert(c.children@[0] == c.children@.last());
            }
            assert(fresh_chain(c, labels, n0.depth + 1, duration, cpu, start_time));
        }
    }
}

/// Whether `t` is the root a tree starts from: labelled `root`, with no
/// totals and no children.
pub open spec fn blank_root(t: TreeNode) -> bool {
    &&& t.parent is None
    &&& t.children@.len() == 0
    &&& t.id == 0
    &&& t.label@ == "root"@
    &&& t.calls == 0
    &&& t.cpu == 0
    &&& t.duration == 0
    &&& t.start_time == 0
    &&& t.depth == 0
}

/// Where a sample starts, relative to the range: never before it.
pub open spec fn sample_start(t: ThreadData, range_start_time: i64) -> i64 {
    if t.sample_time - range_start_time < 0 {
        0
    } else {
        (t.sample_time - range_start_time) as i64
    }
}

/// Whether `after` is `before` with one sample merged: the root records the
/// sample, and its stack, outermost frame first, is merged below the root.
pub open spec fn ordinal_step(
    before: TreeNode,
    after: TreeNode,
    t: ThreadData,
    names: Seq<(i64, String)>,
    range_start_time: i64,
) -> bool {
    path_merged(
        with_added(before, t.self_duration, t.self_cpu_time, 1),
        after,
        stack_labels(names, t.stacktrace@),
        t.self_duration,
        t.self_cpu_time,
        sample_start(t, range_start_time),
    )
}

/// Whether merging a sample into `before` stays within the types.
pub open spec fn ordinal_step_fits(
    before: TreeNode,
    t: ThreadData,
    names: Seq<(i64, String)>,
    range_start_time: i64,
) -> bool {
    &&& can_add(before, t.self_duration, t.self_cpu_time, 1)
    &&& i64::MIN <= t.sample_time - range_start_time <= i64::MAX
    &&& path_fits(
        with_added(before, t.self_duration, t.self_cpu_time, 1),
        stack_labels(names, t.stacktrace@),
        t.self_duration,
        t.self_cpu_time,
    )
}

/// Whether `trace` is the trees built as the first `trace.len() - 1`
/// samples are merged one by one.
pub open spec fn ordinal_prefix(
    trace: Seq<TreeNode>,
    v: Seq<ThreadData>,
    names: Seq<(i64, String)>,
    range_start_time: i64,
) -> bool {
    &&& 1 <= trace.len() <= v.len() + 1
    &&& blank_root(trace[0])
    &&& forall|j: int|
        0 <= j < trace.len() - 1 ==> #[trigger] ordinal_step(
            trace[j],
            trace[j + 1],
            v[j],
            names,
            range_start_time,
        )
}

/// Whether each sample can be merged within the types, whatever came
/// before it.
pub open spec fn ordinal_fits(v: Seq<ThreadData>, names: Seq<(i64, String)>, range_start_time: i64) -> bool {
    forall|trace: Seq<TreeNode>|
        #![trigger ordinal_prefix(trace, v, names, range_start_time)]
        ordinal_prefix(trace, v, names, range_start_time) && trace.len() <= v.len() ==> ordinal_step_fits(
            trace.last(),
            v[trace.len() - 1],
            names,
            range_start_time,
        )
}

/// The time the samples stand for, in all.
pub open spec fn duration_total(v: Seq<ThreadData>) -> int
    decreases v.len(),
{
    if v.len() == 0 {
        0
    } else {
        duration_total(v.drop_last()) + v.last().self_duration
    }
}

/// The CPU time the samples used, in all.
pub open spec fn cpu_total(v: Seq<ThreadData>) -> int
    decreases v.len(),
{
    if v.len() == 0 {
        0
    } else {
        cpu_total(v.drop_last()) + v.last().self_cpu_time
    }
}

/// Merging a stack below a node leaves the node's own totals as they were.
proof fn lemma_path_merged_keeps_node(
    old: TreeNode,
    new: TreeNode,
    labels: Seq<Seq<char>>,
    duration: i64,
    cpu: i64,
    start_time: i64,
)
    requires
        path_merged(old, new, labels, duration, cpu, start_time),
    ensures
        same_but_children(new, old),
{
}

/// The ordinal call tree of a thread's samples, in order: the root,
/// labelled `root`, records every sample; each sample's stack, outermost
/// frame first, is merged into the last child of each level when it has the
/// frame's method name (or id, when no name is known), and appended as a new
/// chain of nodes starting at the sample's time within the range otherwise.
pub fn build_ordinal_tree(
    thread_data_vec: &Vec<ThreadData>,
    method_names: &Vec<(i64, String)>,
    range_start_time: i64,
    range_end_time: i64,
) -> (r: Box<TreeNode>)
    requires
        ordinal_fits(thread_data_vec@, method_names@, range_start_time),
    ensures
        exists|trace: Seq<TreeNode>|
            {
                &&& ordinal_prefix(trace, thread_data_vec@, method_names@, range_start_time)
                &&& trace.len() == thread_data_vec@.len() + 1
                &&& trace.last() == *r
            },
        r.label@ == "root"@,
        r.calls == thread_data_vec@.len(),
        r.duration == duration_total(thread_data_vec@),
        r.cpu == cpu_total(thread_data_vec@),
{
    let mut root = Box::new(TreeNode::new(0, "root"));
    let ghost mut trace: Seq<TreeNode> = seq![*root];
    let ghost v = thread_data_vec@;
    let ghost names = method_names@;
    let mut k: usize = 0;
    while k < thread_data_vec.len()
        invariant
            k <= v.len(),
            v == thread_data_vec@,
            names == method_names@,
            trace.len() == k + 1,
            ordinal_prefix(trace, v, names, range_start_time),
            trace.last() == *root,
            ordinal_fits(v, names, range_start_time),
            root.label@ == "root"@,
            root.calls == k,
            root.duration == duration_total(v.take(k as int)),
            root.cpu == cpu_total(v.take(k as int)),
        decreases v.len() - k,
    {
        assert(ordinal_step_fits(trace.last(), v[k as int], names, range_start_time));
        let thread_data = &thread_data_vec[k];
        root.duration = root.duration + thread_data.self_duration;
        root.cpu = root.cpu + thread_data.self_cpu_time;
        root.calls = root.calls + 1;
        let mut start_time = thread_data.sample_time - range_start_time;
        if start_time < 0 {
            start_time = 0;
        }
        let frames = &thread_data.stacktrace;
        assert(frames@.take(frames@.len() as int) =~= frames@);
        let ghost before_merge = *root;
        assert(v.take(k + 1).drop_last() =~= v.take(k as int));
        merge_path(
            &mut root,
            frames,
            frames.len(),
            method_names,
            thread_data.self_duration,
            thread_data.self_cpu_time,
            start_time,
        );
        proof {
            lemma_path_merged_keeps_node(
                before_merge,
                *root,
                stack_labels(names, v[k as int].stacktrace@),
                v[k as int].self_duration,
                v[k as int].self_cpu_time,
                start_time,
            );
            let old_trace = trace;
            trace = trace.push(*root);
            assert forall|j: int| 0 <= j < trace.len() - 1 implies #[trigger] ordinal_step(
                trace[j],
                trace[j + 1],
                v[j],
                names,
                range_start_time,
            ) by {
                if j < k {
                    assert(trace[j] == old_trace[j] && trace[j + 1] == old_trace[j + 1]);
                }
            }
        }
        k = k + 1;
    }
    assert(v.take(v.len() as int) =~= v);
    root
}

/// The samples of a range in time order, each standing for the time until
/// the next one; the last one stands for the time until `last_time`, and is
/// dropped when it was taken at or after it.
pub open spec fn sequenced(v: Seq<ThreadData>, last_time: i64) -> Seq<ThreadData> {
    if v.len() == 0 {
        v
    } else {
        let body = Seq::new(
            (v.len() - 1) as nat,
            |k: int|
                ThreadData { self_duration: (v[k + 1].sample_time - v[k].sample_time) as i64, ..v[k] },
        );
        let last = v.last();
        if last_time > last.sample_time {
            body.push(ThreadData { self_duration: (last_time - last.sample_time) as i64, ..last })
        } else {
            body
        }
    }
}

/// Whether the time each sample stands for fits in `i64`.
pub open spec fn sequenced_fits(v: Seq<ThreadData>, last_time: i64) -> bool {
    &&& forall|k: int|
        0 <= k < v.len() - 1 ==> i64::MIN <= #[trigger] v[k + 1].sample_time - v[k].sample_time
            <= i64::MAX
    &&& v.len() > 0 ==> i64::MIN <= last_time - v.last().sample_time <= i64::MAX
}

/// Sets the time each sample stands for: until the next sample, and for
/// the last one until `last_time` (dropping it when it was taken at or
/// after that time).
pub fn sequence_samples(thread_data_vec: Vec<ThreadData>, last_time: i64) -> (r: Vec<ThreadData>)
    requires
        sequenced_fits(thread_data_vec@, last_time),
    ensures
        r@ == sequenced(thread_data_vec@, last_time),
{
    let ghost v = thread_data_vec@;
    let mut samples = thread_data_vec;
    let n = samples.len();
    if n == 0 {
        return samples;
    }
    let mut k: usize = 0;
    while k + 1 < n
        invariant
            n == v.len() == samples@.len(),
            n > 0,
            k < n,
            sequenced_fits(v, last_time),
            forall|j: int| k <= j < n ==> #[trigger] samples@[j] == v[j],
            forall|j: int|
                0 <= j < k ==> #[trigger] samples@[j] == (ThreadData {
                    self_duration: (v[j + 1].sample_time - v[j].sample_time) as i64,
                    ..v[j]
                }),
        decreases n - k,
    {
        let next_time = samples[k + 1].sample_time;
        let d = next_time - samples[k].sample_time;
        samples[k].self_duration = d;
        k = k + 1;
    }
    let last_sample_time = samples[n - 1].sample_time;
    if last_time > last_sample_time {
        samples[n - 1].self_duration = last_time - last_sample_time;
    } else {
        samples.pop();
    }
    assert(samples@ =~= sequenced(v, last_time));
    samples
}

/// The start of the range a sequenced call tree covers: the first sample's
/// time, or the given start when there is no sample.
pub open spec fn sequenced_start(v: Seq<ThreadData>, start_time: i64) -> i64 {
    if v.len() > 0 {
        v[0].sample_time
    } else {
        start_time
    }
}

/// The end of the range a sequenced call tree covers: the last sample's
/// time plus its duration, or the given end when there is no sample.
pub open spec fn sequenced_end(v: Seq<ThreadData>, end_time: i64) -> int {
    if v.len() > 0 {
        v.last().sample_time + v.last().duration
    } else {
        end_time as int
    }
}

/// The time-ordered call tree of a thread's samples within a range, read
/// in order: each sample stands for the time until the next one (the last
/// one until the range's end, measured from the thread's first record at
/// `ts_begin_time`); the range is narrowed to the samples it keeps, and
/// their stacks are merged as `build_ordinal_tree` does.
pub fn get_sequenced_call_tree(
    thread_data_vec: Vec<ThreadData>,
    method_names: &Vec<(i64, String)>,
    ts_begin_time: i64,
    start_time: &mut i64,
    end_time: &mut i64,
) -> (r: Box<TreeNode>)
    requires
        i64::MIN <= *old(end_time) - ts_begin_time <= i64::MAX,
        sequenced_fits(thread_data_vec@, (*old(end_time) - ts_begin_time) as i64),
        i64::MIN <= sequenced_end(
            sequenced(thread_data_vec@, (*old(end_time) - ts_begin_time) as i64),
            *old(end_time),
        ) <= i64::MAX,
        ordinal_fits(
            sequenced(thread_data_vec@, (*old(end_time) - ts_begin_time) as i64),
            method_names@,
            sequenced_start(
                sequenced(thread_data_vec@, (*old(end_time) - ts_begin_time) as i64),
                *old(start_time),
            ),
        ),
    ensures
        ({
            let v = sequenced(thread_data_vec@, (*old(end_time) - ts_begin_time) as i64);
            &&& *final(start_time) == sequenced_start(v, *old(start_time))
            &&& *final(end_time) == sequenced_end(v, *old(end_time))
            &&& exists|trace: Seq<TreeNode>|
                {
                    &&& ordinal_prefix(trace, v, method_names@, *final(start_time))
                    &&& trace.len() == v.len() + 1
                    &&& trace.last() == *r
                }
        }),
{
    let last_time = *end_time - ts_begin_time;
    let samples = sequence_samples(thread_data_vec, last_time);
    let n = samples.len();
    if n > 0 {
        *start_time = samples[0].sample_time;
        *end_time = samples[n - 1].sample_time + samples[n - 1].duration;
    }
    build_ordinal_tree(&samples, method_names, *start_time, *end_time)
}

} // verus!
