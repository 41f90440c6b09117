//! The merged call tree of sampled stacks: each sample's stack, outermost
//! frame first, is merged into one tree from its root, new nodes named after
//! their method, and the time and CPU time each sample adds spread over its
//! frames.
use super::collector::{cpu_share, cpu_shares_fit, divide_cpu_time, find_method_name, method_name};
use super::sample::ThreadData;
use crate::client::call_tree::{
    can_merge, merged_call, merged_top, tree_wf, CallStackTree, NodeView,
};
use vstd::prelude::*;

verus! {

/// The nodes after a call of `method` is merged at `top`, a node made for
/// it named after the method when its name is known.
pub open spec fn named_call(
    v: Seq<NodeView>,
    top: int,
    method: i64,
    duration: i64,
    cpu_time: i64,
    names: Seq<(i64, String)>,
) -> Seq<NodeView> {
    let w = merged_call(v, top, method as u64, duration, cpu_time);
    if v[top].children.contains_key(method as u64) {
        w
    } else {
        match method_name(names, method) {
            Some(n) => w.update(v.len() as int, NodeView { name: n, ..w[v.len() as int] }),
            None => w,
        }
    }
}

/// The nodes and the node reached after the frames, last one first, are
/// merged from `top`.
pub open spec fn stack_merged(
    v: Seq<NodeView>,
    top: int,
    frames: Seq<i64>,
    duration: i64,
    cpu_time: i64,
    names: Seq<(i64, String)>,
) -> (Seq<NodeView>, int)
    decreases frames.len(),
{
    if frames.len() == 0 {
        (v, top)
    } else {
        let m = frames.last();
        stack_merged(
            named_call(v, top, m, duration, cpu_time, names),
            merged_top(v, top, m as u64),
            frames.drop_last(),
            duration,
            cpu_time,
            names,
        )
    }
}

/// Whether every call of the frames, last one first, can be merged from
/// `top` within the counters' types.
pub open spec fn stack_fits(
    v: Seq<NodeView>,
    top: int,
    frames: Seq<i64>,
    duration: i64,
    cpu_time: i64,
    names: Seq<(i64, String)>,
) -> bool
    decreases frames.len(),
{
    frames.len() == 0 || {
        let m = frames.last();
        &&& can_merge(v, top, m as u64, duration, cpu_time)
        &&& stack_fits(
            named_call(v, top, m, duration, cpu_time, names),
            merged_top(v, top, m as u64),
            frames.drop_last(),
            duration,
            cpu_time,
            names,
        )
    }
}

/// Whether every child a node lists is one of the nodes.
pub open spec fn children_in_range(v: Seq<NodeView>) -> bool {
    forall|a: int, k: u64|
        0 <= a < v.len() && #[trigger] v[a].children.contains_key(k) ==> 0 <= v[a].children[k] < v.len()
}

/// Whether `w` has every node of `v` and keeps every child `v` lists.
pub open spec fn edges_kept(v: Seq<NodeView>, w: Seq<NodeView>) -> bool {
    &&& v.len() <= w.len()
    &&& forall|a: int, k: u64|
        0 <= a < v.len() && #[trigger] v[a].children.contains_key(k) ==> w[a].children.contains_key(k)
            && w[a].children[k] == v[a].children[k]
}

/// Whether the frames, last one first, lead from `t` to `end` through
/// children already in the tree.
pub open spec fn path_present(v: Seq<NodeView>, t: int, frames: Seq<i64>, end: int) -> bool
    decreases frames.len(),
{
    if frames.len() == 0 {
        t == end
    } else {
        let m = frames.last() as u64;
        &&& 0 <= t < v.len()
        &&& v[t].children.contains_key(m)
        &&& path_present(v, v[t].children[m], frames.drop_last(), end)
    }
}

/// Merging one call keeps the nodes and children there were, lists the
/// node it ends on as the child for the method, and keeps every child
/// within the nodes.
proof fn lemma_named_call_keeps(
    v: Seq<NodeView>,
    t: int,
    m: i64,
    dd: i64,
    dc: i64,
    names: Seq<(i64, String)>,
)
    requires
        0 <= t < v.len(),
        children_in_range(v),
    ensures
        ({
            let w = named_call(v, t, m, dd, dc, names);
            let c = merged_top(v, t, m as u64);
            &&& edges_kept(v, w)
            &&& children_in_range(w)
            &&& 0 <= c < w.len()
            &&& w[t].children.contains_key(m as u64)
            &&& w[t].children[m as u64] == c
            &&& (v[t].children.contains_key(m as u64) ==> w.len() == v.len())
        }),
{
    let w = named_call(v, t, m, dd, dc, names);
    let key = m as u64;
    if v[t].children.contains_key(key) {
        assert forall|a: int, k: u64|
            0 <= a < w.len() && #[trigger] w[a].children.contains_key(k) implies 0 <= w[a].children[k]
            < w.len() by {
            assert(v[a].children.contains_key(k));
        }
    } else {
        assert forall|a: int, k: u64|
            0 <= a < v.len() && #[trigger] v[a].children.contains_key(k) implies w[a].children.contains_key(k)
            && w[a].children[k] == v[a].children[k] by {
            if a == t {
                assert(k != key);
            }
        }
        assert forall|a: int, k: u64|
            0 <= a < w.len() && #[trigger] w[a].children.contains_key(k) implies 0 <= w[a].children[k]
            < w.len() by {
            if a < v.len() && !(a == t && k == key) {
                assert(v[a].children.contains_key(k));
            }
        }
    }
}

/// Keeping nodes and children is transitive.
proof fn lemma_edges_kept_trans(u: Seq<NodeView>, v: Seq<NodeView>, w: Seq<NodeView>)
    requires
        edges_kept(u, v),
        edges_kept(v, w),
    ensures
        edges_kept(u, w),
{
    assert forall|a: int, k: u64|
        0 <= a < u.len() && #[trigger] u[a].children.contains_key(k) implies w[a].children.contains_key(k)
        && w[a].children[k] == u[a].children[k] by {
        assert(v[a].children.contains_key(k));
    }
}

/// Merging a stack keeps the nodes and children there were, keeps every
/// child within the nodes, ends on a node, and leaves a path for the stack
/// from where it started to where it ended.
proof fn lemma_stack_merged_path(
    v: Seq<NodeView>,
    t: int,
    frames: Seq<i64>,
    dd: i64,
    dc: i64,
    names: Seq<(i64, String)>,
)
    requires
        0 <= t < v.len(),
        children_in_range(v),
    ensures
        ({
            let (w, e) = stack_merged(v, t, frames, dd, dc, names);
            &&& edges_kept(v, w)
            &&& children_in_range(w)
            &&& 0 <= e < w.len()
            &&& path_present(w, t, frames, e)
        }),
    decreases frames.len(),
{
    if frames.len() > 0 {
        let m = frames.last();
        let v1 = named_call(v, t, m, dd, dc, names);
        let t1 = merged_top(v, t, m as u64);
        lemma_named_call_keeps(v, t, m, dd, dc, names);
        lemma_stack_merged_path(v1, t1, frames.drop_last(), dd, dc, names);
        let (w, e) = stack_merged(v1, t1, frames.drop_last(), dd, dc, names);
        lemma_edges_kept_trans(v, v1, w);
        assert(w[t].children.contains_key(m as u64) && w[t].children[m as u64] == t1);
    }
}

/// A path of children stays where the children are kept.
proof fn lemma_path_kept(v: Seq<NodeView>, w: Seq<NodeView>, t: int, frames: Seq<i64>, e: int)
    requires
        path_present(v, t, frames, e),
        edges_kept(v, w),
    ensures
        path_present(w, t, frames, e),
    decreases frames.len(),
{
    if frames.len() > 0 {
        let m = frames.last() as u64;
        lemma_path_kept(v, w, v[t].children[m], frames.drop_last(), e);
    }
}

/// Merging a stack whose path is in the tree adds no node and ends where
/// the path ends.
proof fn lemma_merge_along_path(
    v: Seq<NodeView>,
    t: int,
    frames: Seq<i64>,
    e: int,
    dd: i64,
    dc: i64,
    names: Seq<(i64, String)>,
)
    requires
        path_present(v, t, frames, e),
        children_in_range(v),
    ensures
        stack_merged(v, t, frames, dd, dc, names).0.len() == v.len(),
        stack_merged(v, t, frames, dd, dc, names).1 == e,
    decreases frames.len(),
{
    if frames.len() > 0 {
        let m = frames.last();
        let v1 = named_call(v, t, m, dd, dc, names);
        let t1 = merged_top(v, t, m as u64);
        lemma_named_call_keeps(v, t, m, dd, dc, names);
        lemma_path_kept(v, v1, t1, frames.drop_last(), e);
        lemma_merge_along_path(v1, t1, frames.drop_last(), e, dd, dc, names);
    }
}

/// A stack merged a second time adds no node and ends on the node its
/// first merge ended on, whatever times the two merges record.
pub proof fn lemma_repeated_stack_same_path(
    v: Seq<NodeView>,
    t: int,
    frames: Seq<i64>,
    dd1: i64,
    dc1: i64,
    dd2: i64,
    dc2: i64,
    names: Seq<(i64, String)>,
)
    requires
        0 <= t < v.len(),
        children_in_range(v),
    ensures
        ({
            let (v1, t1) = stack_merged(v, t, frames, dd1, dc1, names);
            let (v2, t2) = stack_merged(v1, t, frames, dd2, dc2, names);
            v2.len() == v1.len() && t2 == t1
        }),
{
    lemma_stack_merged_path(v, t, frames, dd1, dc1, names);
    let (v1, t1) = stack_merged(v, t, frames, dd1, dc1, names);
    lemma_merge_along_path(v1, t, frames, t1, dd2, dc2, names);
}

/// The children a well-formed tree lists are among its nodes.
pub proof fn lemma_wf_children_in_range(v: Seq<NodeView>)
    requires
        tree_wf(v),
    ensures
        children_in_range(v),
{
}

/// A call tree as plain values: its nodes, the node the last stack
/// reached, and the last totals recorded.
pub struct TreeState {
    pub nodes: Seq<NodeView>,
    pub top: int,
    pub duration_total: i64,
    pub cpu_total: i64,
}

/// The state of a call tree.
pub open spec fn tree_state(t: CallStackTree) -> TreeState {
    TreeState {
        nodes: t.node_views(),
        top: t.top(),
        duration_total: t.duration_total(),
        cpu_total: t.cpu_total(),
    }
}

/// What a sample adds to each frame: the time and CPU time since the last
/// totals (nothing for a total not recorded yet).
pub open spec fn sample_deltas(s: TreeState, t: ThreadData) -> (i64, i64) {
    (
        if s.duration_total > 0 {
            (t.sample_time - s.duration_total) as i64
        } else {
            0
        },
        if s.cpu_total > 0 {
            (t.cpu_time - s.cpu_total) as i64
        } else {
            0
        },
    )
}

/// The tree after a sample's stack is merged from the root.
pub open spec fn sample_added(s: TreeState, t: ThreadData, names: Seq<(i64, String)>) -> TreeState {
    let (dd, dc) = sample_deltas(s, t);
    let (v, top) = stack_merged(s.nodes, 0, t.stacktrace@, dd, dc, names);
    TreeState { nodes: v, top, duration_total: t.sample_time, cpu_total: t.cpu_time }
}

/// Whether a sample can be merged within the types of the totals and
/// counters.
pub open spec fn sample_fits(s: TreeState, t: ThreadData, names: Seq<(i64, String)>) -> bool {
    let (dd, dc) = sample_deltas(s, t);
    &&& s.duration_total > 0 ==> i64::MIN <= t.sample_time - s.duration_total <= i64::MAX
    &&& s.cpu_total > 0 ==> i64::MIN <= t.cpu_time - s.cpu_total <= i64::MAX
    &&& stack_fits(s.nodes, 0, t.stacktrace@, dd, dc, names)
}

/// Merges the stack of one sample into the tree: the stack starts at the
/// root, takes the time and CPU time since the last totals, and each frame,
/// outermost first, is merged under the one before; each node made for a
/// frame is named after its method when the name is known.
pub fn add_stack_trace(
    call_tree: &mut CallStackTree,
    thread_data: &ThreadData,
    method_names: &Vec<(i64, String)>,
)
    requires
        old(call_tree).wf(),
        sample_fits(tree_state(*old(call_tree)), *thread_data, method_names@),
    ensures
        final(call_tree).wf(),
        tree_state(*final(call_tree)) == sample_added(
            tree_state(*old(call_tree)),
            *thread_data,
            method_names@,
        ),
        final(call_tree).thread() == old(call_tree).thread(),
{
    let ghost s0 = tree_state(*call_tree);
    call_tree.reset_top_call_stack_node();
    let (delta_duration, delta_cpu_time) = call_tree.start_call_stack(
        thread_data.sample_time,
        thread_data.cpu_time,
    );
    let frames = &thread_data.stacktrace;
    let ghost names = method_names@;
    let ghost target = stack_merged(s0.nodes, 0, frames@, delta_duration, delta_cpu_time, names);
    let mut i: usize = frames.len();
    assert(frames@.take(i as int) =~= frames@);
    while i > 0
        invariant
            i <= frames@.len(),
            call_tree.wf(),
            names == method_names@,
            target == stack_merged(
                call_tree.node_views(),
                call_tree.top(),
                frames@.take(i as int),
                delta_duration,
                delta_cpu_time,
                names,
            ),
            stack_fits(
                call_tree.node_views(),
                call_tree.top(),
                frames@.take(i as int),
                delta_duration,
                delta_cpu_time,
                names,
            ),
            call_tree.duration_total() == thread_data.sample_time,
            call_tree.cpu_total() == thread_data.cpu_time,
            call_tree.thread() == old(call_tree).thread(),
        decreases i,
    {
        let method_id = frames[i - 1];
        let ghost v = call_tree.node_views();
        let ghost t = call_tree.top();
        assert(frames@.take(i as int).drop_last() =~= frames@.take(i - 1));
        assert(frames@.take(i as int).last() == method_id);
        let merged = call_tree.begin_call(&method_id, delta_duration, delta_cpu_time);
        if !merged {
            match find_method_name(method_names, method_id) {
                Some(name) => {
                    let ghost w = call_tree.node_views();
                    call_tree.get_mut_top_node().set_name(name.clone());
                    assert(call_tree.node_views() =~= named_call(
                        v,
                        t,
                        method_id,
                        delta_duration,
                        delta_cpu_time,
                        names,
                    ));
                },
                None => {},
            }
        }
        assert(call_tree.node_views() == named_call(
            v,
            t,
            method_id,
            delta_duration,
            delta_cpu_time,
            names,
        ));
        i = i - 1;
    }
    assert(frames@.take(0) =~= Seq::<i64>::empty());
}

/// The samples after the CPU time between the samples `start..end` and
/// sample `end` is spread over them, `last` the CPU time before them and
/// `curr` that at `end`.
pub open spec fn cpu_divided(v: Seq<ThreadData>, start: int, end: int, last: i64, curr: i64) -> Seq<
    ThreadData,
> {
    Seq::new(
        v.len(),
        |k: int|
            if start <= k < end {
                ThreadData { cpu_time: cpu_share(last, curr, end - start, k - start + 1) as i64, ..v[k] }
            } else {
                v[k]
            },
    )
}

/// The samples from `i` on after the thread's CPU time, which is reported
/// late, is spread evenly over the samples taken between two changes of it:
/// `last` the CPU time of the samples since `start` (zero when none is
/// known yet).
pub open spec fn cpu_spread_from(v: Seq<ThreadData>, i: int, last: i64, start: int) -> Seq<ThreadData>
    decreases v.len() - i,
{
    if i < 0 || i >= v.len() {
        v
    } else {
        let last1 = if last == 0 {
            v[i].cpu_time
        } else {
            last
        };
        if v[i].cpu_time != last1 {
            cpu_spread_from(cpu_divided(v, start, i, last1, v[i].cpu_time), i + 1, v[i].cpu_time, i)
        } else {
            cpu_spread_from(v, i + 1, last1, start)
        }
    }
}

/// The samples after their CPU time is spread over the samples taken
/// between two changes of it.
pub open spec fn cpu_spread(v: Seq<ThreadData>) -> Seq<ThreadData> {
    cpu_spread_from(v, 0, 0, 0)
}

/// Whether each spreading from `i` on stays within `i64`.
pub open spec fn cpu_spread_fits_from(v: Seq<ThreadData>, i: int, last: i64, start: int) -> bool
    decreases v.len() - i,
{
    if i < 0 || i >= v.len() {
        true
    } else {
        let last1 = if last == 0 {
            v[i].cpu_time
        } else {
            last
        };
        if v[i].cpu_time != last1 {
            &&& cpu_shares_fit(last1, v[i].cpu_time, i - start)
            &&& cpu_spread_fits_from(
                cpu_divided(v, start, i, last1, v[i].cpu_time),
                i + 1,
                v[i].cpu_time,
                i,
            )
        } else {
            cpu_spread_fits_from(v, i + 1, last1, start)
        }
    }
}

/// Whether spreading the samples' CPU time stays within `i64`.
pub open spec fn cpu_spread_fits(v: Seq<ThreadData>) -> bool {
    cpu_spread_fits_from(v, 0, 0, 0)
}

/// Spreads the thread's CPU time, which is reported late, over its
/// samples: whenever it changes, the samples since the last change take
/// even shares of the difference.
pub fn spread_cpu_time(thread_data_vec: &mut Vec<ThreadData>)
    requires
        cpu_spread_fits(old(thread_data_vec)@),
    ensures
        final(thread_data_vec)@ == cpu_spread(old(thread_data_vec)@),
{
    let ghost target = cpu_spread(thread_data_vec@);
    let mut last_divide_cpu_time: i64 = 0;
    let mut start: usize = 0;
    let mut i: usize = 0;
    while i < thread_data_vec.len()
        invariant
            start <= i <= thread_data_vec@.len(),
            target == cpu_spread_from(thread_data_vec@, i as int, last_divide_cpu_time, start as int),
            cpu_spread_fits_from(thread_data_vec@, i as int, last_divide_cpu_time, start as int),
        decreases thread_data_vec@.len() - i,
    {
        let curr_cpu_time = thread_data_vec[i].cpu_time;
        if last_divide_cpu_time == 0 {
            last_divide_cpu_time = curr_cpu_time;
        }
        if curr_cpu_time != last_divide_cpu_time {
            let ghost before = thread_data_vec@;
            divide_cpu_time(thread_data_vec, start, i, last_divide_cpu_time, curr_cpu_time);
            assert(thread_data_vec@ =~= cpu_divided(
                before,
                start as int,
                i as int,
                last_divide_cpu_time,
                curr_cpu_time,
            ));
            last_divide_cpu_time = curr_cpu_time;
            start = i;
        }
        i = i + 1;
    }
}

/// The tree after the samples, in order, are merged.
pub open spec fn samples_added(s: TreeState, ts: Seq<ThreadData>, names: Seq<(i64, String)>) -> TreeState
    decreases ts.len(),
{
    if ts.len() == 0 {
        s
    } else {
        sample_added(samples_added(s, ts.drop_last(), names), ts.last(), names)
    }
}

/// Whether the samples, in order, can be merged within the types of the
/// totals and counters.
pub open spec fn samples_fit(s: TreeState, ts: Seq<ThreadData>, names: Seq<(i64, String)>) -> bool
    decreases ts.len(),
{
    ts.len() == 0 || (samples_fit(s, ts.drop_last(), names) && sample_fits(
        samples_added(s, ts.drop_last(), names),
        ts.last(),
        names,
    ))
}

/// The tree after the samples of each thread in turn, their CPU time
/// spread first, are merged.
pub open spec fn threads_added(
    s: TreeState,
    threads: Seq<Vec<ThreadData>>,
    names: Seq<(i64, String)>,
) -> TreeState
    decreases threads.len(),
{
    if threads.len() == 0 {
        s
    } else {
        samples_added(
            threads_added(s, threads.drop_last(), names),
            cpu_spread(threads.last()@),
            names,
        )
    }
}

/// Whether the samples of each thread in turn can be spread and merged
/// within the types of the totals and counters.
pub open spec fn threads_fit(s: TreeState, threads: Seq<Vec<ThreadData>>, names: Seq<(i64, String)>) -> bool
    decreases threads.len(),
{
    threads.len() == 0 || {
        &&& threads_fit(s, threads.drop_last(), names)
        &&& cpu_spread_fits(threads.last()@)
        &&& samples_fit(
            threads_added(s, threads.drop_last(), names),
            cpu_spread(threads.last()@),
            names,
        )
    }
}

/// The state of a new tree: only a root, no totals.
pub open spec fn empty_tree_state(root_name: Seq<char>) -> TreeState {
    TreeState {
        nodes: seq![
            NodeView {
                id: 0,
                index: 0,
                depth: 0,
                name: root_name,
                call_count: 0,
                call_duration: 0,
                call_cpu: 0,
                children_size: 0,
                parent: None,
                children: Map::empty(),
            },
        ],
        top: 0,
        duration_total: 0,
        cpu_total: 0,
    }
}

/// Merges the samples of a thread, in order, into the tree.
fn add_samples(
    call_tree: &mut CallStackTree,
    samples: &Vec<ThreadData>,
    method_names: &Vec<(i64, String)>,
)
    requires
        old(call_tree).wf(),
        samples_fit(tree_state(*old(call_tree)), samples@, method_names@),
    ensures
        final(call_tree).wf(),
        tree_state(*final(call_tree)) == samples_added(
            tree_state(*old(call_tree)),
            samples@,
            method_names@,
        ),
        final(call_tree).thread() == old(call_tree).thread(),
{
    let ghost s0 = tree_state(*call_tree);
    let mut j: usize = 0;
    while j < samples.len()
        invariant
            j <= samples@.len(),
            call_tree.wf(),
            tree_state(*call_tree) == samples_added(s0, samples@.take(j as int), method_names@),
            samples_fit(s0, samples@, method_names@),
            call_tree.thread() == old(call_tree).thread(),
        decreases samples@.len() - j,
    {
        proof {
            lemma_samples_fit_prefix(s0, samples@, (j + 1) as int, method_names@);
            assert(samples@.take(j + 1).drop_last() =~= samples@.take(j as int));
        }
        add_stack_trace(call_tree, &samples[j], method_names);
        j = j + 1;
    }
    assert(samples@.take(samples@.len() as int) =~= samples@);
}

/// A prefix of samples that fit fits too.
proof fn lemma_samples_fit_prefix(
    s: TreeState,
    ts: Seq<ThreadData>,
    n: int,
    names: Seq<(i64, String)>,
)
    requires
        samples_fit(s, ts, names),
        0 <= n <= ts.len(),
    ensures
        samples_fit(s, ts.take(n), names),
    decreases ts.len(),
{
    if n < ts.len() {
        assert(ts.drop_last().take(n) =~= ts.take(n));
        lemma_samples_fit_prefix(s, ts.drop_last(), n, names);
    } else {
        assert(ts.take(n) =~= ts);
    }
}

/// The call tree of the given threads' samples: one tree named
/// `CallStack`, into which the samples of each thread in turn are merged
/// after their CPU time is spread over them.
pub fn get_call_tree(thread_samples: Vec<Vec<ThreadData>>, method_names: &Vec<(i64, String)>) -> (r:
    CallStackTree)
    requires
        threads_fit(empty_tree_state("CallStack"@), thread_samples@, method_names@),
    ensures
        r.wf(),
        r.thread() == 0,
        tree_state(r) == threads_added(
            empty_tree_state("CallStack"@),
            thread_samples@,
            method_names@,
        ),
{
    let mut thread_samples = thread_samples;
    let ghost threads = thread_samples@;
    let mut stack_tree = CallStackTree::new(0, "CallStack");
    assert(tree_state(stack_tree).nodes =~= empty_tree_state("CallStack"@).nodes);
    let mut k: usize = 0;
    while k < thread_samples.len()
        invariant
            k <= threads.len(),
            thread_samples@.len() == threads.len(),
            forall|m: int| k <= m < threads.len() ==> #[trigger] thread_samples@[m] == threads[m],
            stack_tree.wf(),
            stack_tree.thread() == 0,
            tree_state(stack_tree) == threads_added(
                empty_tree_state("CallStack"@),
                threads.take(k as int),
                method_names@,
            ),
            threads_fit(empty_tree_state("CallStack"@), threads, method_names@),
        decreases threads.len() - k,
    {
        proof {
            lemma_threads_fit_prefix(
                empty_tree_state("CallStack"@),
                threads,
                (k + 1) as int,
                method_names@,
            );
            assert(threads.take(k + 1).drop_last() =~= threads.take(k as int));
        }
        spread_cpu_time(&mut thread_samples[k]);
        add_samples(&mut stack_tree, &thread_samples[k], method_names);
        k = k + 1;
    }
    assert(threads.take(threads.len() as int) =~= threads);
    stack_tree
}

/// A prefix of threads that fit fits too.
proof fn lemma_threads_fit_prefix(
    s: TreeState,
    threads: Seq<Vec<ThreadData>>,
    n: int,
    names: Seq<(i64, String)>,
)
    requires
        threads_fit(s, threads, names),
        0 <= n <= threads.len(),
    ensures
        threads_fit(s, threads.take(n), names),
    decreases threads.len(),
{
    if n < threads.len() {
        assert(threads.drop_last().take(n) =~= threads.take(n));
        lemma_threads_fit_prefix(s, threads.drop_last(), n, names);
    } else {
        assert(threads.take(n) =~= threads);
    }
}

} // verus!
