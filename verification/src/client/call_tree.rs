//! The call tree of each thread, merged from its stack samples: each node a
//! method called along one call path, with how often and how long it ran.
//! The nodes of a tree live in one vector and refer to each other by
//! position.
use crate::arith::tdiv;
use crate::server::tree::TreeNode as DisplayNode;
use crate::text::{chars_of, i64_to_string, int_to_decimal, string_push};
use std::collections::hash_map::Entry;
use std::collections::HashMap;
use vstd::prelude::*;
use vstd::std_specs::hash::{into_iter_values, spec_values_iter};
use vstd::std_specs::iter::IteratorSpec;

verus! {

broadcast use vstd::std_specs::hash::group_hash_axioms;

pub type JavaLong = i64;

pub type JavaMethod = i64;

/// The position of a node in its tree.
#[derive(Clone, Copy)]
pub struct NodeId {
    index: usize,
}

impl NodeId {
    /// The position this id refers to.
    pub closed spec fn idx(&self) -> int {
        self.index as int
    }
}

/// What a node records of its calls.
#[derive(Clone)]
pub struct NodeData {
    pub node_id: NodeId,
    pub depth: u32,
    pub name: String,
    pub call_count: u32,
    pub call_duration: i64,
    pub call_cpu: i64,
    pub children_size: u32,
}

/// A node: the method it stands for, what it records, its parent and its
/// children by method.
pub struct TreeNode {
    id: u64,
    pub data: NodeData,
    parent: Option<NodeId>,
    children: HashMap<u64, NodeId>,
}

/// What a node is, as plain values.
pub struct NodeView {
    pub id: u64,
    pub index: int,
    pub depth: u32,
    pub name: Seq<char>,
    pub call_count: u32,
    pub call_duration: i64,
    pub call_cpu: i64,
    pub children_size: u32,
    pub parent: Option<int>,
    /// The position of the child node of each method called from here.
    pub children: Map<u64, int>,
}

impl TreeNode {
    /// What this node is.
    pub closed spec fn view(&self) -> NodeView {
        NodeView {
            id: self.id,
            index: self.data.node_id.idx(),
            depth: self.data.depth,
            name: self.data.name@,
            call_count: self.data.call_count,
            call_duration: self.data.call_duration,
            call_cpu: self.data.call_cpu,
            children_size: self.data.children_size,
            parent: match self.parent {
                Some(p) => Some(p.idx()),
                None => None,
            },
            children: self.children@.map_values(|c: NodeId| c.idx()),
        }
    }

    /// The root node of a thread's tree, named after the thread.
    #[allow(non_snake_case)]
    pub fn newRootNode(name: &str) -> (r: TreeNode)
        ensures
            r@ == (NodeView {
                id: 0,
                index: 0,
                depth: 0,
                name: name@,
                call_count: 0,
                call_duration: 0,
                call_cpu: 0,
                children_size: 0,
                parent: None,
                children: Map::empty(),
            }),
    {
        let r = TreeNode {
            id: 0,
            data: NodeData {
                node_id: NodeId { index: 0 },
                depth: 0,
                name: name.to_owned(),
                call_count: 0,
                call_duration: 0,
                call_cpu: 0,
                children_size: 0,
            },
            parent: None,
            children: HashMap::new(),
        };
        assert(r@.children =~= Map::<u64, int>::empty());
        r
    }

    /// A new, unnamed node for a call of `method_id` from `parent_node`,
    /// to be stored at position `next_index`; records it as the parent's
    /// child for that method.
    #[allow(non_snake_case)]
    pub fn newCallNode(parentNode: &mut TreeNode, next_index: usize, method_id: &JavaMethod) -> (r:
        TreeNode)
        requires
            old(parentNode)@.depth < u32::MAX,
            old(parentNode)@.children_size < u32::MAX,
        ensures
            final(parentNode)@ == (NodeView {
                children: old(parentNode)@.children.insert(*method_id as u64, next_index as int),
                children_size: (old(parentNode)@.children_size + 1) as u32,
                ..old(parentNode)@
            }),
            r@ == (NodeView {
                id: *method_id as u64,
                index: next_index as int,
                depth: (old(parentNode)@.depth + 1) as u32,
                name: Seq::empty(),
                call_count: 0,
                call_duration: 0,
                call_cpu: 0,
                children_size: 0,
                parent: Some(old(parentNode)@.index),
                children: Map::empty(),
            }),
    {
        let node_id = NodeId { index: next_index };
        let key = #[verifier::truncate] (*method_id as u64);
        parentNode.children.insert(key, node_id);
        parentNode.data.children_size = parentNode.data.children_size + 1;
        let r = TreeNode {
            id: key,
            data: NodeData {
                node_id: node_id,
                name: String::new(),
                depth: parentNode.data.depth + 1,
                call_count: 0,
                call_duration: 0,
                call_cpu: 0,
                children_size: 0,
            },
            parent: Some(parentNode.data.node_id),
            children: HashMap::new(),
        };
        assert(r@.children =~= Map::<u64, int>::empty());
        assert(parentNode@.children =~= old(parentNode)@.children.insert(key, next_index as int));
        r
    }

    /// Gives the node a name.
    pub fn set_name(&mut self, name: String)
        ensures
            final(self)@ == (NodeView { name: name@, ..old(self)@ }),
    {
        self.data.name = name;
    }

    /// The child node for calls of `method_id`, if there is one.
    fn find_child(&self, method_id: &JavaMethod) -> (r: Option<NodeId>)
        ensures
            match r {
                Some(c) => self@.children.contains_key(*method_id as u64) && c.idx()
                    == self@.children[*method_id as u64],
                None => !self@.children.contains_key(*method_id as u64),
            },
    {
        let key = #[verifier::truncate] (*method_id as u64);
        match self.children.get(&key) {
            Some(c) => Some(*c),
            None => None,
        }
    }
}

/// The nodes of a tree with only a root named `name`: nothing counted,
/// no child.
pub open spec fn fresh_nodes(name: Seq<char>) -> Seq<NodeView> {
    seq![
        NodeView {
            id: 0,
            index: 0,
            depth: 0,
            name: name,
            call_count: 0,
            call_duration: 0,
            call_cpu: 0,
            children_size: 0,
            parent: None,
            children: Map::empty(),
        },
    ]
}

/// Whether the nodes form a call tree: node 0 is the root; every other
/// node has a parent before it, under whose children it is listed for its
/// method, one level deeper; every listed child comes after its parent and
/// names it as parent; counts and the number of nodes stay within their
/// types.
pub open spec fn tree_wf(v: Seq<NodeView>) -> bool {
    &&& 1 <= v.len() <= u32::MAX
    &&& v[0].parent is None
    &&& forall|i: int| 0 <= i < v.len() ==> #[trigger] v[i].index == i
    &&& forall|i: int| 0 <= i < v.len() ==> #[trigger] v[i].depth <= i
    &&& forall|i: int| 0 <= i < v.len() ==> #[trigger] v[i].children_size <= v.len()
    &&& forall|i: int|
        0 < i < v.len() ==> (#[trigger] v[i].parent matches Some(p) && 0 <= p < i
            && v[p].children.contains_key(v[i].id) && v[p].children[v[i].id] == i)
    &&& forall|i: int, k: u64|
        0 <= i < v.len() && #[trigger] v[i].children.contains_key(k) ==> {
            let c = v[i].children[k];
            &&& i < c < v.len()
            &&& v[c].parent == Some(i)
            &&& v[c].id == k
            &&& v[c].depth == v[i].depth + 1
        }
}

/// A node after one more call of `duration` and `cpu_time`.
pub open spec fn bumped(n: NodeView, duration: i64, cpu_time: i64) -> NodeView {
    NodeView {
        call_count: (n.call_count + 1) as u32,
        call_duration: (n.call_duration + duration) as i64,
        call_cpu: (n.call_cpu + cpu_time) as i64,
        ..n
    }
}

/// Whether one more call can be recorded on a node within its counters'
/// types.
pub open spec fn can_bump(n: NodeView, duration: i64, cpu_time: i64) -> bool {
    &&& n.call_count < u32::MAX
    &&& i64::MIN <= n.call_duration + duration <= i64::MAX
    &&& i64::MIN <= n.call_cpu + cpu_time <= i64::MAX
}

/// The nodes after a call of `method` is merged at node `top`: the child
/// for the method records one more call, or a new child is added for it.
pub open spec fn merged_call(v: Seq<NodeView>, top: int, method: u64, duration: i64, cpu_time: i64) -> Seq<
    NodeView,
> {
    if v[top].children.contains_key(method) {
        let c = v[top].children[method];
        v.update(c, bumped(v[c], duration, cpu_time))
    } else {
        v.update(
            top,
            NodeView {
                children: v[top].children.insert(method, v.len() as int),
                children_size: (v[top].children_size + 1) as u32,
                ..v[top]
            },
        ).push(
            NodeView {
                id: method,
                index: v.len() as int,
                depth: (v[top].depth + 1) as u32,
                name: Seq::empty(),
                call_count: 1,
                call_duration: duration,
                call_cpu: cpu_time,
                children_size: 0,
                parent: Some(top),
                children: Map::empty(),
            },
        )
    }
}

/// The node a call of `method` merged at `top` ends on.
pub open spec fn merged_top(v: Seq<NodeView>, top: int, method: u64) -> int {
    if v[top].children.contains_key(method) {
        v[top].children[method]
    } else {
        v.len() as int
    }
}

/// Whether a call of `method` can be merged at `top` within the counters'
/// types.
pub open spec fn can_merge(v: Seq<NodeView>, top: int, method: u64, duration: i64, cpu_time: i64) -> bool {
    if v[top].children.contains_key(method) {
        can_bump(v[v[top].children[method]], duration, cpu_time)
    } else {
        v.len() < u32::MAX
    }
}

/// The call tree of one thread: its nodes, the root, the node the current
/// stack has reached, and the thread's last reported totals.
pub struct CallStackTree {
    nodes: Vec<TreeNode>,
    root_node: NodeId,
    top_call_stack_node: NodeId,
    pub total_duration: i64,
    pub total_cpu: i64,
    pub thread_id: JavaLong,
}

impl CallStackTree {
    /// The nodes, by position.
    pub closed spec fn node_views(&self) -> Seq<NodeView> {
        Seq::new(self.nodes@.len(), |i: int| self.nodes@[i]@)
    }

    /// The position of the node the current stack has reached.
    pub closed spec fn top(&self) -> int {
        self.top_call_stack_node.idx()
    }

    /// The position of the root.
    pub closed spec fn root(&self) -> int {
        self.root_node.idx()
    }

    /// The thread's last reported total duration.
    pub closed spec fn duration_total(&self) -> i64 {
        self.total_duration
    }

    /// The thread's last reported total CPU time.
    pub closed spec fn cpu_total(&self) -> i64 {
        self.total_cpu
    }

    /// The thread this tree is of.
    pub closed spec fn thread(&self) -> JavaLong {
        self.thread_id
    }

    /// Whether the tree is well formed and its root and current node are
    /// among its nodes.
    pub open spec fn wf(&self) -> bool {
        &&& tree_wf(self.node_views())
        &&& self.root() == 0
        &&& 0 <= self.top() < self.node_views().len()
    }

    /// A tree with only a root, named after the thread.
    pub fn new(thread_id: JavaLong, thread_name: &str) -> (r: CallStackTree)
        ensures
            r.wf(),
            r.node_views() == seq![
                NodeView {
                    id: 0,
                    index: 0,
                    depth: 0,
                    name: thread_name@,
                    call_count: 0,
                    call_duration: 0,
                    call_cpu: 0,
                    children_size: 0,
                    parent: None,
                    children: Map::empty(),
                },
            ],
            r.top() == 0,
            r.duration_total() == 0,
            r.cpu_total() == 0,
            r.thread() == thread_id,
    {
        let r = CallStackTree {
            nodes: vec![TreeNode::newRootNode(thread_name)],
            root_node: NodeId { index: 0 },
            top_call_stack_node: NodeId { index: 0 },
            total_duration: 0,
            total_cpu: 0,
            thread_id,
        };
        assert(r.node_views() =~= seq![r.nodes@[0]@]);
        r
    }

    /// Starts a new stack at the root.
    pub fn reset_top_call_stack_node(&mut self)
        requires
            old(self).wf(),
        ensures
            final(self).wf(),
            final(self).node_views() == old(self).node_views(),
            final(self).top() == 0,
            final(self).duration_total() == old(self).duration_total(),
            final(self).cpu_total() == old(self).cpu_total(),
            final(self).thread() == old(self).thread(),
    {
        self.top_call_stack_node = self.root_node;
    }

    /// Merges a call of `method_id` into the current stack: the child of
    /// the current node for that method records the call (answers true),
    /// or a new child is added for it (answers false); the stack moves to
    /// that child.
    pub fn begin_call(&mut self, method_id: &JavaMethod, duration: i64, cpu_time: i64) -> (r: bool)
        requires
            old(self).wf(),
            can_merge(old(self).node_views(), old(self).top(), *method_id as u64, duration, cpu_time),
        ensures
            final(self).wf(),
            r == old(self).node_views()[old(self).top()].children.contains_key(*method_id as u64),
            final(self).node_views() == merged_call(
                old(self).node_views(),
                old(self).top(),
                *method_id as u64,
                duration,
                cpu_time,
            ),
            final(self).top() == merged_top(old(self).node_views(), old(self).top(), *method_id as u64),
            final(self).duration_total() == old(self).duration_total(),
            final(self).cpu_total() == old(self).cpu_total(),
            final(self).thread() == old(self).thread(),
    {
        let ghost v = self.node_views();
        let ghost t = self.top();
        let ghost m = *method_id as u64;
        let top = self.top_call_stack_node.index;
        let child = self.nodes[top].find_child(method_id);
        match child {
            Some(child_id) => {
                let ghost c = child_id.idx();
                assert(v[t].children.contains_key(m));
                assert(0 <= c < v.len());
                let node = &mut self.nodes[child_id.index];
                node.data.call_count = node.data.call_count + 1;
                node.data.call_duration = node.data.call_duration + duration;
                node.data.call_cpu = node.data.call_cpu + cpu_time;
                self.top_call_stack_node = node.data.node_id;
                assert(self.node_views() =~= v.update(c, bumped(v[c], duration, cpu_time)));
                proof {
                    let w = self.node_views();
                    assert forall|i: int, k: u64|
                        0 <= i < w.len() && #[trigger] w[i].children.contains_key(k) implies {
                        let cc = w[i].children[k];
                        &&& i < cc < w.len()
                        &&& w[cc].parent == Some(i)
                        &&& w[cc].id == k
                        &&& w[cc].depth == w[i].depth + 1
                    } by {
                        assert(v[i].children.contains_key(k));
                    }
                    assert forall|i: int| 0 < i < w.len() implies (#[trigger] w[i].parent matches Some(
                        p,
                    ) && 0 <= p < i && w[p].children.contains_key(w[i].id) && w[p].children[w[i].id]
                        == i) by {
                        assert(v[i].parent matches Some(p) && 0 <= p < i);
                    }
                }
                true
            },
            None => {
                let next_index = self.nodes.len();
                let ghost pv = self.nodes@[top as int]@;
                let mut node = TreeNode::newCallNode(&mut self.nodes[top], next_index, method_id);
                node.data.call_count = node.data.call_count + 1;
                node.data.call_duration = node.data.call_duration + duration;
                node.data.call_cpu = node.data.call_cpu + cpu_time;
                self.top_call_stack_node = node.data.node_id;
                self.nodes.push(node);
                assert(self.node_views() =~= merged_call(v, t, m, duration, cpu_time));
                proof {
                    let w = self.node_views();
                    assert forall|i: int, k: u64|
                        0 <= i < w.len() && #[trigger] w[i].children.contains_key(k) implies {
                        let cc = w[i].children[k];
                        &&& i < cc < w.len()
                        &&& w[cc].parent == Some(i)
                        &&& w[cc].id == k
                        &&& w[cc].depth == w[i].depth + 1
                    } by {
                        if i == t && k == m {
                        } else {
                            assert(v[i].children.contains_key(k));
                        }
                    }
                    assert forall|i: int| 0 < i < w.len() implies (#[trigger] w[i].parent matches Some(
                        p,
                    ) && 0 <= p < i && w[p].children.contains_key(w[i].id) && w[p].children[w[i].id]
                        == i) by {
                        if i < v.len() {
                            assert(v[i].parent matches Some(p) && 0 <= p < i);
                            let p = v[i].parent->Some_0;
                            assert(v[p].children.contains_key(v[i].id));
                            if p == t {
                                assert(v[i].id != m);
                            }
                        }
                    }
                }
                false
            },
        }
    }

    /// Records the thread's new totals; answers how much they grew since
    /// the last ones (zero for a total not recorded before).
    pub fn start_call_stack(&mut self, total_duration: i64, total_cpu: i64) -> (r: (i64, i64))
        requires
            old(self).duration_total() > 0 ==> i64::MIN <= total_duration - old(self).duration_total()
                <= i64::MAX,
            old(self).cpu_total() > 0 ==> i64::MIN <= total_cpu - old(self).cpu_total() <= i64::MAX,
        ensures
            r.0 == if old(self).duration_total() > 0 {
                total_duration - old(self).duration_total()
            } else {
                0
            },
            r.1 == if old(self).cpu_total() > 0 {
                total_cpu - old(self).cpu_total()
            } else {
                0
            },
            final(self).duration_total() == total_duration,
            final(self).cpu_total() == total_cpu,
            final(self).node_views() == old(self).node_views(),
            final(self).top() == old(self).top(),
            final(self).root() == old(self).root(),
            final(self).thread() == old(self).thread(),
    {
        let last_duration = self.total_duration;
        let last_cpu = self.total_cpu;
        self.total_duration = total_duration;
        self.total_cpu = total_cpu;
        let delta_duration = if last_duration > 0 {
            total_duration - last_duration
        } else {
            0
        };
        let delta_cpu = if last_cpu > 0 {
            total_cpu - last_cpu
        } else {
            0
        };
        (delta_duration, delta_cpu)
    }

    /// The node the current stack has reached.
    pub fn get_top_node(&self) -> (r: &TreeNode)
        requires
            self.wf(),
        ensures
            r@ == self.node_views()[self.top()],
    {
        &self.nodes[self.top_call_stack_node.index]
    }

    /// The node the current stack has reached, to change it.
    pub fn get_mut_top_node(&mut self) -> (r: &mut TreeNode)
        requires
            old(self).wf(),
        ensures
            r@ == old(self).node_views()[old(self).top()],
            final(self).node_views() == old(self).node_views().update(old(self).top(), final(r)@),
            final(self).top() == old(self).top(),
            final(self).root() == old(self).root(),
            final(self).duration_total() == old(self).duration_total(),
            final(self).cpu_total() == old(self).cpu_total(),
            final(self).thread() == old(self).thread(),
    {
        let ghost v = self.node_views();
        let r = &mut self.nodes[self.top_call_stack_node.index];
        r
    }

    /// The node at the given position.
    pub fn get_node(&self, node_id: &NodeId) -> (r: &TreeNode)
        requires
            0 <= node_id.idx() < self.node_views().len(),
        ensures
            r@ == self.node_views()[node_id.idx()],
    {
        &self.nodes[node_id.index]
    }

    /// The node at the given position, to change it.
    pub fn get_mut_node(&mut self, node_id: &NodeId) -> (r: &mut TreeNode)
        requires
            0 <= node_id.idx() < old(self).node_views().len(),
        ensures
            r@ == old(self).node_views()[node_id.idx()],
            final(self).node_views() == old(self).node_views().update(node_id.idx(), final(r)@),
            final(self).top() == old(self).top(),
            final(self).root() == old(self).root(),
            final(self).duration_total() == old(self).duration_total(),
            final(self).cpu_total() == old(self).cpu_total(),
            final(self).thread() == old(self).thread(),
    {
        let ghost v = self.node_views();
        let r = &mut self.nodes[node_id.index];
        r
    }

    /// The root node.
    pub fn get_root_node(&self) -> (r: &TreeNode)
        requires
            self.wf(),
        ensures
            r@ == self.node_views()[0],
    {
        &self.nodes[self.root_node.index]
    }
}

/// The call trees of all threads, by thread id.
pub struct TreeArena {
    thread_trees: HashMap<JavaLong, CallStackTree>,
}

impl TreeArena {
    /// The trees, by thread id.
    pub closed spec fn trees(&self) -> Map<JavaLong, CallStackTree> {
        self.thread_trees@
    }

    /// An arena without trees.
    pub fn new() -> (r: TreeArena)
        ensures
            r.trees() == Map::<JavaLong, CallStackTree>::empty(),
    {
        TreeArena { thread_trees: HashMap::new() }
    }

    /// All trees, by thread id.
    pub fn get_all_call_trees(&self) -> (r: &HashMap<JavaLong, CallStackTree>)
        ensures
            r@ == self.trees(),
    {
        &self.thread_trees
    }

    /// The tree of the given thread, made as `CallStackTree::new` makes it
    /// (only a root named after the thread, nothing counted) when the thread
    /// has none yet; a tree the thread has is kept as it is.
    pub fn get_call_tree(&mut self, thread_id: JavaLong, thread_name: &str) -> (r: &mut CallStackTree)
        ensures
            old(self).trees().contains_key(thread_id) ==> *r == old(self).trees()[thread_id],
            !old(self).trees().contains_key(thread_id) ==> {
                &&& r.wf()
                &&& r.node_views() == fresh_nodes(thread_name@)
                &&& r.top() == 0
                &&& r.duration_total() == 0
                &&& r.cpu_total() == 0
                &&& r.thread() == thread_id
            },
            final(self).trees() == old(self).trees().insert(thread_id, *final(r)),
    {
        match self.thread_trees.entry(thread_id) {
            Entry::Occupied(o) => o.into_mut(),
            Entry::Vacant(v) => v.insert(CallStackTree::new(thread_id, thread_name)),
        }
    }

    /// Removes all trees.
    pub fn clear(&mut self)
        ensures
            final(self).trees() == Map::<JavaLong, CallStackTree>::empty(),
    {
        self.thread_trees.clear();
    }
}

/// Two spaces for each level of depth.
pub open spec fn indent(depth: u32) -> Seq<char> {
    Seq::new(2 * depth as nat, |k: int| ' ')
}

/// One line of a formatted call tree: the node's depth (as a number and a
/// comma when compact, as two spaces per level otherwise), then its name,
/// call count and duration in milliseconds (from nanoseconds, rounded
/// toward zero), comma-separated.
pub open spec fn tree_line(n: NodeView, duration: int, compact: bool) -> Seq<char> {
    (if compact {
        int_to_decimal(n.depth as int) + ","@
    } else {
        indent(n.depth)
    }) + n.name + ","@ + int_to_decimal(n.call_count as int) + ","@ + int_to_decimal(
        tdiv(duration, 1000000),
    ) + "\n"@
}

/// Appends the characters of `s` to `out`.
fn append_str(out: &mut String, s: &str)
    ensures
        final(out)@ == old(out)@ + s@,
{
    let cs = chars_of(s);
    let ghost start = out@;
    let mut i: usize = 0;
    while i < cs.len()
        invariant
            i <= cs@.len(),
            cs@ == s@,
            out@ == start + cs@.take(i as int),
        decreases cs@.len() - i,
    {
        string_push(out, cs[i]);
        i = i + 1;
        assert(out@ =~= start + cs@.take(i as int));
    }
    assert(cs@.take(cs@.len() as int) =~= cs@);
}

impl CallStackTree {
    /// The positions of the children of node `i`, in the order the node's
    /// child table is walked. What is known of it is what a walk shows:
    /// see `order_lists_children`.
    pub closed spec fn child_order(&self, i: int) -> Seq<int> {
        into_iter_values(spec_values_iter(&self.nodes@[i].children)).map_values(|c: NodeId| c.idx())
    }

    /// Whether the walk over node `i`'s children lists each child, and as
    /// many entries as the node has children.
    pub open spec fn order_lists_children(&self, i: int) -> bool {
        &&& self.child_order(i).len() == self.node_views()[i].children.dom().len()
        &&& self.child_order(i).to_set() == self.node_views()[i].children.values()
    }

    /// Whether the walks over the children of node `i` and of all its
    /// descendants list their children.
    pub open spec fn orders_known(&self, i: int) -> bool
        decreases self.node_views().len() - i,
    {
        &&& self.order_lists_children(i)
        &&& forall|j: int|
            0 <= j < self.child_order(i).len() ==> (0 <= i < self.child_order(i)[j]
                < self.node_views().len() && self.orders_known(#[trigger] self.child_order(i)[j]))
    }

    /// What a walk over a node's child table shows of the walk order.
    proof fn lemma_child_order(&self, i: int, rem: Seq<NodeId>)
        requires
            self.wf(),
            0 <= i < self.node_views().len(),
            rem == into_iter_values(spec_values_iter(&self.nodes@[i].children)),
            rem.to_set() == self.nodes@[i].children@.values(),
            rem.len() == self.nodes@[i].children@.dom().len(),
        ensures
            self.order_lists_children(i),
            forall|j: int|
                0 <= j < self.child_order(i).len() ==> i < #[trigger] self.child_order(i)[j]
                    < self.node_views().len(),
    {
        let m = self.nodes@[i].children;
        let order = self.child_order(i);
        let v = self.node_views();
        assert(v[i] == self.nodes@[i]@);
        assert(v[i].children == m@.map_values(|c: NodeId| c.idx()));
        assert forall|c: int| order.to_set().contains(c) implies v[i].children.values().contains(c) by {
            let j = choose|j: int| 0 <= j < order.len() && order[j] == c;
            assert(order[j] == rem[j].idx());
            assert(rem.to_set().contains(rem[j]));
            assert(m@.values().contains(rem[j]));
            let k = choose|k: u64| m@.contains_key(k) && m@[k] == rem[j];
            assert(v[i].children.contains_key(k));
            assert(v[i].children[k] == c);
        }
        assert forall|c: int| v[i].children.values().contains(c) implies order.to_set().contains(c) by {
            let k = choose|k: u64| v[i].children.contains_key(k) && v[i].children[k] == c;
            assert(m@.values().contains(m@[k]));
            assert(rem.to_set().contains(m@[k]));
            let j = choose|j: int| 0 <= j < rem.len() && rem[j] == m@[k];
            assert(order[j] == c);
        }
        assert(order.to_set() =~= v[i].children.values());
        assert(v[i].children.dom() =~= m@.dom());
        assert forall|j: int| 0 <= j < order.len() implies i < #[trigger] order[j] < v.len() by {
            assert(order.to_set().contains(order[j]));
            let k = choose|k: u64| v[i].children.contains_key(k) && v[i].children[k] == order[j];
        }
    }

    /// The sum of the call durations of the nodes at the given positions.
    pub open spec fn duration_sum(&self, cs: Seq<int>) -> int
        decreases cs.len(),
    {
        if cs.len() == 0 {
            0
        } else {
            self.duration_sum(cs.drop_last()) + self.node_views()[cs.last()].call_duration
        }
    }

    /// Whether the root's duration plus its children's, summed in walk
    /// order, stays within `i64`.
    pub open spec fn root_sum_fits(&self) -> bool {
        forall|k: int|
            0 <= k <= self.child_order(0).len() ==> i64::MIN <= self.node_views()[0].call_duration
                + #[trigger] self.duration_sum(self.child_order(0).take(k)) <= i64::MAX
    }

    /// The duration shown for node `i`: its own, and for the root the sum
    /// of its children's too.
    pub open spec fn shown_duration(&self, i: int) -> int {
        if i == 0 {
            self.node_views()[0].call_duration + self.duration_sum(self.child_order(0))
        } else {
            self.node_views()[i].call_duration as int
        }
    }

    /// The formatted subtree of node `i`: its line, then the subtrees of
    /// its children in walk order.
    pub open spec fn rendered(&self, i: int, compact: bool) -> Seq<char>
        decreases self.node_views().len() - i,
    {
        tree_line(self.node_views()[i], self.shown_duration(i), compact) + self.rendered_children(
            i,
            self.child_order(i),
            compact,
        )
    }

    /// The formatted subtrees of the children of node `i` at the given
    /// positions, in order.
    pub open spec fn rendered_children(&self, i: int, cs: Seq<int>, compact: bool) -> Seq<char>
        decreases self.node_views().len() - i, cs.len(),
    {
        if cs.len() == 0 {
            Seq::empty()
        } else if 0 <= i < cs.last() < self.node_views().len() {
            self.rendered_children(i, cs.drop_last(), compact) + self.rendered(cs.last(), compact)
        } else {
            self.rendered_children(i, cs.drop_last(), compact)
        }
    }

    /// Formats the whole tree, one line per node, parents before their
    /// children.
    pub fn format_call_tree(&self, compact: bool) -> (r: String)
        requires
            self.wf(),
            self.root_sum_fits(),
        ensures
            r@ == self.rendered(0, compact),
            self.orders_known(0),
    {
        let mut result = String::new();
        self.format_tree_node(&mut result, &self.root_node, compact);
        result
    }

    /// Formats the whole tree as `format_call_tree` does, once the root's
    /// summed duration is found to fit in `i64`; `None` where it does not.
    pub fn format_call_tree_checked(&self, compact: bool) -> (r: Option<String>)
        requires
            self.wf(),
        ensures
            r is Some <==> self.root_sum_fits(),
            r matches Some(s) ==> s@ == self.rendered(0, compact),
    {
        if self.root_sum_in_range() {
            Some(self.format_call_tree(compact))
        } else {
            None
        }
    }

    /// Appends the formatted subtree of a node: its line (depth, name, call
    /// count and duration in milliseconds), then its children's subtrees.
    pub fn format_tree_node(&self, result: &mut String, nodeid: &NodeId, compact: bool)
        requires
            self.wf(),
            0 <= nodeid.idx() < self.node_views().len(),
            nodeid.idx() == 0 ==> self.root_sum_fits(),
        ensures
            final(result)@ == old(result)@ + self.rendered(nodeid.idx(), compact),
            self.orders_known(nodeid.idx()),
        decreases self.node_views().len() - nodeid.idx(),
    {
        let ghost i = nodeid.idx();
        let ghost v = self.node_views();
        let ghost start = result@;
        let node = &self.nodes[nodeid.index];
        assert(node@ == v[i]);
        let walk = node.children.values();
        proof {
            assert(walk.remaining().unref() == into_iter_values(walk));
            self.lemma_child_order(i, into_iter_values(walk));
        }
        let call_duration = if nodeid.index == 0 {
            self.root_duration()
        } else {
            node.data.call_duration
        };
        push_tree_line(result, node, call_duration, compact);
        let ghost line_end = result@;
        let ghost order = self.child_order(i);
        for child in it: walk
            invariant
                self.wf(),
                i == nodeid.idx(),
                0 <= i < self.node_views().len(),
                node@ == self.node_views()[i],
                it.seq().unref().map_values(|c: NodeId| c.idx()) == order,
                order == self.child_order(i),
                forall|j: int| 0 <= j < order.len() ==> i < #[trigger] order[j] < self.node_views().len(),
                result@ == line_end + self.rendered_children(i, order.take(it.index()), compact),
                forall|j: int| 0 <= j < it.index() ==> self.orders_known(#[trigger] order[j]),
        {
            let ghost j = it.index();
            assert(child == it.seq()[j]);
            assert(order.take(j + 1).drop_last() =~= order.take(j));
            assert(order[j] == child.idx());
            self.format_tree_node(result, child, compact);
        }
        assert(order.take(order.len() as int) =~= order);
    }

    /// Whether `t` is the display tree of node `i`: the node's position as
    /// id, its name as label, its call count, its CPU time in microseconds
    /// (from nanoseconds, rounded toward zero) and its duration, and the
    /// display trees of its children in walk order.
    pub open spec fn displays(&self, t: DisplayNode, i: int) -> bool
        decreases self.node_views().len() - i,
    {
        let n = self.node_views()[i];
        let order = self.child_order(i);
        &&& t.parent is None
        &&& t.id == i
        &&& t.label@ == n.name
        &&& t.calls == n.call_count
        &&& t.cpu == tdiv(n.call_cpu as int, 1000)
        &&& t.duration == n.call_duration
        &&& t.start_time == 0
        &&& t.depth == 0
        &&& self.order_lists_children(i)
        &&& t.children@.len() == order.len()
        &&& forall|j: int|
            0 <= j < order.len() ==> (0 <= i < order[j] < self.node_views().len() && self.displays(
                *#[trigger] t.children@[j],
                order[j],
            ))
    }

    /// The display tree of the whole call tree.
    pub fn to_tree(&self) -> (r: DisplayNode)
        requires
            self.wf(),
        ensures
            self.displays(r, 0),
    {
        self.build_node(&self.root_node)
    }

    /// The display tree of a node and its descendants.
    fn build_node(&self, nodeid: &NodeId) -> (r: DisplayNode)
        requires
            self.wf(),
            0 <= nodeid.idx() < self.node_views().len(),
        ensures
            self.displays(r, nodeid.idx()),
        decreases self.node_views().len() - nodeid.idx(),
    {
        let ghost i = nodeid.idx();
        let node = &self.nodes[nodeid.index];
        assert(node@ == self.node_views()[i]);
        let walk = node.children.values();
        proof {
            assert(walk.remaining().unref() == into_iter_values(walk));
            self.lemma_child_order(i, into_iter_values(walk));
        }
        let ghost order = self.child_order(i);
        let mut children: Vec<Box<DisplayNode>> = Vec::new();
        for child in it: walk
            invariant
                self.wf(),
                i == nodeid.idx(),
                0 <= i < self.node_views().len(),
                it.seq().unref().map_values(|c: NodeId| c.idx()) == order,
                order == self.child_order(i),
                forall|j: int| 0 <= j < order.len() ==> i < #[trigger] order[j] < self.node_views().len(),
                children@.len() == it.index(),
                forall|j: int|
                    0 <= j < it.index() ==> self.displays(*#[trigger] children@[j], order[j]),
        {
            let ghost j = it.index();
            assert(child == it.seq()[j]);
            assert(order[j] == child.idx());
            let c = self.build_node(child);
            children.push(Box::new(c));
        }
        let id = nodeid.index as i64;
        let label = node.data.name.clone();
        let calls = node.data.call_count as i64;
        let cpu = node.data.call_cpu / 1000;
        let duration = node.data.call_duration;
        DisplayNode { parent: None, id, label, calls, cpu, duration, start_time: 0, children, depth: 0 }
    }
}

/// Appends the formatted line of a node showing the given duration.
fn push_tree_line(result: &mut String, node: &TreeNode, duration: i64, compact: bool)
    ensures
        final(result)@ == old(result)@ + tree_line(node@, duration as int, compact),
{
    let ghost start = result@;
    if compact {
        let d = i64_to_string(node.data.depth as i64);
        append_str(result, d.as_str());
        append_str(result, ",");
    } else {
        let mut x: u32 = 0;
        while x < node.data.depth
            invariant
                x <= node.data.depth,
                result@ == start + Seq::new(2 * x as nat, |k: int| ' '),
            decreases node.data.depth - x,
        {
            append_str(result, "  ");
            proof {
                reveal_strlit("  ");
            }
            x = x + 1;
            assert(result@ =~= start + Seq::new(2 * x as nat, |k: int| ' '));
        }
    }
    proof {
        reveal_strlit(",");
        reveal_strlit("\n");
    }
    let shown = duration / 1000000;
    append_str(result, node.data.name.as_str());
    append_str(result, ",");
    let cc = i64_to_string(node.data.call_count as i64);
    append_str(result, cc.as_str());
    append_str(result, ",");
    let ds = i64_to_string(shown);
    append_str(result, ds.as_str());
    append_str(result, "\n");
    assert(result@ =~= start + tree_line(node@, duration as int, compact));
}

impl CallStackTree {
    /// The root's duration plus those of its children, summed in walk
    /// order.
    fn root_duration(&self) -> (r: i64)
        requires
            self.wf(),
            self.root_sum_fits(),
        ensures
            r == self.shown_duration(0),
            self.order_lists_children(0),
    {
        let node = &self.nodes[self.root_node.index];
        assert(node@ == self.node_views()[0]);
        let walk = node.children.values();
        proof {
            assert(walk.remaining().unref() == into_iter_values(walk));
            self.lemma_child_order(0, into_iter_values(walk));
        }
        let ghost order = self.child_order(0);
        let mut call_duration = node.data.call_duration;
        for child in it: walk
            invariant
                self.wf(),
                self.root_sum_fits(),
                node@ == self.node_views()[0],
                it.seq().unref().map_values(|c: NodeId| c.idx()) == order,
                order == self.child_order(0),
                forall|j: int| 0 <= j < order.len() ==> 0 < #[trigger] order[j] < self.node_views().len(),
                call_duration == node.data.call_duration + self.duration_sum(order.take(it.index())),
        {
            let ghost j = it.index();
            assert(child == it.seq()[j]);
            assert(order.take(j + 1).drop_last() =~= order.take(j));
            assert(order[j] == child.idx());
            assert(self.nodes@[order[j]]@ == self.node_views()[order[j]]);
            assert(self.duration_sum(order.take(j + 1)) == self.duration_sum(order.take(j))
                + self.node_views()[order[j]].call_duration);
            assert(i64::MIN <= self.node_views()[0].call_duration + self.duration_sum(
                self.child_order(0).take(j + 1),
            ) <= i64::MAX);
            call_duration = call_duration + self.nodes[child.index].data.call_duration;
        }
        assert(order.take(order.len() as int) =~= order);
        call_duration
    }

    /// Whether the root's duration plus its children's, summed in walk
    /// order, stays within `i64` at every step: the test that callers make
    /// before `format_call_tree`.
    pub fn root_sum_in_range(&self) -> (r: bool)
        requires
            self.wf(),
        ensures
            r == self.root_sum_fits(),
    {
        let node = &self.nodes[self.root_node.index];
        assert(node@ == self.node_views()[0]);
        let walk = node.children.values();
        proof {
            assert(walk.remaining().unref() == into_iter_values(walk));
            self.lemma_child_order(0, into_iter_values(walk));
        }
        let ghost order = self.child_order(0);
        let ghost d0 = self.node_views()[0].call_duration as int;
        let mut sum = node.data.call_duration;
        assert(order.take(0) =~= Seq::<int>::empty());
        for child in it: walk
            invariant
                self.wf(),
                node@ == self.node_views()[0],
                d0 == self.node_views()[0].call_duration,
                it.seq().unref().map_values(|c: NodeId| c.idx()) == order,
                order == self.child_order(0),
                forall|j: int| 0 <= j < order.len() ==> 0 < #[trigger] order[j] < self.node_views().len(),
                sum == d0 + self.duration_sum(order.take(it.index())),
                forall|k: int|
                    0 <= k <= it.index() ==> i64::MIN <= d0 + #[trigger] self.duration_sum(order.take(k)) <= i64::MAX,
        {
            let ghost j = it.index();
            assert(child == it.seq()[j]);
            assert(order.take(j + 1).drop_last() =~= order.take(j));
            assert(order[j] == child.idx());
            assert(self.nodes@[order[j]]@ == self.node_views()[order[j]]);
            assert(self.duration_sum(order.take(j + 1)) == self.duration_sum(order.take(j))
                + self.node_views()[order[j]].call_duration);
            match sum.checked_add(self.nodes[child.index].data.call_duration) {
                Some(v) => {
                    sum = v;
                },
                None => {
                    assert(!(i64::MIN <= d0 + self.duration_sum(order.take(j + 1)) <= i64::MAX));
                    return false;
                },
            }
        }
        assert(order.take(order.len() as int) =~= order);
        true
    }
}

} // verus!
