//! The display tree of a thread's calls, as the collector builds it: each
//! node a method with its sample count, CPU time, duration, start time and
//! depth, and its callees in call order.
use crate::file_utils::str_chars_eq;
use vstd::prelude::*;

verus! {

/// One call in a display tree, with the calls it made.
pub struct TreeNode {
    pub parent: Option<Box<TreeNode>>,
    pub children: Vec<Box<TreeNode>>,
    pub id: i64,
    pub label: String,
    pub calls: i64,
    pub cpu: i64,
    pub duration: i64,
    pub start_time: i64,
    pub depth: i32,
}

/// Whether adding the amounts to a node's totals stays within `i64`.
pub open spec fn can_add(node: TreeNode, self_duration: i64, self_cpu_time: i64, samples: i64) -> bool {
    &&& i64::MIN <= node.duration + self_duration <= i64::MAX
    &&& i64::MIN <= node.cpu + self_cpu_time <= i64::MAX
    &&& i64::MIN <= node.calls + samples <= i64::MAX
}

/// A node with the given totals added.
pub open spec fn with_added(node: TreeNode, self_duration: i64, self_cpu_time: i64, samples: i64) -> TreeNode {
    TreeNode {
        duration: (node.duration + self_duration) as i64,
        cpu: (node.cpu + self_cpu_time) as i64,
        calls: (node.calls + samples) as i64,
        ..node
    }
}

/// Whether `a` and `b` are the same node except for its children.
pub open spec fn same_but_children(a: TreeNode, b: TreeNode) -> bool {
    &&& a.parent == b.parent
    &&& a.id == b.id
    &&& a.label == b.label
    &&& a.calls == b.calls
    &&& a.cpu == b.cpu
    &&& a.duration == b.duration
    &&& a.start_time == b.start_time
    &&& a.depth == b.depth
}

impl TreeNode {
    /// A node without parent, children or totals.
    pub fn new(id: i64, label: &str) -> (r: TreeNode)
        ensures
            r.parent is None,
            r.children@.len() == 0,
            r.id == id,
            r.label@ == label@,
            r.calls == 0,
            r.cpu == 0,
            r.duration == 0,
            r.start_time == 0,
            r.depth == 0,
    {
        TreeNode {
            parent: None,
            children: Vec::new(),
            id,
            label: label.to_owned(),
            calls: 0,
            cpu: 0,
            duration: 0,
            start_time: 0,
            depth: 0,
        }
    }

    /// Appends a child; answers it.
    pub fn append_child<'a>(&'a mut self, child_node: TreeNode) -> (r: &'a mut Box<TreeNode>)
        ensures
            **r == child_node,
            final(self).children@ == old(self).children@.push(*final(r)),
            same_but_children(*final(self), *old(self)),
    {
        let node = Box::new(child_node);
        self.children.push(node);
        let last = self.children.len() - 1;
        &mut self.children[last]
    }

    /// The last child, if there is one.
    pub fn last_child(&mut self) -> (r: Option<&mut Box<TreeNode>>)
        ensures
            old(self).children@.len() == 0 ==> r is None && *final(self) == *old(self),
            old(self).children@.len() > 0 ==> (r matches Some(c) && *c == old(self).children@.last()
                && final(self).children@ == old(self).children@.update(
                old(self).children@.len() - 1,
                *final(c),
            ) && same_but_children(*final(self), *old(self))),
    {
        if self.children.len() == 0 {
            None
        } else {
            let last = self.children.len() - 1;
            Some(&mut self.children[last])
        }
    }

    /// Adds the amounts to the totals of the last child when it is labelled
    /// with the method's name; answers whether it was.
    pub fn merge_last_child(
        &mut self,
        method_name: &str,
        self_duration: i64,
        self_cpu_time: i64,
        samples: i64,
    ) -> (r: bool)
        requires
            old(self).children@.len() > 0 && old(self).children@.last().label@ == method_name@
                ==> can_add(*old(self).children@.last(), self_duration, self_cpu_time, samples),
        ensures
            r == (old(self).children@.len() > 0 && old(self).children@.last().label@
                == method_name@),
            r ==> final(self).children@ == old(self).children@.update(
                old(self).children@.len() - 1,
                Box::new(
                    with_added(*old(self).children@.last(), self_duration, self_cpu_time, samples),
                ),
            ),
            !r ==> final(self).children@ == old(self).children@,
            same_but_children(*final(self), *old(self)),
    {
        if self.children.len() > 0 {
            let last = self.children.len() - 1;
            if str_chars_eq(self.children[last].label.as_str(), method_name) {
                let last_node = &mut self.children[last];
                last_node.duration = last_node.duration + self_duration;
                last_node.cpu = last_node.cpu + self_cpu_time;
                last_node.calls = last_node.calls + samples;
                return true;
            }
        }
        false
    }
}

} // verus!
