//! The display tree of a thread's calls, as the client builds it: each
//! node a method with its sample count, CPU time and duration, and its
//! callees in call order.
use vstd::prelude::*;

verus! {

/// One call in a display tree, with the calls it made.
pub struct TreeNode {
    pub parent: Option<Box<TreeNode>>,
    pub children: Vec<Box<TreeNode>>,
    pub id: i64,
    pub label: String,
    pub calls: i64,
    pub cpu: i64,
    pub duration: i64,
}

/// Whether adding the amounts to a node's totals stays within `i64`.
pub open spec fn can_add(node: TreeNode, self_duration: i64, self_cpu_time: i64, samples: i64) -> bool {
    &&& i64::MIN <= node.duration + self_duration <= i64::MAX
    &&& i64::MIN <= node.cpu + self_cpu_time <= i64::MAX
    &&& i64::MIN <= node.calls + samples <= i64::MAX
}

/// A node with the given totals added.
pub open spec fn with_added(node: TreeNode, self_duration: i64, self_cpu_time: i64, samples: i64) -> TreeNode {
    TreeNode {
        duration: (node.duration + self_duration) as i64,
        cpu: (node.cpu + self_cpu_time) as i64,
        calls: (node.calls + samples) as i64,
        ..node
    }
}

impl TreeNode {
    /// A node without parent, children or totals.
    pub fn new(id: i64, label: &str) -> (r: TreeNode)
        ensures
            r.parent is None,
            r.children@.len() == 0,
            r.id == id,
            r.label@ == label@,
            r.calls == 0,
            r.cpu == 0,
            r.duration == 0,
    {
        TreeNode {
            parent: None,
            children: Vec::new(),
            id,
            label: label.to_owned(),
            calls: 0,
            cpu: 0,
            duration: 0,
        }
    }

    /// Appends a child; answers it.
    pub fn append_child<'a>(&'a mut self, child_node: TreeNode) -> (r: &'a Box<TreeNode>)
        ensures
            final(self).children@ == old(self).children@.push(Box::new(child_node)),
            final(self).id == old(self).id,
            final(self).label == old(self).label,
            final(self).calls == old(self).calls,
            final(self).cpu == old(self).cpu,
            final(self).duration == old(self).duration,
            final(self).parent == old(self).parent,
            **r == child_node,
    {
        let node = Box::new(child_node);
        self.children.push(node);
        let last = self.children.len() - 1;
        &self.children[last]
    }

    /// The last child, if there is one.
    pub fn last_child(&self) -> (r: Option<&Box<TreeNode>>)
        ensures
            self.children@.len() == 0 ==> r is None,
            self.children@.len() > 0 ==> r == Some(&self.children@.last()),
    {
        if self.children.len() == 0 {
            None
        } else {
            Some(&self.children[self.children.len() - 1])
        }
    }

    /// Adds the amounts to the totals of the last child of `node` (first
    /// appending a child labelled with the method's name when there is
    /// none); answers that child.
    pub fn merge_or_create_last_child<'a>(
        node: &'a mut Box<TreeNode>,
        method_name: &str,
        self_duration: i64,
        self_cpu_time: i64,
        samples: i64,
    ) -> (r: &'a mut Box<TreeNode>)
        requires
            old(node).children@.len() > 0 ==> can_add(
                *old(node).children@.last(),
                self_duration,
                self_cpu_time,
                samples,
            ),
        ensures
            old(node).children@.len() > 0 ==> **r == with_added(
                *old(node).children@.last(),
                self_duration,
                self_cpu_time,
                samples,
            ),
            old(node).children@.len() == 0 ==> {
                &&& r.parent is None
                &&& r.children@.len() == 0
                &&& r.id == 0
                &&& r.label@ == method_name@
                &&& r.calls == samples
                &&& r.cpu == self_cpu_time
                &&& r.duration == self_duration
            },
            old(node).children@.len() > 0 ==> final(node).children@ == old(node).children@.update(
                old(node).children@.len() - 1,
                *final(r),
            ),
            old(node).children@.len() == 0 ==> final(node).children@ == seq![*final(r)],
            final(node).id == old(node).id,
            final(node).label == old(node).label,
            final(node).calls == old(node).calls,
            final(node).cpu == old(node).cpu,
            final(node).duration == old(node).duration,
    {
        if node.children.len() == 0 {
            node.children.push(
                Box::new(
                    TreeNode {
                        parent: None,
                        children: Vec::new(),
                        id: 0,
                        label: method_name.to_owned(),
                        calls: 0,
                        cpu: 0,
                        duration: 0,
                    },
                ),
            );
        }
        let last = node.children.len() - 1;
        let last_node = &mut node.children[last];
        last_node.duration = last_node.duration + self_duration;
        last_node.cpu = last_node.cpu + self_cpu_time;
        last_node.calls = last_node.calls + samples;
        last_node
    }
}

} // verus!
