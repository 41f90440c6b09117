use flare::client::call_tree::{CallStackTree, TreeArena, TreeNode};
use flare::client::client_utils::{new_error, new_invalid_input_error};
use flare::client::tree::TreeNode as DisplayNode;
use flare::errors::ErrorKind;

#[test]
fn call_tree_merges_repeated_stacks() {
    let mut tree = CallStackTree::new(1, "main");
    assert!(!tree.begin_call(&10, 5, 1));
    assert!(!tree.begin_call(&20, 5, 1));
    tree.reset_top_call_stack_node();
    assert!(tree.begin_call(&10, 3, 2));
    assert!(tree.begin_call(&20, 3, 2));
    assert!(!tree.begin_call(&30, 3, 2));
    let top = tree.get_top_node();
    assert_eq!(top.data.depth, 3);
    assert_eq!(top.data.call_count, 1);
    let root = tree.get_root_node();
    assert_eq!(root.data.name, "main");
    assert_eq!(root.data.children_size, 1);
}

#[test]
fn call_tree_counts_calls() {
    let mut tree = CallStackTree::new(1, "main");
    tree.begin_call(&10, 5, 1);
    tree.reset_top_call_stack_node();
    tree.begin_call(&10, 7, 2);
    let node = tree.get_top_node();
    assert_eq!(node.data.call_count, 2);
    assert_eq!(node.data.call_duration, 12);
    assert_eq!(node.data.call_cpu, 3);
    assert_eq!(node.data.name, "");
}

#[test]
fn call_tree_totals() {
    let mut tree = CallStackTree::new(1, "main");
    assert_eq!(tree.start_call_stack(100, 10), (0, 0));
    assert_eq!(tree.start_call_stack(150, 25), (50, 15));
    assert_eq!(tree.total_duration, 150);
}

#[test]
fn new_nodes() {
    let root = TreeNode::newRootNode("t");
    assert_eq!(root.data.name, "t");
    let mut parent = TreeNode::newRootNode("p");
    let child = TreeNode::newCallNode(&mut parent, 5, &77);
    assert_eq!(child.data.depth, 1);
    assert_eq!(parent.data.children_size, 1);
}

#[test]
fn arena_makes_one_tree_per_thread() {
    let mut arena = TreeArena::new();
    arena.get_call_tree(7, "worker").begin_call(&1, 1, 1);
    let t = arena.get_call_tree(7, "other");
    assert_eq!(t.get_root_node().data.name, "worker");
    assert_eq!(t.thread_id, 7);
    assert_eq!(arena.get_all_call_trees().len(), 1);
    arena.clear();
    assert_eq!(arena.get_all_call_trees().len(), 0);
}

#[test]
fn display_tree_merge_or_create() {
    let mut root = Box::new(DisplayNode::new(0, "root"));
    {
        let c = DisplayNode::merge_or_create_last_child(&mut root, "a", 5, 2, 1);
        assert_eq!(c.label, "a");
        assert_eq!(c.duration, 5);
    }
    let c = DisplayNode::merge_or_create_last_child(&mut root, "b", 1, 1, 1);
    assert_eq!(c.label, "a");
    assert_eq!(c.calls, 2);
    assert_eq!(root.children.len(), 1);
    root.append_child(DisplayNode::new(3, "c"));
    assert_eq!(root.last_child().unwrap().label, "c");
}

#[test]
fn client_errors() {
    let e = new_error(ErrorKind::NotFound, "gone").unwrap_err();
    assert_eq!(e.kind, ErrorKind::NotFound);
    assert_eq!(e.message, "gone");
    let e = new_invalid_input_error("bad");
    assert_eq!(e.kind, ErrorKind::InvalidInput);
}
