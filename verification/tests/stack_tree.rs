use flare::client::call_tree::CallStackTree;
use flare::server::ordinal_tree::{build_ordinal_tree, get_sequenced_call_tree, sequence_samples};
use flare::server::sample::ThreadData;
use flare::server::stack_tree::{add_stack_trace, get_call_tree, spread_cpu_time};
use flare::server::tree::TreeNode;

fn sample(time: i64, cpu: i64, stack: Vec<i64>) -> ThreadData {
    ThreadData {
        id: 1,
        name: "main".to_string(),
        priority: 5,
        daemon: false,
        state: "RUNNABLE".to_string(),
        cpu_time: cpu,
        cpu_time_delta: 0,
        sample_time: time,
        sample_count: 1,
        stacktrace: stack,
        duration: 0,
        self_duration: 0,
        self_cpu_time: 0,
    }
}

fn names() -> Vec<(i64, String)> {
    vec![(1, "main".to_string()), (2, "a".to_string())]
}

#[test]
fn cpu_time_spread_between_changes() {
    let mut v: Vec<ThreadData> = [10, 10, 10, 20, 20, 35].iter().map(|c| sample(0, *c, vec![])).collect();
    spread_cpu_time(&mut v);
    assert_eq!(v.iter().map(|t| t.cpu_time).collect::<Vec<i64>>(), vec![13, 16, 19, 27, 34, 35]);
}

#[test]
fn cpu_time_unknown_at_first() {
    let mut v: Vec<ThreadData> = [0, 0, 5].iter().map(|c| sample(0, *c, vec![])).collect();
    spread_cpu_time(&mut v);
    assert_eq!(v.iter().map(|t| t.cpu_time).collect::<Vec<i64>>(), vec![0, 0, 5]);
}

#[test]
fn stack_merged_and_named() {
    let mut tree = CallStackTree::new(0, "CallStack");
    add_stack_trace(&mut tree, &sample(100, 1000, vec![2, 1]), &names());
    add_stack_trace(&mut tree, &sample(150, 1600, vec![3, 1]), &names());
    let root = tree.get_root_node();
    assert_eq!(root.data.children_size, 1);
    assert_eq!(tree.total_duration, 150);
    assert_eq!(tree.total_cpu, 1600);
    let display = tree.to_tree();
    assert_eq!(display.children.len(), 1);
    let main = &display.children[0];
    assert_eq!(main.label, "main");
    assert_eq!(main.calls, 2);
    assert_eq!(main.duration, 50);
    assert_eq!(main.cpu, 0);
    let mut labels: Vec<(String, i64, i64)> = main.children.iter().map(|c| (c.label.clone(), c.calls, c.duration)).collect();
    labels.sort();
    assert_eq!(labels, vec![("".to_string(), 1, 50), ("a".to_string(), 1, 0)]);
}

#[test]
fn call_tree_of_threads() {
    let tree = get_call_tree(vec![vec![sample(100, 1000, vec![2, 1]), sample(150, 1600, vec![3, 1])]], &names());
    assert_eq!(tree.thread_id, 0);
    assert_eq!(tree.get_root_node().data.name, "CallStack");
    // the CPU time reported at the second sample is spread back over the first
    assert_eq!(tree.total_cpu, 1600);
    let text = tree.format_call_tree(true);
    let lines: Vec<&str> = text.lines().collect();
    assert_eq!(lines.len(), 4);
    assert_eq!(lines[0], "0,CallStack,0,0");
    assert_eq!(lines[1], "1,main,2,0");
    let mut rest = vec![lines[2], lines[3]];
    rest.sort();
    assert_eq!(rest, vec!["2,,1,0", "2,a,1,0"]);
}

#[test]
fn call_tree_text_indented() {
    let mut tree = CallStackTree::new(0, "T");
    tree.start_call_stack(1_000_000, 0);
    tree.reset_top_call_stack_node();
    tree.begin_call(&1, 3_500_000, 0);
    assert!(tree.root_sum_in_range());
    let text = tree.format_call_tree(false);
    assert_eq!(text, "T,0,3\n  ,1,3\n");
}

#[test]
fn ordinal_tree_merges_consecutive_frames() {
    let mut a = sample(10, 0, vec![2, 1]);
    a.self_duration = 5;
    a.self_cpu_time = 1;
    let mut b = sample(20, 0, vec![3, 1]);
    b.self_duration = 7;
    b.self_cpu_time = 2;
    let mut c = sample(30, 0, vec![3, 1]);
    c.self_duration = 3;
    let root = build_ordinal_tree(&vec![a, b, c], &names(), 5, 40);
    assert_eq!((root.label.as_str(), root.calls, root.duration, root.cpu), ("root", 3, 15, 3));
    assert_eq!(root.children.len(), 1);
    let main: &TreeNode = &root.children[0];
    assert_eq!((main.label.as_str(), main.calls, main.duration, main.cpu, main.start_time, main.depth), ("main", 3, 15, 3, 5, 1));
    assert_eq!(main.children.len(), 2);
    let first = &main.children[0];
    assert_eq!((first.label.as_str(), first.calls, first.duration, first.start_time, first.depth), ("a", 1, 5, 5, 2));
    let second = &main.children[1];
    assert_eq!((second.label.as_str(), second.calls, second.duration, second.cpu, second.start_time), ("3", 2, 10, 2, 15));
}

#[test]
fn ordinal_tree_clamps_start() {
    let root = build_ordinal_tree(&vec![sample(3, 0, vec![1])], &vec![], 5, 40);
    assert_eq!(root.children[0].label, "1");
    assert_eq!(root.children[0].start_time, 0);
}

#[test]
fn samples_sequenced() {
    let v = vec![sample(100, 0, vec![]), sample(130, 0, vec![]), sample(170, 0, vec![])];
    let s = sequence_samples(v, 200);
    assert_eq!(s.iter().map(|t| t.self_duration).collect::<Vec<i64>>(), vec![30, 40, 30]);
    let v = vec![sample(100, 0, vec![]), sample(130, 0, vec![]), sample(170, 0, vec![])];
    let s = sequence_samples(v, 170);
    assert_eq!(s.iter().map(|t| t.self_duration).collect::<Vec<i64>>(), vec![30, 40]);
}

#[test]
fn sequenced_tree_narrows_range() {
    let mut v = vec![sample(100, 0, vec![1]), sample(130, 0, vec![1]), sample(170, 0, vec![2])];
    v[1].duration = 4;
    let mut start = 90;
    let mut end = 1160;
    let root = get_sequenced_call_tree(v, &names(), 1000, &mut start, &mut end);
    // the last sample (at 170) lies past the range's end (160): it is dropped
    assert_eq!(start, 100);
    assert_eq!(end, 134);
    assert_eq!(root.calls, 2);
    assert_eq!(root.duration, 70);
    assert_eq!(root.children.len(), 1);
    assert_eq!(root.children[0].label, "main");
    assert_eq!(root.children[0].start_time, 0);
}

#[test]
fn root_sum_out_of_range() {
    let mut tree = CallStackTree::new(0, "T");
    tree.start_call_stack(1, 0);
    tree.reset_top_call_stack_node();
    tree.begin_call(&1, i64::MAX, 0);
    tree.reset_top_call_stack_node();
    tree.begin_call(&2, i64::MAX, 0);
    assert!(!tree.root_sum_in_range());
}

#[test]
fn checked_format_of_fresh_tree() {
    let tree = CallStackTree::new(1, "main");
    assert_eq!(tree.format_call_tree_checked(true), Some("0,main,0,0\n".to_string()));
    assert_eq!(tree.format_call_tree_checked(false), Some("main,0,0\n".to_string()));
}

#[test]
fn checked_format_sums_children_into_root() {
    let mut tree = CallStackTree::new(1, "main");
    tree.begin_call(&7, 3_000_000, 5);
    assert_eq!(tree.format_call_tree_checked(false), Some("main,0,3\n  ,1,3\n".to_string()));
}

#[test]
fn checked_format_refuses_overflowing_root_sum() {
    let mut tree = CallStackTree::new(1, "main");
    tree.begin_call(&7, i64::MAX, 0);
    tree.reset_top_call_stack_node();
    tree.begin_call(&8, 1, 0);
    assert_eq!(tree.format_call_tree_checked(true), None);
}
