use flare::server::method_analysis::{MethodAnalysis, MethodCall};
use flare::server::sample::StatsType;
use flare::server::tree::TreeNode;

#[test]
fn method_calls_group_by_primary_stack() {
    let mut analysis = MethodAnalysis::new();
    analysis.add_method_call(Box::new(MethodCall { primary_stacks: vec![1, 2, 3] }));
    analysis.add_method_call(Box::new(MethodCall { primary_stacks: vec![4] }));
    analysis.add_method_call(Box::new(MethodCall { primary_stacks: vec![1, 2, 3] }));
    let groups = analysis.get_method_groups();
    assert_eq!(groups.len(), 2);
    assert_eq!(groups[0].call_stack.len(), 3);
    assert_eq!(groups[0].call_stack[1].method_id, 2);
    assert!(groups[0].call_stack_ids.contains(&3));
    assert_eq!(groups[1].call_stack[0].method_id, 4);
    assert_eq!(groups[1].call_stack[0].full_name, "");
}

#[test]
fn merge_last_child_needs_same_label() {
    let mut root = TreeNode::new(0, "root");
    assert!(!root.merge_last_child("a", 1, 1, 1));
    root.append_child(TreeNode::new(1, "a"));
    assert!(root.merge_last_child("a", 4, 2, 1));
    assert!(!root.merge_last_child("b", 4, 2, 1));
    let last = root.last_child().unwrap();
    assert_eq!(last.duration, 4);
    assert_eq!(last.cpu, 2);
    assert_eq!(last.calls, 1);
}

#[test]
fn stats_type_names() {
    assert_eq!(StatsType::from_name("duration"), Some(StatsType::DURATION));
    assert_eq!(StatsType::from_name("cpu_time"), Some(StatsType::CPU_TIME));
    assert_eq!(StatsType::from_name("samples"), Some(StatsType::SAMPLES));
    assert_eq!(StatsType::from_name("other"), None);
}
