use flare::agent::encoder::{resp_encode_method_data, resp_encode_thread_data as agent_encode};
use flare::agent::sample::{MethodData, SampleData, ThreadData as AgentThread};
use flare::client::client_encoder::resp_encode_thread_data as client_encode;
use flare::client::sampler_client::ThreadData as ClientThread;
use flare::protocol::RespValue;
use flare::server::sample::{SampleInfo, ThreadData};
use flare::server::sample_encoder::{convert_to_vec64, resp_decode_thread_data, resp_encode_thread_data};
use flare::server::threads::{copy_thread, cpu_series_value, get_dashboard, parse_thread_sample, record_thread_sample};
use std::collections::HashMap;

fn s(x: &str) -> RespValue {
    RespValue::String(x.to_string())
}

fn message(id: i64, time: i64, stack: Vec<RespValue>) -> Vec<RespValue> {
    vec![
        s("thread"),
        s("time"),
        RespValue::Integer(time),
        s("id"),
        RespValue::Integer(id),
        s("name"),
        s("worker"),
        s("cpu_time"),
        RespValue::Integer(5000),
        s("cpu_time_delta"),
        RespValue::Integer(2500),
        s("state"),
        s("RUNNABLE"),
        s("stacktrace"),
        RespValue::Array(stack),
    ]
}

fn info() -> SampleInfo {
    SampleInfo {
        sample_interval: 20,
        sample_start_time: 1,
        record_start_time: 2,
        last_record_time: 3,
        agent_addr: "localhost:1234".to_string(),
        sample_data_dir: "dir".to_string(),
    }
}

#[test]
fn thread_message_read() {
    let m = message(7, 100, vec![RespValue::Integer(3), s("x"), RespValue::Integer(1)]);
    let t = parse_thread_sample(&m);
    assert_eq!((t.sample_time, t.thread_id, t.cpu_time, t.cpu_time_delta), (100, 7, 5000, 2500));
    assert_eq!(t.name, "worker");
    assert_eq!(t.state, "RUNNABLE");
    assert_eq!(t.stacktrace, vec![3, 1]);
    let bare = parse_thread_sample(&vec![s("thread")]);
    assert_eq!((bare.sample_time, bare.thread_id, bare.name.as_str(), bare.stacktrace.len()), (0, 0, "", 0));
}

#[test]
fn thread_records_kept() {
    let mut threads: HashMap<i64, ThreadData> = HashMap::new();
    let (first, is_new) = record_thread_sample(&mut threads, &parse_thread_sample(&message(7, 100, vec![RespValue::Integer(3)])));
    assert!(is_new);
    assert_eq!(first.sample_count, 1);
    assert_eq!(first.stacktrace, vec![3]);
    let (second, is_new) = record_thread_sample(&mut threads, &parse_thread_sample(&message(7, 120, vec![])));
    assert!(!is_new);
    assert_eq!(second.sample_count, 2);
    assert_eq!(second.sample_time, 120);
    assert_eq!(second.stacktrace, Vec::<i64>::new());
    assert_eq!(threads.len(), 1);
    assert_eq!(copy_thread(&second).name, "worker");
}

#[test]
fn dashboard_lists_sampled_threads_by_id() {
    let mut threads: HashMap<i64, ThreadData> = HashMap::new();
    for id in [9, 2, 5, 7] {
        record_thread_sample(&mut threads, &parse_thread_sample(&message(id, 100, vec![])));
    }
    threads.get_mut(&5).unwrap().sample_count = 0;
    let d = get_dashboard(&threads, info());
    assert_eq!(d.threads.iter().map(|t| t.id).collect::<Vec<i64>>(), vec![2, 7, 9]);
    assert_eq!(d.sample_info.agent_addr, "localhost:1234");
}

#[test]
fn cpu_series_values() {
    assert_eq!(cpu_series_value(2500), 2);
    assert_eq!(cpu_series_value(-2500), -2);
    assert_eq!(cpu_series_value(5_000_000_000_000), 705032704);
}

#[test]
fn agent_messages() {
    let mut t = AgentThread::new(7, "main".to_string());
    t.sample_time = 100;
    t.stacktrace = vec![3, 1];
    match agent_encode(&t) {
        RespValue::Array(items) => {
            assert_eq!(items.len(), 13);
            assert_eq!(items[12].encode(), b"*2\r\n:3\r\n:1\r\n".to_vec());
        }
        _ => panic!("not an array"),
    }
    assert!(t.encode().starts_with(b"*13\r\n+thread\r\n+time\r\n:100\r\n+id\r\n:7\r\n"));
    assert_eq!(t.get_type(), "thread");
    let m = MethodData { method_id: 4, full_name: "A.b()".to_string(), hits_count: 0 };
    assert_eq!(m.encode(), b"*5\r\n+method\r\n+id\r\n:4\r\n+name\r\n+A.b()\r\n".to_vec());
    assert_eq!(m.get_type(), "method");
    assert_eq!(resp_encode_method_data(&m).encode(), m.encode());
}

#[test]
fn client_message() {
    let t = ClientThread {
        id: 7,
        name: "main".to_string(),
        priority: 0,
        daemon: false,
        state: "RUNNABLE".to_string(),
        cpu_time: 10,
        cpu_time_delta: 2,
        sample_time: 100,
        stacktrace: vec![1],
    };
    let bytes = client_encode(&t).encode();
    assert!(bytes.starts_with(b"*15\r\n+thread\r\n"));
    assert!(bytes.ends_with(b"+cpu_time_delta\r\n:2\r\n+state\r\n+RUNNABLE\r\n+stacktrace\r\n*1\r\n:1\r\n"));
}

#[test]
fn stored_sample_round_trip() {
    let mut t = parse_thread_sample(&message(7, 100, vec![]));
    t.name = "x".to_string();
    let mut threads: HashMap<i64, ThreadData> = HashMap::new();
    let (mut record, _) = record_thread_sample(&mut threads, &t);
    record.stacktrace = vec![-1, 2, 300];
    let v = resp_encode_thread_data(&record);
    let items = match v {
        RespValue::Array(items) => items,
        _ => panic!("not an array"),
    };
    match &items[14] {
        RespValue::BufBulk(b) => {
            assert_eq!(b.len(), 24);
            assert_eq!(&b[8..16], &2i64.to_ne_bytes());
        }
        _ => panic!("not a bulk"),
    }
    let back = resp_decode_thread_data(&items);
    assert_eq!(back.stacktrace, vec![-1, 2, 300]);
    assert_eq!((back.id, back.sample_time, back.name.as_str(), back.sample_count), (0, 0, "", 1));
}

#[test]
fn bulk_read_as_numbers() {
    let mut bytes = 5i64.to_ne_bytes().to_vec();
    bytes.extend_from_slice(&(-7i64).to_ne_bytes());
    bytes.push(1);
    assert_eq!(convert_to_vec64(bytes), vec![5, -7]);
    assert_eq!(convert_to_vec64(vec![1, 2, 3]), Vec::<i64>::new());
}

use flare::client::sampler_client::{get_dashboard as client_dashboard, record_thread_sample as client_record};
use flare::server::profiler::{count_name, cpu_time_query, get_all_thread_ids, prepare_flame_graph_frames, FlameFrame};
use flare::server::sample::StatsType;
use flare::server::threads::{
    load_threads, reset_sample_counts, sample_data_dir_name, should_roll_data_dir, summary_save_due, summary_threads,
};
use flare::server::tree::TreeNode;
use flare::errors::ErrorKind;

#[test]
fn data_dir_rolling() {
    assert!(should_roll_data_dir(0, 5, 900_000));
    assert!(!should_roll_data_dir(1000, 901_000, 900_000));
    assert!(should_roll_data_dir(1000, 901_001, 900_000));
    assert_eq!(sample_data_dir_name("localhost:3333", "20200101T101010"), "flare-samples/localhost_3333-20200101T101010");
    assert!(summary_save_due(false, 5000, 4000));
    assert!(!summary_save_due(false, 4999, 4000));
    assert!(!summary_save_due(true, 9000, 4000));
}

#[test]
fn sample_counts_reset_and_summary() {
    let mut threads: HashMap<i64, ThreadData> = HashMap::new();
    for id in [3, 1] {
        record_thread_sample(&mut threads, &parse_thread_sample(&message(id, 100, vec![])));
    }
    reset_sample_counts(&mut threads);
    assert!(threads.values().all(|t| t.sample_count == 0));
    assert_eq!(threads.len(), 2);
    let mut listed: Vec<i64> = summary_threads(&threads).iter().map(|t| t.id).collect();
    listed.sort();
    assert_eq!(listed, vec![1, 3]);
    let loaded = load_threads(&summary_threads(&threads));
    assert_eq!(loaded.len(), 2);
    assert_eq!(loaded[&3].name, "worker");
}

#[test]
fn cpu_chart_query() {
    let i = info();
    // record range is 2..3: a unit of 10 ms or more is kept
    assert_eq!(cpu_time_query(-1, -1, 10, 900, &i).unwrap(), (2, 3, 10));
    let mut wide = info();
    wide.record_start_time = 0;
    wide.last_record_time = 3_600_000;
    assert_eq!(cpu_time_query(-1, -1, -1, 900, &wide).unwrap(), (0, 3_600_000, 4000));
    assert_eq!(cpu_time_query(-1, 60_000, 0, 100, &wide).unwrap(), (0, 60_000, 600));
    assert_eq!(cpu_time_query(-1, -1, -1, 10, &wide).unwrap(), (0, 3_600_000, 360_000));
    let e = cpu_time_query(5, 5, -1, 10, &wide).unwrap_err();
    assert!(e.kind == ErrorKind::InvalidInput);
    assert_eq!(e.message, "time period error, end_time must be greater than start_time");
}

#[test]
fn flame_frames_in_preorder() {
    let mut root = TreeNode::new(0, "root");
    root.duration = 30;
    let mut a = TreeNode::new(0, "a");
    a.depth = 1;
    a.start_time = 5;
    a.duration = 10;
    let mut b = TreeNode::new(0, "b");
    b.depth = 2;
    b.start_time = 5;
    b.duration = 4;
    a.children.push(Box::new(b));
    root.children.push(Box::new(a));
    let mut frames: Vec<FlameFrame> = vec![];
    prepare_flame_graph_frames(&root, &mut frames);
    let got: Vec<(String, usize, usize, usize)> = frames.iter().map(|f| (f.label.clone(), f.depth, f.start_time, f.end_time)).collect();
    assert_eq!(got, vec![("root".to_string(), 0, 0, 30), ("a".to_string(), 1, 5, 15), ("b".to_string(), 2, 5, 9)]);
    assert_eq!(count_name(StatsType::DURATION), "ms");
    assert_eq!(count_name(StatsType::CPU_TIME), "micros");
    assert_eq!(count_name(StatsType::SAMPLES), "samples");
}

#[test]
fn session_thread_ids() {
    let mut threads: HashMap<i64, ThreadData> = HashMap::new();
    for id in [9, 2] {
        record_thread_sample(&mut threads, &parse_thread_sample(&message(id, 100, vec![])));
    }
    assert_eq!(get_all_thread_ids(&get_dashboard(&threads, info())), vec![2, 9]);
}

#[test]
fn client_thread_table() {
    let mut threads = HashMap::new();
    assert!(client_record(&mut threads, &parse_thread_sample(&message(4, 100, vec![RespValue::Integer(1)]))));
    assert!(!client_record(&mut threads, &parse_thread_sample(&message(4, 130, vec![]))));
    let t = &threads[&4];
    assert_eq!((t.sample_time, t.cpu_time, t.stacktrace.len()), (130, 5000, 0));
    let ci = flare::client::sampler_client::SampleInfo {
        sample_interval: 20,
        sample_start_time: 0,
        record_start_time: 0,
        last_record_time: 0,
        agent_addr: String::new(),
        sample_data_dir: String::new(),
    };
    let _ = client_dashboard(&threads, ci);
}

use flare::server::method_analysis::{MethodAnalysis, MethodCall};
use flare::server::profiler::{thread_name_matches, SlowCallSearch};

fn call(stack: Vec<i64>) -> Box<MethodCall> {
    Box::new(MethodCall { primary_stacks: stack })
}

#[test]
fn thread_name_filter() {
    assert!(thread_name_matches("http-nio-8080-exec-1", ""));
    assert!(thread_name_matches("http-nio-8080-exec-1", "exec"));
    assert!(thread_name_matches("exec", "exec"));
    assert!(!thread_name_matches("main", "exec"));
    assert!(!thread_name_matches("ex", "exec"));
}

#[test]
fn slow_call_search_progress_and_stop() {
    let mut search = SlowCallSearch::new(20, 3);
    // 100 * 0 / 20 = 0: no progress to report, nothing found
    assert_eq!(search.on_thread_searched(0, Some(vec![])), (None, false));
    // 100 * 2 / 20 = 10: moved more than five points
    assert_eq!(search.on_thread_searched(2, Some(vec![call(vec![1, 2])])), (Some(10), false));
    assert_eq!(search.total, 1);
    assert_eq!(search.on_thread_searched(3, None), (None, false));
    assert_eq!(search.on_thread_searched(4, Some(vec![call(vec![1, 2]), call(vec![3])])), (Some(20), true));
    assert_eq!(search.total, 3);
    assert!(search.search_error);
    assert_eq!(search.search_error_msg, "too many slow method calls: 3, search aborted!");
    let groups = search.method_analysis.get_method_groups();
    assert_eq!(groups.len(), 2);
}

#[test]
fn call_stacks_named() {
    let mut analysis = MethodAnalysis::new();
    analysis.add_method_call(call(vec![1, 7]));
    analysis.name_call_stacks(&vec![(1, "Main.main()".to_string())]);
    let names: Vec<String> = analysis.get_method_groups()[0].call_stack.iter().map(|c| c.full_name.clone()).collect();
    assert_eq!(names, vec!["Main.main()".to_string(), "7".to_string()]);
}
