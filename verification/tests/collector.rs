use flare::server::collector::{divide_cpu_time, get_collapsed_call_stacks, set_self_durations};
use flare::server::sample::{StatsType, ThreadData};

fn sample(time: i64, cpu: i64, stack: Vec<i64>) -> ThreadData {
    ThreadData {
        id: 1,
        name: "main".to_string(),
        priority: 5,
        daemon: false,
        state: "RUNNABLE".to_string(),
        cpu_time: cpu,
        cpu_time_delta: 0,
        sample_time: time,
        sample_count: 1,
        stacktrace: stack,
        duration: 0,
        self_duration: 0,
        self_cpu_time: 0,
    }
}

#[test]
fn self_durations_from_sample_times() {
    let mut v = vec![sample(100, 0, vec![]), sample(130, 0, vec![]), sample(175, 0, vec![])];
    set_self_durations(&mut v);
    assert_eq!(v.iter().map(|t| t.self_duration).collect::<Vec<i64>>(), vec![0, 30, 45]);
}

#[test]
fn cpu_time_spread_evenly() {
    let mut v = vec![sample(1, 10, vec![]), sample(2, 10, vec![]), sample(3, 10, vec![]), sample(4, 99, vec![])];
    divide_cpu_time(&mut v, 0, 3, 10, 20);
    assert_eq!(v.iter().map(|t| t.cpu_time).collect::<Vec<i64>>(), vec![13, 16, 19, 99]);
    divide_cpu_time(&mut v, 3, 4, 20, 10);
    assert_eq!(v[3].cpu_time, 10);
}

#[test]
fn collapsed_stacks() {
    let mut a = sample(100, 0, vec![3, 2, 1]);
    a.self_duration = 42;
    a.self_cpu_time = 7;
    let names = vec![(1, "Main.main()".to_string()), (2, "A.run()".to_string())];
    let v = vec![a];
    assert_eq!(get_collapsed_call_stacks(&v, &names, StatsType::DURATION), vec!["Main.main();A.run();3 42".to_string()]);
    assert_eq!(get_collapsed_call_stacks(&v, &names, StatsType::CPU_TIME), vec!["Main.main();A.run();3 7".to_string()]);
    let b = vec![sample(1, 0, vec![5, 1])];
    assert_eq!(get_collapsed_call_stacks(&b, &vec![], StatsType::SAMPLES), vec![";1;5 1".to_string()]);
}
