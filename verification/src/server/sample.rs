//! What the collector records of a sampled JVM: its threads and their
//! stacks, the methods seen, the sampling session, and how call stacks are
//! weighed.
use crate::file_utils::str_chars_eq;
use vstd::prelude::*;

verus! {

/// One sample of a thread, with the amounts derived for it.
#[derive(Clone)]
pub struct ThreadData {
    pub id: i64,
    pub name: String,
    pub priority: u32,
    pub daemon: bool,
    pub state: String,
    pub cpu_time: i64,
    pub cpu_time_delta: i64,
    pub sample_time: i64,
    /// How many samples this one stands for (1 when not recorded).
    pub sample_count: i64,
    /// The stack, innermost frame first.
    pub stacktrace: Vec<i64>,
    pub duration: i64,
    pub self_duration: i64,
    pub self_cpu_time: i64,
}

/// A method seen in the samples.
#[derive(Clone)]
pub struct MethodInfo {
    pub method_id: i64,
    pub full_name: String,
    pub hits_count: u32,
}

/// The sampling session and the latest sample of each thread.
pub struct DashboardInfo {
    pub sample_info: SampleInfo,
    pub threads: Vec<ThreadData>,
}

/// The sampling session: how often it samples, when sampling and recording
/// started, when the last sample was recorded, the agent and where the
/// samples are stored.
pub struct SampleInfo {
    pub sample_interval: i64,
    pub sample_start_time: i64,
    pub record_start_time: i64,
    pub last_record_time: i64,
    pub agent_addr: String,
    pub sample_data_dir: String,
}

/// What the collector saves of a session: the session and its threads.
pub struct SummaryInfo {
    sample_info: SampleInfo,
    threads: Vec<ThreadData>,
}

/// How a call stack is weighed.
#[derive(Clone, Copy, PartialEq, Eq, Debug, Structural)]
pub enum StatsType {
    /// By the time its samples cover.
    DURATION,
    /// By the CPU time its samples used.
    CPU_TIME,
    /// By the number of its samples.
    SAMPLES,
}

/// The weighing a name stands for.
pub open spec fn stats_type_named(name: Seq<char>) -> Option<StatsType> {
    if name == "duration"@ {
        Some(StatsType::DURATION)
    } else if name == "cpu_time"@ {
        Some(StatsType::CPU_TIME)
    } else if name == "samples"@ {
        Some(StatsType::SAMPLES)
    } else {
        None
    }
}

impl StatsType {
    /// The weighing named `duration`, `cpu_time` or `samples`.
    pub fn from_name(name: &str) -> (r: Option<StatsType>)
        ensures
            r == stats_type_named(name@),
    {
        if str_chars_eq(name, "duration") {
            Some(StatsType::DURATION)
        } else if str_chars_eq(name, "cpu_time") {
            Some(StatsType::CPU_TIME)
        } else if str_chars_eq(name, "samples") {
            Some(StatsType::SAMPLES)
        } else {
            None
        }
    }
}

} // verus!
