//! What the agent decides when the JVM loads it or attaches it: how often
//! to sample, whether to start or stop tracing, and, in the sampling loop,
//! when to read the threads' CPU times again.
use super::options::Options;
use crate::collections::header_lookup;
use crate::file_utils::str_chars_eq;
use crate::text::{chars_of, parse_u64, parse_u64_value};
use vstd::prelude::*;

verus! {

/// The sampling interval, in milliseconds, when the options name none.
pub const DEFAULT_SAMPLE_INTERVAL: u64 = 20;

/// How long, in milliseconds, the CPU times read in the sampling loop stay
/// current.
pub const CPU_TIME_REFRESH_MS: i64 = 50;

/// Whether the argument `interval`, when given, is a number of
/// milliseconds.
pub open spec fn interval_ok(options: Options) -> bool {
    header_lookup(options.model().custom_args, "interval"@) matches Some(v) ==> parse_u64_value(v) is Some
}

/// The sampling interval the options ask for.
pub open spec fn interval_of(options: Options) -> u64 {
    match header_lookup(options.model().custom_args, "interval"@) {
        Some(v) => parse_u64_value(v)->Some_0,
        None => DEFAULT_SAMPLE_INTERVAL,
    }
}

/// The sampling interval, in milliseconds: the argument `interval` when it
/// is given, 20 otherwise.
pub fn sample_interval(options: &Options) -> (r: u64)
    requires
        interval_ok(*options),
    ensures
        r == interval_of(*options),
{
    match options.custom_arg("interval") {
        Some(text) => {
            let cs = chars_of(text.as_str());
            match parse_u64(cs.as_slice()) {
                Some(v) => v,
                None => DEFAULT_SAMPLE_INTERVAL,
            }
        },
        None => DEFAULT_SAMPLE_INTERVAL,
    }
}

/// What the agent does when it is attached.
#[derive(Clone, Copy, PartialEq, Eq, Debug, Structural)]
pub enum TraceAction {
    /// Start tracing, sampling every so many milliseconds.
    Start(u64),
    /// Tracing runs already: nothing to do.
    AlreadyRunning,
    /// Stop tracing.
    Stop,
    /// The options say nothing of tracing.
    Nothing,
}

/// What the argument `trace` asks of an agent being attached: `on` starts
/// tracing (unless it runs already), any other value stops it.
pub open spec fn trace_action_of(options: Options, trace_running: bool) -> TraceAction {
    match header_lookup(options.model().custom_args, "trace"@) {
        None => TraceAction::Nothing,
        Some(v) => if v == "on"@ {
            if trace_running {
                TraceAction::AlreadyRunning
            } else {
                TraceAction::Start(interval_of(options))
            }
        } else {
            TraceAction::Stop
        },
    }
}

/// What to do when the agent is attached with these options, given whether
/// tracing runs already.
pub fn attach_action(options: &Options, trace_running: bool) -> (r: TraceAction)
    requires
        header_lookup(options.model().custom_args, "trace"@) == Some("on"@) && !trace_running
            ==> interval_ok(*options),
    ensures
        r == trace_action_of(*options, trace_running),
{
    match options.custom_arg("trace") {
        None => TraceAction::Nothing,
        Some(v) => {
            if str_chars_eq(v.as_str(), "on") {
                if trace_running {
                    TraceAction::AlreadyRunning
                } else {
                    TraceAction::Start(sample_interval(options))
                }
            } else {
                TraceAction::Stop
            }
        },
    }
}

/// One turn of the sampling loop at time `now`: whether the threads' CPU
/// times are read again (more than 50 ms after the last read), and the
/// time of the last read afterwards.
pub fn cpu_time_refresh(last_read: i64, now: i64) -> (r: (bool, i64))
    requires
        i64::MIN <= now - last_read <= i64::MAX,
    ensures
        r.0 == (now - last_read > CPU_TIME_REFRESH_MS),
        r.1 == if r.0 {
            now
        } else {
            last_read
        },
{
    let update = now - last_read > CPU_TIME_REFRESH_MS;
    if update {
        (true, now)
    } else {
        (false, last_read)
    }
}

} // verus!
