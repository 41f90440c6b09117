//! The RESP message the client forwards for a thread sample.
use super::sampler_client::ThreadData;
use crate::protocol::{int_array, is_int, is_int_array, is_text, text, RespValue};
use vstd::prelude::*;

verus! {

/// Whether `v` is the `thread` message of a sample: its time, thread id,
/// name, CPU time, CPU time since the last sample, state and stack, each
/// after its property name.
pub open spec fn is_thread_message(v: RespValue, t: ThreadData) -> bool {
    &&& v matches RespValue::Array(items)
    &&& items@.len() == 15
    &&& is_text(items@[0], "thread"@)
    &&& is_text(items@[1], "time"@)
    &&& is_int(items@[2], t.sample_time)
    &&& is_text(items@[3], "id"@)
    &&& is_int(items@[4], t.id)
    &&& is_text(items@[5], "name"@)
    &&& is_text(items@[6], t.name@)
    &&& is_text(items@[7], "cpu_time"@)
    &&& is_int(items@[8], t.cpu_time)
    &&& is_text(items@[9], "cpu_time_delta"@)
    &&& is_int(items@[10], t.cpu_time_delta)
    &&& is_text(items@[11], "state"@)
    &&& is_text(items@[12], t.state@)
    &&& is_text(items@[13], "stacktrace"@)
    &&& is_int_array(items@[14], t.stacktrace@)
}

/// The `thread` message of a sample.
pub fn resp_encode_thread_data(thread_data: &ThreadData) -> (r: RespValue)
    ensures
        is_thread_message(r, *thread_data),
{
    let items = vec![
        text("thread"),
        text("time"),
        RespValue::Integer(thread_data.sample_time),
        text("id"),
        RespValue::Integer(thread_data.id),
        text("name"),
        RespValue::String(thread_data.name.clone()),
        text("cpu_time"),
        RespValue::Integer(thread_data.cpu_time),
        text("cpu_time_delta"),
        RespValue::Integer(thread_data.cpu_time_delta),
        text("state"),
        RespValue::String(thread_data.state.clone()),
        text("stacktrace"),
        resp_encode_stacktrace(thread_data),
    ];
    RespValue::Array(items)
}

/// The stack of a sample as an array of method ids, innermost first.
fn resp_encode_stacktrace(thread_data: &ThreadData) -> (r: RespValue)
    ensures
        is_int_array(r, thread_data.stacktrace@),
{
    int_array(&thread_data.stacktrace)
}

} // verus!
