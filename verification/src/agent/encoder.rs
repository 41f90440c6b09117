//! The RESP messages the agent sends the collector for its samples.
use super::sample::{MethodData, SampleData, ThreadData};
use crate::protocol::{int_array, is_int, is_int_array, is_text, resp_bytes, text, RespValue};
use vstd::prelude::*;

verus! {

/// Whether `v` is the `thread` message of a sample: its time, thread id,
/// name, CPU time, state and stack, each after its property name.
pub open spec fn is_thread_message(v: RespValue, t: ThreadData) -> bool {
    &&& v matches RespValue::Array(items)
    &&& items@.len() == 13
    &&& is_text(items@[0], "thread"@)
    &&& is_text(items@[1], "time"@)
    &&& is_int(items@[2], t.sample_time)
    &&& is_text(items@[3], "id"@)
    &&& is_int(items@[4], t.id)
    &&& is_text(items@[5], "name"@)
    &&& is_text(items@[6], t.name@)
    &&& is_text(items@[7], "cpu_time"@)
    &&& is_int(items@[8], t.cpu_time)
    &&& is_text(items@[9], "state"@)
    &&& is_text(items@[10], t.state@)
    &&& is_text(items@[11], "stacktrace"@)
    &&& is_int_array(items@[12], t.stacktrace@)
}

/// Whether `v` is the `method` message of a method: its id and full name.
pub open spec fn is_method_message(v: RespValue, m: MethodData) -> bool {
    &&& v matches RespValue::Array(items)
    &&& items@.len() == 5
    &&& is_text(items@[0], "method"@)
    &&& is_text(items@[1], "id"@)
    &&& is_int(items@[2], m.method_id)
    &&& is_text(items@[3], "name"@)
    &&& is_text(items@[4], m.full_name@)
}

/// The `thread` message of a sample.
pub fn resp_encode_thread_data(thread_data: &ThreadData) -> (r: RespValue)
    ensures
        is_thread_message(r, *thread_data),
{
    let items = vec![
        text("thread"),
        text("time"),
        RespValue::Integer(thread_data.sample_time),
        text("id"),
        RespValue::Integer(thread_data.id),
        text("name"),
        RespValue::String(thread_data.name.clone()),
        text("cpu_time"),
        RespValue::Integer(thread_data.cpu_time),
        text("state"),
        RespValue::String(thread_data.state.clone()),
        text("stacktrace"),
        resp_encode_stacktrace(thread_data),
    ];
    RespValue::Array(items)
}

/// The stack of a sample as an array of method ids, innermost first.
fn resp_encode_stacktrace(thread_data: &ThreadData) -> (r: RespValue)
    ensures
        is_int_array(r, thread_data.stacktrace@),
{
    int_array(&thread_data.stacktrace)
}

/// The `method` message of a method.
pub fn resp_encode_method_data(method_data: &MethodData) -> (r: RespValue)
    ensures
        is_method_message(r, *method_data),
{
    let items = vec![
        text("method"),
        text("id"),
        RespValue::Integer(method_data.method_id),
        text("name"),
        RespValue::String(method_data.full_name.clone()),
    ];
    RespValue::Array(items)
}

impl SampleData for ThreadData {
    /// The encoded `thread` message of the sample.
    fn encode(&self) -> (r: Vec<u8>)
        ensures
            exists|v: RespValue| #[trigger] is_thread_message(v, *self) && r@ == resp_bytes(v),
    {
        let v = resp_encode_thread_data(self);
        v.encode()
    }

    /// The kind of the sample: `thread`.
    fn get_type(&self) -> (r: String)
        ensures
            r@ == "thread"@,
    {
        "thread".to_owned()
    }
}

impl SampleData for MethodData {
    /// The encoded `method` message of the method.
    fn encode(&self) -> (r: Vec<u8>)
        ensures
            exists|v: RespValue| #[trigger] is_method_message(v, *self) && r@ == resp_bytes(v),
    {
        let v = resp_encode_method_data(self);
        v.encode()
    }

    /// The kind of the sample: `method`.
    fn get_type(&self) -> (r: String)
        ensures
            r@ == "method"@,
    {
        "method".to_owned()
    }
}

/// A reply to a command, held until it is sent: the command and the value
/// that answers it.
pub struct ResponseData {
    cmd: String,
    data: RespValue,
}

impl ResponseData {
    /// A reply to `cmd` with the value `data`.
    pub fn new(cmd: String, data: RespValue) -> (r: ResponseData)
        ensures
            r.command() == cmd@,
            r.value() == data,
    {
        ResponseData { cmd, data }
    }

    /// The command answered.
    pub closed spec fn command(&self) -> Seq<char> {
        self.cmd@
    }

    /// The value that answers it.
    pub closed spec fn value(&self) -> RespValue {
        self.data
    }
}

impl SampleData for ResponseData {
    /// The encoded reply value.
    fn encode(&self) -> (r: Vec<u8>)
        ensures
            r@ == resp_bytes(self.value()),
    {
        self.data.encode()
    }

    /// The kind of the reply: the command it answers.
    fn get_type(&self) -> (r: String)
        ensures
            r@ == self.command(),
    {
        self.cmd.clone()
    }
}

} // verus!
