//! The RESP form of a stored thread sample: its properties, its stack as
//! a bulk of 64-bit method ids in the machine's byte order, and reading a
//! sample back from such a message.
use super::sample::ThreadData;
use crate::endian::{lemma_ne_u64_injective, ne_bytes_i64, ne_u64, read_ne_i64};
use crate::file_utils::str_chars_eq;
use crate::protocol::{is_int, is_text, text, RespValue};
use vstd::prelude::*;

verus! {

/// Whether `b` is the eight bytes of `v` in the machine's byte order.
pub open spec fn ne_encodes(b: Seq<u8>, v: i64) -> bool {
    b == ne_u64(v as u64)
}

/// Whether `b` holds the method ids of `frames`, eight bytes each in the
/// machine's byte order.
pub open spec fn stack_bulk(b: Seq<u8>, frames: Seq<i64>) -> bool {
    &&& b.len() == 8 * frames.len()
    &&& forall|k: int|
        0 <= k < frames.len() ==> ne_encodes(#[trigger] b.subrange(8 * k, 8 * k + 8), frames[k])
}

/// Whether `v` is the `thread` message of a stored sample: its time,
/// thread id, name, CPU time, CPU time since the last sample and state,
/// each after its property name, and its stack as a bulk.
pub open spec fn is_thread_message(v: RespValue, t: ThreadData) -> bool {
    &&& v matches RespValue::Array(items)
    &&& items@.len() == 15
    &&& is_text(items@[0], "thread"@)
    &&& is_text(items@[1], "time"@)
    &&& is_int(items@[2], t.sample_time)
    &&& is_text(items@[3], "id"@)
    &&& is_int(items@[4], t.id)
    &&& is_text(items@[5], "name"@)
    &&& is_text(items@[6], t.name@)
    &&& is_text(items@[7], "cpu_time"@)
    &&& is_int(items@[8], t.cpu_time)
    &&& is_text(items@[9], "cpu_time_delta"@)
    &&& is_int(items@[10], t.cpu_time_delta)
    &&& is_text(items@[11], "state"@)
    &&& is_text(items@[12], t.state@)
    &&& is_text(items@[13], "stacktrace"@)
    &&& items@[14] matches RespValue::BufBulk(b) && stack_bulk(b@, t.stacktrace@)
}

/// The `thread` message of a stored sample.
pub fn resp_encode_thread_data(thread_data: &ThreadData) -> (r: RespValue)
    requires
        8 * thread_data.stacktrace@.len() <= usize::MAX,
    ensures
        is_thread_message(r, *thread_data),
{
    let items = vec![
        text("thread"),
        text("time"),
        RespValue::Integer(thread_data.sample_time),
        text("id"),
        RespValue::Integer(thread_data.id),
        text("name"),
        RespValue::String(thread_data.name.clone()),
        text("cpu_time"),
        RespValue::Integer(thread_data.cpu_time),
        text("cpu_time_delta"),
        RespValue::Integer(thread_data.cpu_time_delta),
        text("state"),
        RespValue::String(thread_data.state.clone()),
        text("stacktrace"),
        resp_encode_stacktrace(thread_data),
    ];
    RespValue::Array(items)
}

/// The stack of a sample as a bulk of its method ids, innermost first,
/// eight bytes each in the machine's byte order.
fn resp_encode_stacktrace(thread_data: &ThreadData) -> (r: RespValue)
    requires
        8 * thread_data.stacktrace@.len() <= usize::MAX,
    ensures
        r matches RespValue::BufBulk(b) && stack_bulk(b@, thread_data.stacktrace@),
{
    let frames = &thread_data.stacktrace;
    let mut bytes: Vec<u8> = Vec::new();
    let mut k: usize = 0;
    while k < frames.len()
        invariant
            k <= frames@.len(),
            8 * frames@.len() <= usize::MAX,
            bytes@.len() == 8 * k,
            forall|j: int|
                0 <= j < k ==> ne_encodes(#[trigger] bytes@.subrange(8 * j, 8 * j + 8), frames@[j]),
        decreases frames@.len() - k,
    {
        let ghost before = bytes@;
        let b = ne_bytes_i64(frames[k]);
        let mut m: usize = 0;
        while m < 8
            invariant
                m <= 8,
                b@.len() == 8,
                bytes@ == before + b@.take(m as int),
            decreases 8 - m,
        {
            bytes.push(b[m]);
            m = m + 1;
            assert(bytes@ =~= before + b@.take(m as int));
        }
        proof {
            assert(b@.take(8) =~= b@);
            assert forall|j: int| 0 <= j < k + 1 implies ne_encodes(
                #[trigger] bytes@.subrange(8 * j, 8 * j + 8),
                frames@[j],
            ) by {
                if j < k {
                    assert(bytes@.subrange(8 * j, 8 * j + 8) =~= before.subrange(8 * j, 8 * j + 8));
                } else {
                    assert(bytes@.subrange(8 * j, 8 * j + 8) =~= b@);
                }
            }
        }
        k = k + 1;
    }
    RespValue::BufBulk(bytes)
}

/// Whether `frames` are the 64-bit numbers of `b`, eight bytes each in the
/// machine's byte order (bytes past the last whole eight are ignored).
pub open spec fn vec64_of(b: Seq<u8>, frames: Seq<i64>) -> bool {
    &&& frames.len() == b.len() / 8
    &&& forall|k: int|
        0 <= k < frames.len() ==> ne_encodes(b.subrange(8 * k, 8 * k + 8), #[trigger] frames[k])
}

/// Reads the 64-bit numbers of a bulk, eight bytes each in the machine's
/// byte order; bytes past the last whole eight are ignored.
pub fn convert_to_vec64(vec8: Vec<u8>) -> (r: Vec<i64>)
    ensures
        vec64_of(vec8@, r@),
{
    let len = vec8.len();
    let n = len / 8;
    let mut frames: Vec<i64> = Vec::new();
    let mut k: usize = 0;
    while k < n
        invariant
            len == vec8@.len(),
            n == vec8@.len() / 8,
            k <= n,
            frames@.len() == k,
            forall|j: int|
                0 <= j < k ==> ne_encodes(vec8@.subrange(8 * j, 8 * j + 8), #[trigger] frames@[j]),
        decreases n - k,
    {
        assert(8 * k + 8 <= vec8@.len()) by (nonlinear_arith)
            requires
                k < n,
                n == vec8@.len() / 8,
        ;
        let v = read_ne_i64(vec8.as_slice(), 8 * k);
        frames.push(v);
        k = k + 1;
    }
    frames
}

/// A stack bulk reads back as the stack it holds: whatever bytes hold the
/// method ids of `frames`, eight each in the machine's order, the numbers
/// read from them in that order are `frames`, id for id.
pub proof fn lemma_stack_bulk_reads_back(b: Seq<u8>, frames: Seq<i64>, read: Seq<i64>)
    requires
        stack_bulk(b, frames),
        vec64_of(b, read),
    ensures
        read == frames,
{
    let n = frames.len();
    assert(b.len() / 8 == n) by (nonlinear_arith)
        requires
            b.len() == 8 * n,
    ;
    assert forall|k: int| 0 <= k < n implies read[k] == frames[k] by {
        let chunk = b.subrange(8 * k, 8 * k + 8);
        assert(ne_encodes(chunk, frames[k]));
        assert(ne_encodes(chunk, read[k]));
        lemma_ne_u64_injective(read[k] as u64, frames[k] as u64);
        let x = read[k];
        let y = frames[k];
        assert(x as u64 == y as u64 ==> x == y) by (bit_vector);
    }
    assert(read =~= frames);
}

/// A stored sample's stack survives its message: the message that encodes
/// sample `t` (what `resp_encode_thread_data` answers) is one that
/// `resp_decode_thread_data` reads, it has the stack bulk that reading takes
/// the stack from, and the stack read from that bulk is `t`'s stack.
pub proof fn lemma_thread_message_stack_reads_back(v: RespValue, t: ThreadData, read: Seq<i64>)
    requires
        is_thread_message(v, t),
    ensures
        v matches RespValue::Array(items) && sample_message_ok(items@) && stack_bulk_in(
            items@,
            name_count(items@.len() as int),
        ) is Some && (vec64_of(stack_bulk_in(items@, name_count(items@.len() as int))->Some_0, read)
            ==> read == t.stacktrace@),
{
    let items = v->Array_0@;
    assert(name_count(items.len() as int) == 7);
    let bulk = items[14]->BufBulk_0@;
    assert(stack_bulk_in(items, 7) == Some(bulk));
    if vec64_of(bulk, read) {
        lemma_stack_bulk_reads_back(bulk, t.stacktrace@, read);
    }
}

/// The property names a stored sample message is read by.
pub open spec fn is_sample_key(v: RespValue) -> bool {
    ||| is_text(v, "time"@)
    ||| is_text(v, "thread_id"@)
    ||| is_text(v, "cpu_time"@)
    ||| is_text(v, "cpu_time_delta"@)
    ||| is_text(v, "name"@)
    ||| is_text(v, "state"@)
    ||| is_text(v, "stacktrace"@)
}

/// The stack bulk of the last `stacktrace` property among the first `k`
/// names (at positions 1, 3, 5, ...) whose value is a bulk, if any.
pub open spec fn stack_bulk_in(data: Seq<RespValue>, k: int) -> Option<Seq<u8>>
    decreases k,
{
    if k <= 0 {
        None
    } else {
        let x = 2 * k - 1;
        if x + 1 < data.len() && is_text(data[x], "stacktrace"@) && data[x + 1] is BufBulk {
            Some(data[x + 1]->BufBulk_0@)
        } else {
            stack_bulk_in(data, k - 1)
        }
    }
}

/// How many names a message of `n` items has (at positions 1, 3, 5, ...).
pub open spec fn name_count(n: int) -> int {
    if n <= 1 {
        0
    } else {
        n / 2
    }
}

/// Whether reading a stored sample message never reads past its end: no
/// property name it reads by is its last item.
pub open spec fn sample_message_ok(data: Seq<RespValue>) -> bool {
    data.len() >= 2 && data.len() % 2 == 0 ==> !is_sample_key(data[data.len() - 1])
}

/// The integer of a value, or `default_value` when it is not an integer.
fn parse_as_int(resp_val: &RespValue, default_value: i64) -> (r: i64)
    ensures
        r == match *resp_val {
            RespValue::Integer(x) => x,
            _ => default_value,
        },
{
    if let RespValue::Integer(x) = resp_val {
        return *x;
    }
    default_value
}

/// The text of a simple string, or `default_value` when it is not one.
fn parse_as_string<'a>(resp_val: &'a RespValue, default_value: &'a str) -> (r: &'a str)
    ensures
        r@ == match *resp_val {
            RespValue::String(x) => x@,
            _ => default_value@,
        },
{
    if let RespValue::String(x) = resp_val {
        return x.as_str();
    }
    default_value
}

/// Whether `key` names one of the integer properties of a stored sample.
fn names_int_key(key: &str) -> (r: bool)
    ensures
        r == (key@ == "time"@ || key@ == "thread_id"@ || key@ == "cpu_time"@ || key@
            == "cpu_time_delta"@),
{
    str_chars_eq(key, "time") || str_chars_eq(key, "thread_id") || str_chars_eq(key, "cpu_time")
        || str_chars_eq(key, "cpu_time_delta")
}

/// Whether `key` names one of the text properties of a stored sample.
fn names_text_key(key: &str) -> (r: bool)
    ensures
        r == (key@ == "name"@ || key@ == "state"@),
{
    str_chars_eq(key, "name") || str_chars_eq(key, "state")
}

/// Reads a stored sample back from its message: only the stack is taken
/// (from the last `stacktrace` property whose value is a bulk); the other
/// properties are read but not kept, so the sample's id, times and
/// durations are zero, its name and state empty, and its sample count one.
pub fn resp_decode_thread_data(data_vec: &Vec<RespValue>) -> (r: ThreadData)
    requires
        sample_message_ok(data_vec@),
    ensures
        r.id == 0,
        r.name@ == Seq::<char>::empty(),
        r.priority == 0,
        !r.daemon,
        r.state@ == Seq::<char>::empty(),
        r.cpu_time == 0,
        r.cpu_time_delta == 0,
        r.sample_time == 0,
        r.sample_count == 1,
        r.duration == 0,
        r.self_duration == 0,
        r.self_cpu_time == 0,
        match stack_bulk_in(data_vec@, name_count(data_vec@.len() as int)) {
            Some(b) => vec64_of(b, r.stacktrace@),
            None => r.stacktrace@ == Seq::<i64>::empty(),
        },
{
    let mut stacktrace: Vec<i64> = Vec::new();
    let n = data_vec.len();
    let mut x: usize = 1;
    while x < n
        invariant
            n == data_vec@.len(),
            x % 2 == 1,
            x <= n + 1,
            sample_message_ok(data_vec@),
            match stack_bulk_in(data_vec@, (x / 2) as int) {
                Some(b) => vec64_of(b, stacktrace@),
                None => stacktrace@ == Seq::<i64>::empty(),
            },
        decreases n + 1 - x,
    {
        let ghost k: int = (x / 2) as int;
        assert(2 * (k + 1) - 1 == x);
        if let RespValue::String(key) = &data_vec[x] {
            if str_chars_eq(key.as_str(), "stacktrace") {
                proof {
                    reveal_strlit("stacktrace");
                }
                assert(is_text(data_vec@[x as int], "stacktrace"@));
                assert(x + 1 < n);
                if let RespValue::BufBulk(vec) = &data_vec[x + 1] {
                    let bytes = vec.clone();
                    assert(bytes@ =~= vec@);
                    stacktrace = convert_to_vec64(bytes);
                }
            } else if names_int_key(key.as_str()) {
                assert(x + 1 < n);
                let _ = parse_as_int(&data_vec[x + 1], 0);
            } else if names_text_key(key.as_str()) {
                assert(x + 1 < n);
                let _ = parse_as_string(&data_vec[x + 1], "");
            }
        }
        x = x + 2;
    }
    assert(x / 2 == name_count(n as int));
    ThreadData {
        id: 0,
        name: String::new(),
        priority: 0,
        daemon: false,
        state: String::new(),
        cpu_time: 0,
        cpu_time_delta: 0,
        sample_time: 0,
        sample_count: 1,
        stacktrace,
        duration: 0,
        self_duration: 0,
        self_cpu_time: 0,
    }
}

} // verus!
