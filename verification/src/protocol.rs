//! The RESP values that the agent and the collector exchange, and their
//! wire encoding.
use crate::text::int_to_decimal;
use vstd::prelude::*;
use vstd::utf8::encode_utf8;

verus! {

/// A RESP value.
#[derive(Debug)]
pub enum RespValue {
    /// The null bulk reply, `$-1\r\n`.
    Null,
    /// The null array reply, `*-1\r\n`.
    NullArray,
    /// A simple string, `+` first.
    String(String),
    /// An error, `-` first.
    Error(String),
    /// An integer, `:` first.
    Integer(i64),
    /// A bulk string, `$` first.
    Bulk(String),
    /// A bulk of bytes, `$` first.
    BufBulk(Vec<u8>),
    /// An array, `*` first.
    Array(Vec<RespValue>),
}

/// The line end.
pub open spec fn crlf() -> Seq<u8> {
    seq![13u8, 10u8]
}

/// The decimal text of a count or an integer, as bytes.
pub open spec fn decimal_bytes(i: int) -> Seq<u8> {
    encode_utf8(int_to_decimal(i))
}

/// The RESP encoding of a value.
pub open spec fn resp_bytes(v: RespValue) -> Seq<u8>
    decreases v,
{
    match v {
        RespValue::Null => seq![36u8, 45u8, 49u8, 13u8, 10u8],
        RespValue::NullArray => seq![42u8, 45u8, 49u8, 13u8, 10u8],
        RespValue::String(s) => seq![43u8] + encode_utf8(s@) + crlf(),
        RespValue::Error(s) => seq![45u8] + encode_utf8(s@) + crlf(),
        RespValue::Integer(i) => seq![58u8] + decimal_bytes(i as int) + crlf(),
        RespValue::Bulk(s) => seq![36u8] + decimal_bytes(encode_utf8(s@).len() as int) + crlf()
            + encode_utf8(s@) + crlf(),
        RespValue::BufBulk(b) => seq![36u8] + decimal_bytes(b@.len() as int) + crlf() + b@ + crlf(),
        RespValue::Array(items) => seq![42u8] + decimal_bytes(items@.len() as int) + crlf()
            + resp_seq_bytes(items@),
    }
}

/// The RESP encodings of the values, one after the other.
pub open spec fn resp_seq_bytes(s: Seq<RespValue>) -> Seq<u8>
    decreases s,
{
    if s.len() == 0 {
        Seq::empty()
    } else {
        resp_seq_bytes(s.drop_last()) + resp_bytes(s.last())
    }
}

/// `resp::Value`, the RESP value of the `resp` crate, carried opaquely.
#[verifier::external_type_specification]
#[verifier::external_body]
pub struct ExWireValue(resp::Value);

/// The `resp::Value` holding the same value as `v`, variant for variant.
#[verifier::external_body]
fn to_wire(v: &RespValue) -> resp::Value {
    match v {
        RespValue::Null => resp::Value::Null,
        RespValue::NullArray => resp::Value::NullArray,
        RespValue::String(s) => resp::Value::String(s.clone()),
        RespValue::Error(s) => resp::Value::Error(s.clone()),
        RespValue::Integer(i) => resp::Value::Integer(*i),
        RespValue::Bulk(s) => resp::Value::Bulk(s.clone()),
        RespValue::BufBulk(b) => resp::Value::BufBulk(b.clone()),
        RespValue::Array(items) => resp::Value::Array(items.iter().map(to_wire).collect()),
    }
}

/// `resp::encode` on the same value: its RESP encoding, `resp_bytes`.
#[verifier::external_body]
fn wire_encode(value: &RespValue) -> (r: Vec<u8>)
    ensures
        r@ == resp_bytes(*value),
{
    resp::encode(&to_wire(value))
}

impl RespValue {
    /// A copy of this value, item by item.
    pub fn duplicate(&self) -> (r: RespValue)
        ensures
            same_value(r, *self),
        decreases self,
    {
        match self {
            RespValue::Null => RespValue::Null,
            RespValue::NullArray => RespValue::NullArray,
            RespValue::String(s) => RespValue::String(s.clone()),
            RespValue::Error(s) => RespValue::Error(s.clone()),
            RespValue::Integer(i) => RespValue::Integer(*i),
            RespValue::Bulk(s) => RespValue::Bulk(s.clone()),
            RespValue::BufBulk(b) => {
                let mut out: Vec<u8> = Vec::new();
                let mut i: usize = 0;
                while i < b.len()
                    invariant
                        i <= b@.len(),
                        out@ == b@.take(i as int),
                    decreases b@.len() - i,
                {
                    out.push(b[i]);
                    i = i + 1;
                    assert(out@ =~= b@.take(i as int));
                }
                assert(out@ =~= b@);
                RespValue::BufBulk(out)
            },
            RespValue::Array(items) => {
                let mut out: Vec<RespValue> = Vec::new();
                let mut i: usize = 0;
                while i < items.len()
                    invariant
                        i <= items@.len(),
                        out@.len() == i,
                        forall|j: int| 0 <= j < i ==> same_value(#[trigger] out@[j], items@[j]),
                        *self == RespValue::Array(*items),
                    decreases items@.len() - i,
                {
                    proof {
                        vstd::std_specs::vec::axiom_vec_index_decreases(*items, i as int);
                        assert(decreases_to!(*self => self->Array_0));
                    }
                    let v = items[i].duplicate();
                    out.push(v);
                    i = i + 1;
                }
                RespValue::Array(out)
            },
        }
    }

    /// The RESP encoding of this value.
    pub fn encode(&self) -> (r: Vec<u8>)
        ensures
            r@ == resp_bytes(*self),
    {
        wire_encode(self)
    }
}

/// Whether two values are the same: the same variant holding the same
/// text, number, bytes or items.
pub open spec fn same_value(a: RespValue, b: RespValue) -> bool
    decreases a,
{
    match a {
        RespValue::Array(x) => match b {
            RespValue::Array(y) => x@.len() == y@.len() && forall|i: int|
                0 <= i < x@.len() ==> same_value(#[trigger] x@[i], y@[i]),
            _ => false,
        },
        RespValue::BufBulk(x) => match b {
            RespValue::BufBulk(y) => x@ == y@,
            _ => false,
        },
        _ => a == b,
    }
}

/// The properties named in `data` by the `k` items at `x0`, `x0 + 2`, ...:
/// each simple-string name maps to the item after it, a later name
/// replacing an earlier one.
pub open spec fn named_values(data: Seq<RespValue>, x0: int, k: nat) -> Map<Seq<char>, RespValue>
    decreases k,
{
    if k == 0 {
        Map::empty()
    } else {
        let m = named_values(data, x0, (k - 1) as nat);
        let x = x0 + 2 * (k - 1);
        match data[x] {
            RespValue::String(name) => m.insert(name@, data[x + 1]),
            _ => m,
        }
    }
}

/// Whether the entries `s` (name, value) hold exactly the map `m`: each
/// name once, with the same value as the map.
pub open spec fn entries_hold(s: Seq<(String, RespValue)>, m: Map<Seq<char>, RespValue>) -> bool {
    &&& forall|i: int, j: int| 0 <= i < j < s.len() ==> #[trigger] s[i].0@ != #[trigger] s[j].0@
    &&& forall|i: int|
        0 <= i < s.len() ==> m.contains_key(#[trigger] s[i].0@) && same_value(s[i].1, m[s[i].0@])
    &&& forall|key: Seq<char>| #[trigger]
        m.contains_key(key) ==> exists|i: int| 0 <= i < s.len() && s[i].0@ == key
}

/// Whether `v` is the simple string `s`.
pub open spec fn is_text(v: RespValue, s: Seq<char>) -> bool {
    v matches RespValue::String(x) && x@ == s
}

/// Whether `v` is the integer `i`.
pub open spec fn is_int(v: RespValue, i: i64) -> bool {
    v matches RespValue::Integer(x) && x == i
}

/// Whether `v` is an array of the given integers.
pub open spec fn is_int_array(v: RespValue, ints: Seq<i64>) -> bool {
    v matches RespValue::Array(items) && items@.len() == ints.len() && forall|k: int|
        0 <= k < ints.len() ==> is_int(#[trigger] items@[k], ints[k])
}

/// An array of the given integers, in order.
pub fn int_array(ints: &Vec<i64>) -> (r: RespValue)
    ensures
        is_int_array(r, ints@),
{
    let mut items: Vec<RespValue> = Vec::new();
    let mut k: usize = 0;
    while k < ints.len()
        invariant
            k <= ints@.len(),
            items@.len() == k,
            forall|j: int| 0 <= j < k ==> is_int(#[trigger] items@[j], ints@[j]),
        decreases ints@.len() - k,
    {
        items.push(RespValue::Integer(ints[k]));
        k = k + 1;
    }
    RespValue::Array(items)
}

/// The simple string `s`.
pub fn text(s: &str) -> (r: RespValue)
    ensures
        is_text(r, s@),
{
    RespValue::String(s.to_owned())
}

} // verus!
