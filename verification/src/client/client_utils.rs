//! Errors the client reports.
use crate::errors::{io_error, ErrorKind, IoError};
use crate::file_utils::str_chars_eq;
use crate::protocol::{named_values, RespValue};
use vstd::prelude::*;

verus! {

/// A failed result of the given kind with the given message.
pub fn new_error(kind: ErrorKind, msg: &str) -> (r: Result<(), IoError>)
    ensures
        r matches Err(e) && e.kind == kind && e.message@ == msg@,
{
    Err(io_error(kind, msg))
}

/// An `InvalidInput` error with the given message.
pub fn new_invalid_input_error(msg: &str) -> (r: IoError)
    ensures
        r.kind == ErrorKind::InvalidInput,
        r.message@ == msg@,
{
    io_error(ErrorKind::InvalidInput, msg)
}

/// Whether `v` is the simple string `key`.
pub open spec fn is_key(v: RespValue, key: Seq<char>) -> bool {
    v matches RespValue::String(name) && name@ == key
}

/// The position of the first name `key` among the names at `x`, `x + 2`,
/// ... of `data`, if there is one.
pub open spec fn key_from(data: Seq<RespValue>, x: int, key: Seq<char>) -> Option<int>
    decreases data.len() - x,
{
    if x < 0 || x >= data.len() {
        None
    } else if is_key(data[x], key) {
        Some(x)
    } else if x + 2 >= data.len() {
        None
    } else {
        key_from(data, x + 2, key)
    }
}

/// The first name position (from `start`, as a count) holding `key`.
pub open spec fn first_key(data: Seq<RespValue>, start: i32, key: Seq<char>) -> Option<int> {
    if start < 0 {
        None
    } else {
        key_from(data, start as int, key)
    }
}

/// The integer of the first property `key` (names at `x`, `x + 2`, ...)
/// whose value is an integer, or `default`.
pub open spec fn int_from(data: Seq<RespValue>, x: int, key: Seq<char>, default: i64) -> i64
    decreases data.len() - x,
{
    if x < 0 || x >= data.len() {
        default
    } else if is_key(data[x], key) && x + 1 < data.len() && data[x + 1] is Integer {
        data[x + 1]->Integer_0
    } else if x + 2 >= data.len() {
        default
    } else {
        int_from(data, x + 2, key, default)
    }
}

/// Whether the search for the first integer property `key` from `x` never
/// meets the name `key` as the last item (whose value it would read past
/// the end).
pub open spec fn int_search_ok(data: Seq<RespValue>, x: int, key: Seq<char>) -> bool
    decreases data.len() - x,
{
    if x < 0 || x >= data.len() {
        true
    } else if is_key(data[x], key) {
        x + 1 < data.len() && (data[x + 1] is Integer || x + 2 >= data.len() || int_search_ok(
            data,
            x + 2,
            key,
        ))
    } else if x + 2 >= data.len() {
        true
    } else {
        int_search_ok(data, x + 2, key)
    }
}

/// The string of the first property `key` (names at `x`, `x + 2`, ...)
/// whose value is a simple string, if there is one.
pub open spec fn str_from(data: Seq<RespValue>, x: int, key: Seq<char>) -> Option<Seq<char>>
    decreases data.len() - x,
{
    if x < 0 || x >= data.len() {
        None
    } else if is_key(data[x], key) && x + 1 < data.len() && data[x + 1] is String {
        Some(data[x + 1]->String_0@)
    } else if x + 2 >= data.len() {
        None
    } else {
        str_from(data, x + 2, key)
    }
}

/// Whether the search for the first string property `key` from `x` never
/// meets the name `key` as the last item.
pub open spec fn str_search_ok(data: Seq<RespValue>, x: int, key: Seq<char>) -> bool
    decreases data.len() - x,
{
    if x < 0 || x >= data.len() {
        true
    } else if is_key(data[x], key) {
        x + 1 < data.len() && (data[x + 1] is String || x + 2 >= data.len() || str_search_ok(
            data,
            x + 2,
            key,
        ))
    } else if x + 2 >= data.len() {
        true
    } else {
        str_search_ok(data, x + 2, key)
    }
}

/// Whether `v` is the simple string `key`.
pub fn names_key(v: &RespValue, key: &str) -> (r: bool)
    ensures
        r == is_key(*v, key@),
{
    match v {
        RespValue::String(name) => str_chars_eq(name.as_str(), key),
        _ => false,
    }
}

/// The value of the property `key` in a list of alternating names and
/// values starting at `start`: the item after the first name `key`.
pub fn get_resp_property<'a>(data_vec: &'a Vec<RespValue>, key: &str, start: i32) -> (r: Option<
    &'a RespValue,
>)
    requires
        first_key(data_vec@, start, key@) matches Some(x) ==> x + 1 < data_vec@.len(),
    ensures
        match first_key(data_vec@, start, key@) {
            Some(x) => r == Some(&data_vec@[x + 1]),
            None => r is None,
        },
{
    if start < 0 {
        return None;
    }
    let mut x: usize = start as usize;
    while x < data_vec.len()
        invariant
            start >= 0,
            first_key(data_vec@, start, key@) == key_from(data_vec@, x as int, key@),
            first_key(data_vec@, start, key@) matches Some(y) ==> y + 1 < data_vec@.len(),
        decreases data_vec@.len() - x,
    {
        if names_key(&data_vec[x], key) {
            return Some(&data_vec[x + 1]);
        }
        if data_vec.len() - x <= 2 {
            return None;
        }
        x = x + 2;
    }
    None
}

/// The integer value of the first property `key` (from `start`) whose value
/// is an integer, or `default_value`.
pub fn get_resp_property_as_int(data_vec: &Vec<RespValue>, key: &str, start: i32, default_value: i64) -> (r:
    i64)
    requires
        start >= 0 ==> int_search_ok(data_vec@, start as int, key@),
    ensures
        r == if start < 0 {
            default_value
        } else {
            int_from(data_vec@, start as int, key@, default_value)
        },
{
    if start < 0 {
        return default_value;
    }
    let mut x: usize = start as usize;
    while x < data_vec.len()
        invariant
            start >= 0,
            int_search_ok(data_vec@, x as int, key@),
            int_from(data_vec@, start as int, key@, default_value) == int_from(
                data_vec@,
                x as int,
                key@,
                default_value,
            ),
        decreases data_vec@.len() - x,
    {
        if names_key(&data_vec[x], key) {
            if let RespValue::Integer(v) = &data_vec[x + 1] {
                return *v;
            }
        }
        if data_vec.len() - x <= 2 {
            return default_value;
        }
        x = x + 2;
    }
    default_value
}

/// The string value of the first property `key` (from `start`) whose value
/// is a simple string, or `default_value`.
pub fn get_resp_property_as_str<'a>(
    data_vec: &'a Vec<RespValue>,
    key: &str,
    start: i32,
    default_value: &'a str,
) -> (r: &'a str)
    requires
        start >= 0 ==> str_search_ok(data_vec@, start as int, key@),
    ensures
        r@ == match (if start < 0 {
            None
        } else {
            str_from(data_vec@, start as int, key@)
        }) {
            Some(s) => s,
            None => default_value@,
        },
{
    if start < 0 {
        return default_value;
    }
    let mut x: usize = start as usize;
    while x < data_vec.len()
        invariant
            start >= 0,
            str_search_ok(data_vec@, x as int, key@),
            str_from(data_vec@, start as int, key@) == str_from(data_vec@, x as int, key@),
        decreases data_vec@.len() - x,
    {
        if names_key(&data_vec[x], key) {
            if let RespValue::String(v) = &data_vec[x + 1] {
                return v.as_str();
            }
        }
        if data_vec.len() - x <= 2 {
            return default_value;
        }
        x = x + 2;
    }
    default_value
}

/// How many names `parse_resp_properties` reads: those at `start`,
/// `start + 2`, ... before the end.
pub open spec fn property_count(len: int, start: i32) -> nat {
    if start < 0 || start >= len {
        0
    } else {
        ((len - start + 1) / 2) as nat
    }
}

/// Whether the references `s` (name, value) hold exactly the map `m`, each
/// name once.
pub open spec fn refs_hold(s: Seq<(&String, &RespValue)>, m: Map<Seq<char>, RespValue>) -> bool {
    &&& forall|i: int, j: int| 0 <= i < j < s.len() ==> #[trigger] s[i].0@ != #[trigger] s[j].0@
    &&& forall|i: int| 0 <= i < s.len() ==> m.contains_key(#[trigger] s[i].0@) && m[s[i].0@] == *s[i].1
    &&& forall|key: Seq<char>| #[trigger]
        m.contains_key(key) ==> exists|i: int| 0 <= i < s.len() && s[i].0@ == key
}

/// Sets the property `name` to `value`: replaces the value of an entry with
/// that name, or adds an entry.
fn put_property<'a>(
    entries: &mut Vec<(&'a String, &'a RespValue)>,
    name: &'a String,
    value: &'a RespValue,
    Ghost(m): Ghost<Map<Seq<char>, RespValue>>,
)
    requires
        refs_hold(old(entries)@, m),
    ensures
        refs_hold(final(entries)@, m.insert(name@, *value)),
{
    let mut j: usize = 0;
    while j < entries.len()
        invariant
            j <= entries@.len(),
            entries@ == old(entries)@,
            refs_hold(entries@, m),
            forall|t: int| 0 <= t < j ==> #[trigger] entries@[t].0@ != name@,
        decreases entries@.len() - j,
    {
        if str_chars_eq(entries[j].0.as_str(), name.as_str()) {
            let key = entries[j].0;
            let ghost before = entries@;
            entries.set(j, (key, value));
            proof {
                let m2 = m.insert(name@, *value);
                assert forall|i: int| 0 <= i < entries@.len() implies m2.contains_key(
                    #[trigger] entries@[i].0@,
                ) && m2[entries@[i].0@] == *entries@[i].1 by {
                    if i != j {
                        assert(entries@[i] == before[i]);
                        if i < j {
                            assert(before[i].0@ != before[j as int].0@);
                        } else {
                            assert(before[j as int].0@ != before[i].0@);
                        }
                    }
                }
                assert forall|k: Seq<char>| #[trigger] m2.contains_key(k) implies exists|i: int|
                    0 <= i < entries@.len() && entries@[i].0@ == k by {
                    if k != name@ {
                        let i = choose|i: int| 0 <= i < before.len() && before[i].0@ == k;
                        assert(entries@[i].0@ == k);
                    } else {
                        assert(entries@[j as int].0@ == k);
                    }
                }
                assert forall|a: int, b: int| 0 <= a < b < entries@.len() implies #[trigger] entries@[a].0@
                    != #[trigger] entries@[b].0@ by {
                    assert(before[a].0@ != before[b].0@);
                }
            }
            return;
        }
        j = j + 1;
    }
    let ghost before = entries@;
    entries.push((name, value));
    proof {
        let m2 = m.insert(name@, *value);
        assert forall|k: Seq<char>| #[trigger] m2.contains_key(k) implies exists|i: int|
            0 <= i < entries@.len() && entries@[i].0@ == k by {
            if k != name@ {
                let i = choose|i: int| 0 <= i < before.len() && before[i].0@ == k;
                assert(entries@[i].0@ == k);
            } else {
                assert(entries@[before.len() as int].0@ == k);
            }
        }
        assert forall|i: int| 0 <= i < entries@.len() implies m2.contains_key(#[trigger] entries@[i].0@)
            && m2[entries@[i].0@] == *entries@[i].1 by {
            if i < before.len() {
                assert(entries@[i] == before[i]);
            }
        }
        assert forall|a: int, b: int| 0 <= a < b < entries@.len() implies #[trigger] entries@[a].0@
            != #[trigger] entries@[b].0@ by {
            if b < before.len() {
                assert(before[a].0@ != before[b].0@);
            }
        }
    }
}

/// The properties in a list of alternating names and values from `start`:
/// each name that is a simple string with the value after it, a later name
/// replacing an earlier one; a name that is not a simple string is passed
/// over.
pub fn parse_resp_properties<'a>(data_vec: &'a Vec<RespValue>, start: i32) -> (r: Vec<
    (&'a String, &'a RespValue),
>)
    requires
        0 <= start < data_vec@.len() && (data_vec@.len() - start) % 2 == 1 ==> !(
        data_vec@[data_vec@.len() - 1] is String),
    ensures
        refs_hold(r@, named_values(data_vec@, start as int, property_count(data_vec@.len() as int, start))),
{
    let mut result: Vec<(&'a String, &'a RespValue)> = Vec::new();
    if start < 0 {
        return result;
    }
    let mut x: usize = start as usize;
    let ghost mut k: nat = 0;
    let ghost n = property_count(data_vec@.len() as int, start);
    while x < data_vec.len()
        invariant
            0 <= start,
            x == start + 2 * k,
            n == property_count(data_vec@.len() as int, start),
            x < data_vec@.len() ==> k < n,
            x >= data_vec@.len() ==> k == n,
            0 <= start < data_vec@.len() && (data_vec@.len() - start) % 2 == 1 ==> !(
            data_vec@[data_vec@.len() - 1] is String),
            refs_hold(result@, named_values(data_vec@, start as int, k)),
        decreases data_vec@.len() - x,
    {
        let ghost m = named_values(data_vec@, start as int, k);
        assert(named_values(data_vec@, start as int, k + 1) == match data_vec@[x as int] {
            RespValue::String(name) => m.insert(name@, data_vec@[x + 1]),
            _ => m,
        });
        match &data_vec[x] {
            RespValue::String(name) => {
                put_property(&mut result, name, &data_vec[x + 1], Ghost(m));
            },
            _ => {},
        }
        if data_vec.len() - x <= 2 {
            proof {
                k = k + 1;
            }
            return result;
        }
        x = x + 2;
        proof {
            k = k + 1;
        }
    }
    result
}

} // verus!
