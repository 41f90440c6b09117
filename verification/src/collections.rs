//! Typed lookups in the properties read from a file header: a property set
//! later in the header replaces one of the same name set earlier.
use crate::text::{chars_of, parse_i64, parse_in_range};
use vstd::prelude::*;

verus! {

/// The value of the last property named `key`, if there is one.
pub open spec fn header_lookup(es: Seq<(Seq<char>, Seq<char>)>, key: Seq<char>) -> Option<
    Seq<char>,
>
    decreases es.len(),
{
    if es.len() == 0 {
        None
    } else if es.last().0 == key {
        Some(es.last().1)
    } else {
        header_lookup(es.drop_last(), key)
    }
}

/// The characters of each (name, value) property.
pub open spec fn props_view(map: Seq<(String, String)>) -> Seq<(Seq<char>, Seq<char>)> {
    Seq::new(map.len(), |i: int| (map[i].0@, map[i].1@))
}

/// The value of the last property named `key`.
pub fn lookup<'a>(map: &'a Vec<(String, String)>, key: &str) -> (r: Option<&'a String>)
    ensures
        match header_lookup(props_view(map@), key@) {
            Some(v) => r matches Some(s) && s@ == v,
            None => r is None,
        },
{
    let k = key.to_owned();
    let mut i = map.len();
    assert(props_view(map@).take(i as int) =~= props_view(map@));
    while i > 0
        invariant
            i <= map@.len(),
            k@ == key@,
            header_lookup(props_view(map@), key@) == header_lookup(props_view(map@).take(i as int), key@),
        decreases i,
    {
        let ghost pre = props_view(map@).take(i as int);
        assert(pre.drop_last() =~= props_view(map@).take(i - 1));
        if map[i - 1].0 == k {
            return Some(&map[i - 1].1);
        }
        i = i - 1;
    }
    None
}

/// Whether the property `key` is present and its value is a decimal number
/// from `lo` to `hi`.
pub open spec fn has_int_prop(map: Seq<(String, String)>, key: Seq<char>, lo: int, hi: int) -> bool {
    header_lookup(props_view(map), key) matches Some(v) && parse_in_range(v, lo, hi) is Some
}

/// The number the property `key` holds.
pub open spec fn int_prop(map: Seq<(String, String)>, key: Seq<char>) -> int {
    crate::text::decimal_value(header_lookup(props_view(map), key).unwrap()).unwrap()
}

/// The property `key` read as an `i64`: `map.get(key).unwrap().parse().unwrap()`.
pub fn get_as_i64(map: &Vec<(String, String)>, key: &str) -> (r: i64)
    requires
        has_int_prop(map@, key@, i64::MIN as int, i64::MAX as int),
    ensures
        r == int_prop(map@, key@),
{
    match lookup(map, key) {
        Some(v) => {
            let cs = chars_of(v.as_str());
            match parse_i64(cs.as_slice()) {
                Some(x) => x,
                None => {
                    assert(false);
                    0
                },
            }
        },
        None => {
            assert(false);
            0
        },
    }
}

/// The property `key` read as an `i32`.
pub fn get_as_i32(map: &Vec<(String, String)>, key: &str) -> (r: i32)
    requires
        has_int_prop(map@, key@, i32::MIN as int, i32::MAX as int),
    ensures
        r == int_prop(map@, key@),
{
    let x = get_as_i64(map, key);
    x as i32
}

/// The property `key` read as an `i8`.
pub fn get_as_i8(map: &Vec<(String, String)>, key: &str) -> (r: i8)
    requires
        has_int_prop(map@, key@, i8::MIN as int, i8::MAX as int),
    ensures
        r == int_prop(map@, key@),
{
    let x = get_as_i64(map, key);
    x as i8
}

/// The property `key` read as an `i64`, when it is present and is a decimal
/// number that fits; nothing otherwise (where `get_as_i64` would panic).
pub fn try_get_as_i64(map: &Vec<(String, String)>, key: &str) -> (r: Option<i64>)
    ensures
        r matches Some(x) ==> has_int_prop(map@, key@, i64::MIN as int, i64::MAX as int) && x
            == int_prop(map@, key@),
        r is None ==> !has_int_prop(map@, key@, i64::MIN as int, i64::MAX as int),
{
    match lookup(map, key) {
        Some(v) => {
            let cs = chars_of(v.as_str());
            match parse_i64(cs.as_slice()) {
                Some(_) => Some(get_as_i64(map, key)),
                None => None,
            }
        },
        None => None,
    }
}

} // verus!
