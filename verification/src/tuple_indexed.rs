//! The tuple-indexed sample store: an index file of (index value, bulk
//! offset) tuples, and an extra file of length-prefixed bulk records.
use crate::endian::{
    be_bytes_u16, be_bytes_u32, be_bytes_u64, be_u16, be_u32, be_u64, from_be_u16, from_be_u32,
    from_be_u64, lemma_be_u16_roundtrip, lemma_be_u32_roundtrip, lemma_be_u64_roundtrip,
    read_be_u16, read_be_u32, read_be_u64,
};
use crate::collections::{get_as_i32, get_as_i64, get_as_i8, header_lookup, props_view};
use crate::errors::{io_error, ErrorKind, IoError};
use crate::file_utils::{
    entries_bytes, entries_view, header_body, header_file_prefix, header_readable, read_entries,
    read_header_info, stored_header_len, write_header_info,
};
use crate::text::{
    ascii_chars, i64_to_string, int_to_decimal, lemma_encode_ascii_len, lemma_int_decimal_len,
    parse_in_range, ten_pow,
};
use crate::clock::now_millis;
use crate::timeseries::FileWrite;
use crate::value_type::{get_unit_len, value_type_code, value_type_of_code, ValueType};
use vstd::utf8::{decode_utf8, encode_utf8};
use vstd::prelude::*;

verus! {

/// A value of an index tuple, with its element type.
#[allow(non_camel_case_types)]
#[derive(Clone, Copy, PartialEq, Eq, Hash, Debug, Structural)]
pub enum TupleValue {
    int16(i16),
    uint16(u16),
    int32(i32),
    uint32(u32),
    int64(i64),
}

/// The integer a tuple value holds.
pub open spec fn tuple_int(v: TupleValue) -> int {
    match v {
        TupleValue::int16(x) => x as int,
        TupleValue::uint16(x) => x as int,
        TupleValue::int32(x) => x as int,
        TupleValue::uint32(x) => x as int,
        TupleValue::int64(x) => x as int,
    }
}

/// The element type of a tuple value.
pub open spec fn tuple_type(v: TupleValue) -> ValueType {
    match v {
        TupleValue::int16(_) => ValueType::INT16,
        TupleValue::uint16(_) => ValueType::UINT16,
        TupleValue::int32(_) => ValueType::INT32,
        TupleValue::uint32(_) => ValueType::UINT32,
        TupleValue::int64(_) => ValueType::INT64,
    }
}

impl TupleValue {
    /// The integer this value holds.
    pub fn as_int(&self) -> (r: i64)
        ensures
            r == tuple_int(*self),
    {
        match self {
            TupleValue::int16(x) => *x as i64,
            TupleValue::uint16(x) => *x as i64,
            TupleValue::int32(x) => *x as i64,
            TupleValue::uint32(x) => *x as i64,
            TupleValue::int64(x) => *x,
        }
    }
}

/// The element type of a tuple value.
pub fn get_value_type(value: &TupleValue) -> (r: ValueType)
    ensures
        r == tuple_type(*value),
{
    match value {
        TupleValue::int16(_) => ValueType::INT16,
        TupleValue::uint16(_) => ValueType::UINT16,
        TupleValue::int32(_) => ValueType::INT32,
        TupleValue::uint32(_) => ValueType::UINT32,
        TupleValue::int64(_) => ValueType::INT64,
    }
}

/// The bytes a tuple value is stored as: big-endian, in its own width.
pub open spec fn tuple_bytes(v: TupleValue) -> Seq<u8> {
    match v {
        TupleValue::int16(x) => be_u16(x as u16),
        TupleValue::uint16(x) => be_u16(x),
        TupleValue::int32(x) => be_u32(x as u32),
        TupleValue::uint32(x) => be_u32(x),
        TupleValue::int64(x) => be_u64(x as u64),
    }
}

/// The width in bytes of a stored value of the given type (0 for
/// `UNKNOWN`, which cannot be stored).
pub open spec fn type_width(t: ValueType) -> int {
    match t {
        ValueType::INT16 => 2,
        ValueType::UINT16 => 2,
        ValueType::INT32 => 4,
        ValueType::UINT32 => 4,
        ValueType::INT64 => 8,
        ValueType::UNKNOWN => 0,
    }
}

/// The value of type `t` stored at `pos` in `b`, if `t` can be stored and
/// `b` holds all its bytes.
pub open spec fn decode_tuple(b: Seq<u8>, pos: int, t: ValueType) -> Option<TupleValue> {
    if t == ValueType::UNKNOWN || pos < 0 || pos + type_width(t) > b.len() {
        None
    } else {
        let w = b.subrange(pos, pos + type_width(t));
        Some(
            match t {
                ValueType::INT16 => TupleValue::int16(from_be_u16(w) as i16),
                ValueType::UINT16 => TupleValue::uint16(from_be_u16(w)),
                ValueType::INT32 => TupleValue::int32(from_be_u32(w) as i32),
                ValueType::UINT32 => TupleValue::uint32(from_be_u32(w)),
                _ => TupleValue::int64(from_be_u64(w) as i64),
            },
        )
    }
}

/// The bytes of a tuple value.
pub fn encode_tuple(v: &TupleValue) -> (r: Vec<u8>)
    ensures
        r@ == tuple_bytes(*v),
{
    match v {
        TupleValue::int16(x) => be_bytes_u16(*x as u16),
        TupleValue::uint16(x) => be_bytes_u16(*x),
        TupleValue::int32(x) => be_bytes_u32(*x as u32),
        TupleValue::uint32(x) => be_bytes_u32(*x),
        TupleValue::int64(x) => be_bytes_u64(*x as u64),
    }
}

/// Reads a value of type `index_type` at `pos`: answers it with the
/// position after it; fails with `InvalidInput` for `UNKNOWN` and with
/// `UnexpectedEof` when `reader` ends too early.
pub fn read_indexed_value(reader: &[u8], pos: usize, index_type: &ValueType) -> (r: Result<
    (TupleValue, usize),
    IoError,
>)
    ensures
        match decode_tuple(reader@, pos as int, *index_type) {
            Some(v) => r matches Ok((x, next)) && x == v && next == pos + type_width(*index_type),
            None => r matches Err(e) && (if *index_type == ValueType::UNKNOWN {
                e.kind == ErrorKind::InvalidInput
            } else {
                e.kind == ErrorKind::UnexpectedEof
            }),
        },
{
    let w: usize = match index_type {
        ValueType::INT16 => 2,
        ValueType::UINT16 => 2,
        ValueType::INT32 => 4,
        ValueType::UINT32 => 4,
        ValueType::INT64 => 8,
        ValueType::UNKNOWN => {
            return Err(io_error(ErrorKind::InvalidInput, "unsupported read index value"));
        },
    };
    if pos > reader.len() || reader.len() - pos < w {
        return Err(io_error(ErrorKind::UnexpectedEof, "failed to fill whole buffer"));
    }
    let v = match index_type {
        ValueType::INT16 => TupleValue::int16(read_be_u16(reader, pos) as i16),
        ValueType::UINT16 => TupleValue::uint16(read_be_u16(reader, pos)),
        ValueType::INT32 => TupleValue::int32(read_be_u32(reader, pos) as i32),
        ValueType::UINT32 => TupleValue::uint32(read_be_u32(reader, pos)),
        _ => TupleValue::int64(read_be_u64(reader, pos) as i64),
    };
    Ok((v, pos + w))
}

/// The (index value, bulk offset) records stored from `pos` on, up to the
/// first one that cannot be read whole.
pub open spec fn index_records(b: Seq<u8>, pos: int, it: ValueType, bt: ValueType) -> Seq<
    (TupleValue, TupleValue),
>
    decreases b.len() - pos,
{
    if pos < 0 || pos >= b.len() {
        Seq::empty()
    } else {
        match decode_tuple(b, pos, it) {
            None => Seq::empty(),
            Some(i) => match decode_tuple(b, pos + type_width(it), bt) {
                None => Seq::empty(),
                Some(o) => seq![(i, o)] + index_records(
                    b,
                    pos + type_width(it) + type_width(bt),
                    it,
                    bt,
                ),
            },
        }
    }
}

/// The last record of `key`, if there is one.
pub open spec fn tuple_lookup(pairs: Seq<(TupleValue, TupleValue)>, key: TupleValue) -> Option<
    TupleValue,
>
    decreases pairs.len(),
{
    if pairs.len() == 0 {
        None
    } else if pairs.last().0 == key {
        Some(pairs.last().1)
    } else {
        tuple_lookup(pairs.drop_last(), key)
    }
}

/// The bulk record stored at `off` in the extra file `b` (a big-endian
/// 16-bit length, then that many bytes), if `b` holds it whole.
pub open spec fn bulk_at(b: Seq<u8>, off: int) -> Option<Seq<u8>> {
    if off < 0 || off + 2 > b.len() {
        None
    } else {
        let n = from_be_u16(b.subrange(off, off + 2)) as int;
        if off + 2 + n > b.len() {
            None
        } else {
            Some(b.subrange(off + 2, off + 2 + n))
        }
    }
}

/// The position after the bulk record at `off`.
pub open spec fn bulk_end(b: Seq<u8>, off: int) -> int {
    off + 2 + from_be_u16(b.subrange(off, off + 2)) as int
}

/// The bytes a bulk record is stored as.
pub open spec fn bulk_record(bulk: Seq<u8>) -> Seq<u8> {
    be_u16(bulk.len() as u16) + bulk
}

/// Reads the bulk record at `bulk_offset`: answers its bytes and the
/// position after it; fails with `UnexpectedEof` when `extra_file` ends
/// inside it.
pub fn read_bulk_data(extra_file: &[u8], bulk_offset: u32) -> (r: Result<(Vec<u8>, u32), IoError>)
    ensures
        match bulk_at(extra_file@, bulk_offset as int) {
            Some(bytes) => r matches Ok((buf, next)) && buf@ == bytes && next == (bulk_end(
                extra_file@,
                bulk_offset as int,
            ) as u32),
            None => r matches Err(e) && e.kind == ErrorKind::UnexpectedEof,
        },
{
    let off = bulk_offset as usize;
    if off > extra_file.len() || extra_file.len() - off < 2 {
        return Err(io_error(ErrorKind::UnexpectedEof, "failed to fill whole buffer"));
    }
    let bytes_to_read = read_be_u16(extra_file, off) as usize;
    if extra_file.len() - off - 2 < bytes_to_read {
        return Err(io_error(ErrorKind::UnexpectedEof, "failed to fill whole buffer"));
    }
    let mut buf: Vec<u8> = Vec::new();
    let mut i: usize = 0;
    while i < bytes_to_read
        invariant
            off + 2 + bytes_to_read <= extra_file@.len(),
            extra_file@.len() <= usize::MAX,
            i <= bytes_to_read,
            buf@ == extra_file@.subrange(off + 2, off + 2 + i),
        decreases bytes_to_read - i,
    {
        buf.push(extra_file[off + 2 + i]);
        i = i + 1;
        assert(buf@ =~= extra_file@.subrange(off + 2, off + 2 + i));
    }
    let new_offset = off + 2 + bytes_to_read;
    Ok((buf, #[verifier::truncate] (new_offset as u32)))
}

/// What a tuple-indexed file holds, as plain values.
pub struct TupleFileModel {
    pub inited: bool,
    pub writable: bool,
    /// The (index value, bulk offset) records, in the order they were added.
    pub records: Seq<(TupleValue, TupleValue)>,
    /// The index values, in the order they were added.
    pub keys: Seq<TupleValue>,
    pub indexed_path: Seq<char>,
    pub indexed_data_offset: u64,
    pub extra_path: Seq<char>,
    pub extra_data_offset: u64,
    pub index_type: ValueType,
    pub bulk_offset_type: ValueType,
    pub unit_len: i8,
    pub begin_time: i64,
    pub end_time: i64,
    pub amount: i32,
}

/// The header properties of an index file (`indexed_file_v0.1`) or of an
/// extra file (`bulk_file_v0.1`) with the given metadata.
pub open spec fn tuple_header_props(m: TupleFileModel, version: Seq<char>) -> Seq<(Seq<char>, Seq<char>)> {
    seq![
        ("ver"@, version),
        ("first_el_type"@, int_to_decimal(value_type_code(m.index_type) as int)),
        ("second_el_type"@, int_to_decimal(value_type_code(m.bulk_offset_type) as int)),
        ("unit_len"@, int_to_decimal(m.unit_len as int)),
        ("begin_time"@, int_to_decimal(m.begin_time as int)),
        ("end_time"@, int_to_decimal(m.end_time as int)),
        ("amount"@, int_to_decimal(m.amount as int)),
    ]
}

/// One more property adds its name, its value and their two terminators to
/// the encoded properties.
proof fn lemma_entries_bytes_step(es: Seq<(Seq<char>, Seq<char>)>, k: int)
    requires
        0 < k <= es.len(),
    ensures
        entries_bytes(es.take(k)).len() == entries_bytes(es.take(k - 1)).len() + encode_utf8(
            es[k - 1].0,
        ).len() + encode_utf8(es[k - 1].1).len() + 2,
{
    assert(es.take(k).drop_last() =~= es.take(k - 1));
    assert(es.take(k).last() == es[k - 1]);
}

/// A property whose name and value are ASCII, of at most `n` characters in
/// all, takes at most `n + 2` bytes.
proof fn lemma_ascii_entry(e: (Seq<char>, Seq<char>), n: int)
    requires
        ascii_chars(e.0),
        ascii_chars(e.1),
        e.0.len() + e.1.len() <= n,
    ensures
        encode_utf8(e.0).len() + encode_utf8(e.1).len() + 2 <= n + 2,
{
    lemma_encode_ascii_len(e.0);
    lemma_encode_ascii_len(e.1);
}

/// The header of a tuple-indexed file always fits its room: whatever the
/// file's metadata (types, unit length, times, amount), the properties of
/// its index header (`indexed_file_v0.1`) or of its extra header
/// (`bulk_file_v0.1`) take at most 192 bytes, so writing them never fails.
pub proof fn lemma_tuple_header_fits(m: TupleFileModel, version: Seq<char>)
    requires
        version == "indexed_file_v0.1"@ || version == "bulk_file_v0.1"@,
    ensures
        header_body(tuple_header_props(m, version)).len() <= 192,
{
    reveal_strlit("indexed_file_v0.1");
    reveal_strlit("bulk_file_v0.1");
    reveal_strlit("ver");
    reveal_strlit("first_el_type");
    reveal_strlit("second_el_type");
    reveal_strlit("unit_len");
    reveal_strlit("begin_time");
    reveal_strlit("end_time");
    reveal_strlit("amount");
    let es = tuple_header_props(m, version);
    reveal_with_fuel(ten_pow, 20);
    assert(ten_pow(3) == 1000);
    assert(ten_pow(10) == 10000000000);
    assert(ten_pow(19) == 10000000000000000000);
    lemma_int_decimal_len(value_type_code(m.index_type) as int, 3);
    lemma_int_decimal_len(value_type_code(m.bulk_offset_type) as int, 3);
    lemma_int_decimal_len(m.unit_len as int, 3);
    lemma_int_decimal_len(m.begin_time as int, 19);
    lemma_int_decimal_len(m.end_time as int, 19);
    lemma_int_decimal_len(m.amount as int, 10);
    assert(ascii_chars(version));
    assert(ascii_chars("ver"@));
    assert(ascii_chars("first_el_type"@));
    assert(ascii_chars("second_el_type"@));
    assert(ascii_chars("unit_len"@));
    assert(ascii_chars("begin_time"@));
    assert(ascii_chars("end_time"@));
    assert(ascii_chars("amount"@));
    lemma_ascii_entry(es[0], 20);
    lemma_ascii_entry(es[1], 17);
    lemma_ascii_entry(es[2], 18);
    lemma_ascii_entry(es[3], 12);
    lemma_ascii_entry(es[4], 30);
    lemma_ascii_entry(es[5], 28);
    lemma_ascii_entry(es[6], 17);
    assert(es.take(0) =~= Seq::<(Seq<char>, Seq<char>)>::empty());
    lemma_entries_bytes_step(es, 1);
    lemma_entries_bytes_step(es, 2);
    lemma_entries_bytes_step(es, 3);
    lemma_entries_bytes_step(es, 4);
    lemma_entries_bytes_step(es, 5);
    lemma_entries_bytes_step(es, 6);
    lemma_entries_bytes_step(es, 7);
    assert(es.take(7) =~= es);
}

/// Whether property `key` is a decimal number from `lo` to `hi`.
pub open spec fn prop_in_range(es: Seq<(Seq<char>, Seq<char>)>, key: Seq<char>, lo: int, hi: int) -> bool {
    header_lookup(es, key) matches Some(v) && parse_in_range(v, lo, hi) is Some
}

/// The number property `key` holds.
pub open spec fn prop_value(es: Seq<(Seq<char>, Seq<char>)>, key: Seq<char>, lo: int, hi: int) -> int {
    parse_in_range(header_lookup(es, key).unwrap(), lo, hi).unwrap()
}

/// Whether the properties of an index-file header describe a file: both
/// element types are known codes, and each number is present and fits.
pub open spec fn index_props_ok(es: Seq<(Seq<char>, Seq<char>)>) -> bool {
    &&& prop_in_range(es, "first_el_type"@, i8::MIN as int, i8::MAX as int)
    &&& value_type_of_code(prop_value(es, "first_el_type"@, i8::MIN as int, i8::MAX as int) as i8) is Some
    &&& prop_in_range(es, "second_el_type"@, i8::MIN as int, i8::MAX as int)
    &&& value_type_of_code(prop_value(es, "second_el_type"@, i8::MIN as int, i8::MAX as int) as i8) is Some
    &&& prop_in_range(es, "begin_time"@, i64::MIN as int, i64::MAX as int)
    &&& prop_in_range(es, "end_time"@, i64::MIN as int, i64::MAX as int)
    &&& prop_in_range(es, "unit_len"@, i8::MIN as int, i8::MAX as int)
    &&& prop_in_range(es, "amount"@, i32::MIN as int, i32::MAX as int)
}

/// Whether reading an index-file header from `file` completes: the reader
/// panics (unwraps) when the header cannot be read or, once both flags
/// match, when a property is missing or malformed.
pub open spec fn index_header_loadable(file: Seq<u8>) -> bool {
    &&& header_readable(file, "TIHS"@)
    &&& decode_utf8(file.subrange(0, 4)) == "TIHS"@ && decode_utf8(
        file.subrange(stored_header_len(file) + 6, stored_header_len(file) + 10),
    ) == "TIDS"@ ==> index_props_ok(read_entries(file))
}

/// A file of tuples indexed by their first element, with the bulk data of
/// each tuple in an extra file.
pub struct TupleIndexedFile {
    inited: bool,
    writable: bool,
    index_map: Vec<(TupleValue, TupleValue)>,
    index_vec: Vec<TupleValue>,
    pub indexed_path: String,
    /// Where the data segment of the index file starts.
    pub indexed_data_offset: u64,
    extra_path: String,
    extra_data_offset: u64,
    /// The type of the index values.
    pub index_type: ValueType,
    /// The type of the bulk offsets.
    pub bulk_offset_type: ValueType,
    /// The length of a tuple, as recorded.
    pub unit_len: i8,
    /// When sampling started (ms).
    pub begin_time: i64,
    /// When the file was last written (ms).
    pub end_time: i64,
    /// How many tuples the file holds.
    pub amount: i32,
}

/// `m` with the metadata read from an index-file header.
pub open spec fn with_index_header(m: TupleFileModel, es: Seq<(Seq<char>, Seq<char>)>, offset: int) -> TupleFileModel {
    TupleFileModel {
        indexed_data_offset: offset as u64,
        index_type: value_type_of_code(
            prop_value(es, "first_el_type"@, i8::MIN as int, i8::MAX as int) as i8,
        ).unwrap(),
        bulk_offset_type: value_type_of_code(
            prop_value(es, "second_el_type"@, i8::MIN as int, i8::MAX as int) as i8,
        ).unwrap(),
        begin_time: prop_value(es, "begin_time"@, i64::MIN as int, i64::MAX as int) as i64,
        end_time: prop_value(es, "end_time"@, i64::MIN as int, i64::MAX as int) as i64,
        unit_len: prop_value(es, "unit_len"@, i8::MIN as int, i8::MAX as int) as i8,
        amount: prop_value(es, "amount"@, i32::MIN as int, i32::MAX as int) as i32,
        ..m
    }
}

impl TupleIndexedFile {
    /// What this file holds.
    pub closed spec fn model(&self) -> TupleFileModel {
        TupleFileModel {
            inited: self.inited,
            writable: self.writable,
            records: self.index_map@,
            keys: self.index_vec@,
            indexed_path: self.indexed_path@,
            indexed_data_offset: self.indexed_data_offset,
            extra_path: self.extra_path@,
            extra_data_offset: self.extra_data_offset,
            index_type: self.index_type,
            bulk_offset_type: self.bulk_offset_type,
            unit_len: self.unit_len,
            begin_time: self.begin_time,
            end_time: self.end_time,
            amount: self.amount,
        }
    }

    /// Whether the index values and the records stay in step.
    pub open spec fn wf(&self) -> bool {
        &&& self.model().keys.len() == self.model().records.len()
        &&& forall|i: int|
            0 <= i < self.model().keys.len() ==> #[trigger] self.model().records[i].0
                == self.model().keys[i]
    }

    /// A file at `path` (index file `path.fidx`, extra file `path.fdata`)
    /// holding nothing yet.
    fn new(path: &str, index_type: ValueType, bulk_offset_type: ValueType, writable: bool) -> (r:
        TupleIndexedFile)
        ensures
            r.wf(),
            r.model() == (TupleFileModel {
                inited: false,
                writable,
                records: Seq::empty(),
                keys: Seq::empty(),
                indexed_path: path@ + ".fidx"@,
                indexed_data_offset: 0,
                extra_path: path@ + ".fdata"@,
                extra_data_offset: 0,
                index_type,
                bulk_offset_type,
                unit_len: 4,
                begin_time: 0,
                end_time: 0,
                amount: 0,
            }),
    {
        let mut indexed: Vec<char> = crate::text::chars_of(path);
        let mut extra: Vec<char> = crate::text::chars_of(path);
        let fidx = crate::text::chars_of(".fidx");
        let fdata = crate::text::chars_of(".fdata");
        let mut i: usize = 0;
        let ghost p = indexed@;
        while i < fidx.len()
            invariant
                i <= fidx@.len(),
                indexed@ == p + fidx@.take(i as int),
            decreases fidx@.len() - i,
        {
            indexed.push(fidx[i]);
            i = i + 1;
            assert(indexed@ =~= p + fidx@.take(i as int));
        }
        assert(fidx@.take(fidx@.len() as int) =~= fidx@);
        i = 0;
        while i < fdata.len()
            invariant
                i <= fdata@.len(),
                extra@ == p + fdata@.take(i as int),
            decreases fdata@.len() - i,
        {
            extra.push(fdata[i]);
            i = i + 1;
            assert(extra@ =~= p + fdata@.take(i as int));
        }
        assert(fdata@.take(fdata@.len() as int) =~= fdata@);
        let unit_len = get_unit_len(index_type) + get_unit_len(bulk_offset_type);
        TupleIndexedFile {
            inited: false,
            writable,
            index_map: Vec::new(),
            index_vec: Vec::new(),
            indexed_path: crate::text::string_from_chars(indexed.as_slice()),
            indexed_data_offset: 0,
            extra_path: crate::text::string_from_chars(extra.as_slice()),
            extra_data_offset: 0,
            index_type,
            bulk_offset_type,
            unit_len,
            begin_time: 0,
            end_time: 0,
            amount: 0,
        }
    }

    /// The header properties, in the order they are written.
    fn header_props(&self, version: &str) -> (r: Vec<(String, String)>)
        ensures
            entries_view(r@) == tuple_header_props(self.model(), version@),
    {
        let mut r: Vec<(String, String)> = Vec::new();
        r.push(("ver".to_owned(), version.to_owned()));
        r.push(("first_el_type".to_owned(), i64_to_string(self.index_type.as_i8() as i64)));
        r.push(("second_el_type".to_owned(), i64_to_string(self.bulk_offset_type.as_i8() as i64)));
        r.push(("unit_len".to_owned(), i64_to_string(self.unit_len as i64)));
        r.push(("begin_time".to_owned(), i64_to_string(self.begin_time)));
        r.push(("end_time".to_owned(), i64_to_string(self.end_time)));
        r.push(("amount".to_owned(), i64_to_string(self.amount as i64)));
        assert(entries_view(r@) =~= tuple_header_props(self.model(), version@));
        r
    }

    /// Encodes the index-file header (flags `TIHS` and `TIDS`); answers the
    /// write of it at the start of the index file and records where the
    /// data segment starts. The properties always fit the header's room
    /// (`lemma_tuple_header_fits`), so it never fails.
    pub fn save_indexed_header_info(&mut self) -> (r: Result<FileWrite, IoError>)
        ensures
            r is Ok,
            match r {
                Ok(w) => {
                    &&& w.offset == 0
                    &&& w.bytes@ == header_file_prefix(
                        tuple_header_props(old(self).model(), "indexed_file_v0.1"@),
                        "TIHS"@,
                        "TIDS"@,
                    )
                    &&& final(self).model() == (TupleFileModel {
                        indexed_data_offset: w.bytes@.len() as u64,
                        ..old(self).model()
                    })
                },
                Err(e) => e.kind == ErrorKind::InvalidInput && final(self).model() == old(self).model(),
            },
    {
        let props = self.header_props("indexed_file_v0.1");
        proof {
            lemma_tuple_header_fits(self.model(), "indexed_file_v0.1"@);
        }
        match write_header_info(&props, "TIHS", "TIDS") {
            Ok(bytes) => {
                self.indexed_data_offset = bytes.len() as u64;
                Ok(FileWrite { offset: 0, bytes })
            },
            Err(e) => Err(e),
        }
    }

    /// Encodes the extra-file header (flags `TEHS` and `TEDS`); answers the
    /// write of it at the start of the extra file and records where the
    /// data segment starts.
    fn save_extra_header_info(&mut self) -> (r: Result<FileWrite, IoError>)
        ensures
            r is Ok,
            match r {
                Ok(w) => {
                    &&& w.offset == 0
                    &&& w.bytes@ == header_file_prefix(
                        tuple_header_props(old(self).model(), "bulk_file_v0.1"@),
                        "TEHS"@,
                        "TEDS"@,
                    )
                    &&& final(self).model() == (TupleFileModel {
                        extra_data_offset: w.bytes@.len() as u64,
                        ..old(self).model()
                    })
                },
                Err(e) => e.kind == ErrorKind::InvalidInput && final(self).model() == old(self).model(),
            },
    {
        let props = self.header_props("bulk_file_v0.1");
        proof {
            lemma_tuple_header_fits(self.model(), "bulk_file_v0.1"@);
        }
        match write_header_info(&props, "TEHS", "TEDS") {
            Ok(bytes) => {
                self.extra_data_offset = bytes.len() as u64;
                Ok(FileWrite { offset: 0, bytes })
            },
            Err(e) => Err(e),
        }
    }

    /// Reads the index-file header from the index file's contents and takes
    /// its metadata; fails with `InvalidInput` when a flag does not match.
    fn load_indexed_header_info(&mut self, file: &[u8]) -> (r: Result<(), IoError>)
        requires
            index_header_loadable(file@),
        ensures
            ({
                let b = file@;
                let hl = stored_header_len(b);
                if decode_utf8(b.subrange(0, 4)) != "TIHS"@ || decode_utf8(b.subrange(hl + 6, hl + 10))
                    != "TIDS"@ {
                    r matches Err(e) && e.kind == ErrorKind::InvalidInput && final(self).model()
                        == old(self).model()
                } else {
                    r is Ok && final(self).model() == with_index_header(
                        old(self).model(),
                        read_entries(b),
                        hl + 10,
                    )
                }
            }),
    {
        let (header_map, offset) = match read_header_info(file, "TIHS", "TIDS") {
            Ok(x) => x,
            Err(e) => {
                return Err(e);
            },
        };
        assert(props_view(header_map@) =~= entries_view(header_map@));
        let first = get_as_i8(&header_map, "first_el_type");
        let second = get_as_i8(&header_map, "second_el_type");
        let index_type = match ValueType::from_i8(first) {
            Some(t) => t,
            None => {
                assert(false);
                ValueType::UNKNOWN
            },
        };
        let bulk_offset_type = match ValueType::from_i8(second) {
            Some(t) => t,
            None => {
                assert(false);
                ValueType::UNKNOWN
            },
        };
        self.indexed_data_offset = offset;
        self.index_type = index_type;
        self.bulk_offset_type = bulk_offset_type;
        self.begin_time = get_as_i64(&header_map, "begin_time");
        self.end_time = get_as_i64(&header_map, "end_time");
        self.unit_len = get_as_i8(&header_map, "unit_len");
        self.amount = get_as_i32(&header_map, "amount");
        Ok(())
    }

    /// Reads the extra-file header from the extra file's contents and
    /// records where its data segment starts; fails with `InvalidInput`
    /// when a flag does not match.
    fn load_extra_header_info(&mut self, file: &[u8]) -> (r: Result<(), IoError>)
        requires
            header_readable(file@, "TEHS"@),
        ensures
            ({
                let b = file@;
                let hl = stored_header_len(b);
                if decode_utf8(b.subrange(0, 4)) != "TEHS"@ || decode_utf8(b.subrange(hl + 6, hl + 10))
                    != "TEDS"@ {
                    r matches Err(e) && e.kind == ErrorKind::InvalidInput && final(self).model()
                        == old(self).model()
                } else {
                    r is Ok && final(self).model() == (TupleFileModel {
                        extra_data_offset: (hl + 10) as u64,
                        ..old(self).model()
                    })
                }
            }),
    {
        match read_header_info(file, "TEHS", "TEDS") {
            Ok((_, offset)) => {
                self.extra_data_offset = offset;
                Ok(())
            },
            Err(e) => Err(e),
        }
    }

    /// Reads the index records of the index file's data segment, up to the
    /// first one that cannot be read whole, and adds them in order.
    fn load_index_map(&mut self, file: &[u8])
        requires
            old(self).wf(),
        ensures
            final(self).wf(),
            final(self).model() == (TupleFileModel {
                records: old(self).model().records + index_records(
                    file@,
                    old(self).model().indexed_data_offset as int,
                    old(self).model().index_type,
                    old(self).model().bulk_offset_type,
                ),
                keys: old(self).model().keys + index_records(
                    file@,
                    old(self).model().indexed_data_offset as int,
                    old(self).model().index_type,
                    old(self).model().bulk_offset_type,
                ).map_values(|p: (TupleValue, TupleValue)| p.0),
                ..old(self).model()
            }),
    {
        let ghost it = self.index_type;
        let ghost bt = self.bulk_offset_type;
        let ghost all = index_records(file@, self.indexed_data_offset as int, it, bt);
        let ghost m0 = self.model();
        if self.indexed_data_offset >= file.len() as u64 {
            assert(all =~= Seq::<(TupleValue, TupleValue)>::empty());
            assert(self.model() =~= (TupleFileModel {
                records: m0.records + all,
                keys: m0.keys + all.map_values(|p: (TupleValue, TupleValue)| p.0),
                ..m0
            }));
            return;
        }
        let mut pos: usize = self.indexed_data_offset as usize;
        let ghost mut taken: Seq<(TupleValue, TupleValue)> = Seq::empty();
        loop
            invariant
                self.index_type == it,
                self.bulk_offset_type == bt,
                self.model() == (TupleFileModel {
                    records: m0.records + taken,
                    keys: m0.keys + taken.map_values(|p: (TupleValue, TupleValue)| p.0),
                    ..m0
                }),
                m0.keys.len() == m0.records.len(),
                forall|i: int| 0 <= i < m0.keys.len() ==> #[trigger] m0.records[i].0 == m0.keys[i],
                pos <= file@.len(),
                all == taken + index_records(file@, pos as int, it, bt),
            ensures
                self.model() == (TupleFileModel {
                    records: m0.records + all,
                    keys: m0.keys + all.map_values(|p: (TupleValue, TupleValue)| p.0),
                    ..m0
                }),
            decreases file@.len() - pos,
        {
            let ghost rest = index_records(file@, pos as int, it, bt);
            if pos >= file.len() {
                assert(rest =~= Seq::<(TupleValue, TupleValue)>::empty());
                assert(taken + rest =~= taken);
                break;
            }
            match read_indexed_value(file, pos, &self.index_type) {
                Ok((index_value, p1)) => {
                    match read_indexed_value(file, p1, &self.bulk_offset_type) {
                        Ok((bulk_offset_value, p2)) => {
                            assert(rest == seq![(index_value, bulk_offset_value)] + index_records(
                                file@,
                                p2 as int,
                                it,
                                bt,
                            ));
                            self.index_vec.push(index_value);
                            self.index_map.push((index_value, bulk_offset_value));
                            proof {
                                let t2 = taken.push((index_value, bulk_offset_value));
                                assert(t2 + index_records(file@, p2 as int, it, bt) =~= taken
                                    + rest);
                                assert(t2.map_values(|p: (TupleValue, TupleValue)| p.0)
                                    =~= taken.map_values(|p: (TupleValue, TupleValue)| p.0).push(
                                    index_value,
                                ));
                                taken = t2;
                                assert(self.model().records =~= m0.records + taken);
                                assert(self.model().keys =~= m0.keys + taken.map_values(
                                    |p: (TupleValue, TupleValue)| p.0,
                                ));
                            }
                            pos = p2;
                        },
                        Err(_) => {
                            assert(rest =~= Seq::<(TupleValue, TupleValue)>::empty());
                            assert(taken + rest =~= taken);
                            break;
                        },
                    }
                },
                Err(_) => {
                    assert(rest =~= Seq::<(TupleValue, TupleValue)>::empty());
                    assert(taken + rest =~= taken);
                    break;
                },
            }
        }
        proof {
            let m = self.model();
            assert forall|i: int| 0 <= i < m.keys.len() implies #[trigger] m.records[i].0
                == m.keys[i] by {
                if i >= m0.keys.len() {
                    assert(m.keys[i] == all[i - m0.keys.len()].0);
                }
            }
        }
    }

    /// Reads both headers and the index records from the contents of the
    /// index file and of the extra file, once.
    pub fn init_reader(&mut self, indexed_file: &[u8], extra_file: &[u8]) -> (r: Result<(), IoError>)
        requires
            old(self).wf(),
            !old(self).model().inited ==> index_header_loadable(indexed_file@) && header_readable(
                extra_file@,
                "TEHS"@,
            ),
        ensures
            final(self).wf(),
            ({
                let (m, ok) = reader_init(old(self).model(), indexed_file@, extra_file@);
                &&& final(self).model() == m
                &&& ok ==> r is Ok
                &&& !ok ==> (r matches Err(e) && e.kind == ErrorKind::InvalidInput)
            }),
    {
        if !self.inited {
            match self.load_indexed_header_info(indexed_file) {
                Ok(_) => {},
                Err(e) => {
                    return Err(e);
                },
            }
            match self.load_extra_header_info(extra_file) {
                Ok(_) => {},
                Err(e) => {
                    return Err(e);
                },
            }
            self.load_index_map(indexed_file);
            self.inited = true;
        }
        Ok(())
    }

    /// A reader of the tuple-indexed file at `path`, from the contents of its
    /// index file and of its extra file.
    pub fn new_reader(path: &str, indexed_file: &[u8], extra_file: &[u8]) -> (r: Result<
        TupleIndexedFile,
        IoError,
    >)
        requires
            index_header_loadable(indexed_file@),
            header_readable(extra_file@, "TEHS"@),
        ensures
            ({
                let m0 = blank_model(path@, ValueType::UNKNOWN, ValueType::UNKNOWN, false);
                let (m, ok) = reader_init(m0, indexed_file@, extra_file@);
                &&& ok ==> (r matches Ok(f) && f.wf() && f.model() == m)
                &&& !ok ==> (r matches Err(e) && e.kind == ErrorKind::InvalidInput)
            }),
    {
        let mut tuple_file = TupleIndexedFile::new(path, ValueType::UNKNOWN, ValueType::UNKNOWN, false);
        match tuple_file.init_reader(indexed_file, extra_file) {
            Ok(_) => Ok(tuple_file),
            Err(e) => Err(e),
        }
    }

    /// Makes the file ready for writing at time `now_time`: a file whose
    /// index file already holds data is read as by `init_reader`; otherwise
    /// both headers are written, with `now_time` as begin and end time.
    /// Answers the header writes for the index file and the extra file.
    pub fn init_writer_at(&mut self, indexed_file: &[u8], extra_file: &[u8], now_time: i64) -> (r:
        Result<(Option<FileWrite>, Option<FileWrite>), IoError>)
        requires
            old(self).wf(),
            !old(self).model().inited && indexed_file@.len() > 0 ==> index_header_loadable(
                indexed_file@,
            ) && header_readable(extra_file@, "TEHS"@),
        ensures
            final(self).wf(),
            old(self).model().inited ==> (r matches Ok((None, None)) && final(self).model()
                == old(self).model()),
            !old(self).model().inited && indexed_file@.len() > 0 ==> ({
                let (m, ok) = reader_init(old(self).model(), indexed_file@, extra_file@);
                &&& final(self).model() == m
                &&& ok ==> (r matches Ok((None, None)))
                &&& !ok ==> (r matches Err(e) && e.kind == ErrorKind::InvalidInput)
            }),
            !old(self).model().inited && indexed_file@.len() == 0 ==> ({
                let m1 = TupleFileModel { begin_time: now_time, end_time: now_time, ..old(self).model() };
                &&& r is Ok ==> (r matches Ok((Some(iw), Some(ew))) && iw.offset == 0 && iw.bytes@
                    == header_file_prefix(
                    tuple_header_props(m1, "indexed_file_v0.1"@),
                    "TIHS"@,
                    "TIDS"@,
                ) && ew.offset == 0 && ew.bytes@ == header_file_prefix(
                    tuple_header_props(m1, "bulk_file_v0.1"@),
                    "TEHS"@,
                    "TEDS"@,
                ) && final(self).model() == (TupleFileModel {
                    inited: true,
                    indexed_data_offset: iw.bytes@.len() as u64,
                    extra_data_offset: ew.bytes@.len() as u64,
                    ..m1
                }))
                &&& r is Err ==> r->Err_0.kind == ErrorKind::InvalidInput
                &&& r is Ok
            }),
    {
        if self.inited {
            return Ok((None, None));
        }
        if indexed_file.len() > 0 {
            match self.init_reader(indexed_file, extra_file) {
                Ok(_) => {
                    return Ok((None, None));
                },
                Err(e) => {
                    return Err(e);
                },
            }
        }
        self.begin_time = now_time;
        self.end_time = now_time;
        let iw = match self.save_indexed_header_info() {
            Ok(w) => w,
            Err(e) => {
                return Err(e);
            },
        };
        let ew = match self.save_extra_header_info() {
            Ok(w) => w,
            Err(e) => {
                return Err(e);
            },
        };
        self.inited = true;
        Ok((Some(iw), Some(ew)))
    }

    /// A writer of `index_type` index values at `path`, from the current
    /// contents of its index file and of its extra file; a new file gets
    /// both headers, with the current time as begin and end time.
    pub fn new_writer(path: &str, index_type: ValueType, indexed_file: &[u8], extra_file: &[u8]) -> (r:
        Result<(TupleIndexedFile, Option<FileWrite>, Option<FileWrite>), IoError>)
        requires
            indexed_file@.len() > 0 ==> index_header_loadable(indexed_file@) && header_readable(
                extra_file@,
                "TEHS"@,
            ),
        ensures
            r matches Ok((f, _, _)) ==> f.wf() && f.model().inited && f.model().writable,
            indexed_file@.len() > 0 ==> ({
                let m0 = blank_model(path@, index_type, ValueType::UINT32, true);
                let (m, ok) = reader_init(m0, indexed_file@, extra_file@);
                &&& ok ==> (r matches Ok((f, None, None)) && f.model() == m)
                &&& !ok ==> (r matches Err(e) && e.kind == ErrorKind::InvalidInput)
            }),
            indexed_file@.len() == 0 ==> (r matches Err(e) ==> e.kind == ErrorKind::InvalidInput),
            indexed_file@.len() == 0 ==> (r matches Ok((f, Some(_), Some(_))) && f.model().index_type
                == index_type),
            indexed_file@.len() == 0 ==> (r matches Ok((f, iw, ew)) ==> iw is Some && ew is Some && exists|
                now_time: i64,
            | #[trigger] writer_started(path@, index_type, now_time, f.model(), iw->Some_0, ew->Some_0)),
    {
        let mut tuple_file = TupleIndexedFile::new(path, index_type, ValueType::UINT32, true);
        let now_time = now_millis();
        assert(tuple_file.model() == blank_model(path@, index_type, ValueType::UINT32, true));
        match tuple_file.init_writer_at(indexed_file, extra_file, now_time) {
            Ok((iw, ew)) => {
                proof {
                    if indexed_file@.len() == 0 {
                        assert(writer_started(path@, index_type, now_time, tuple_file.model(), iw->Some_0, ew->Some_0));
                    }
                }
                Ok((tuple_file, iw, ew))
            },
            Err(e) => Err(e),
        }
    }

    /// Adds a tuple: appends the bulk value (its 16-bit length, then its
    /// bytes) at `extra_end`, the end of the extra file, and the index value
    /// and that offset at `indexed_end`, the end of the index file; answers
    /// both writes. Fails with `InvalidInput`, changing nothing, when the
    /// index value is not of the file's index type.
    pub fn add_value(&mut self, index: TupleValue, bulk_value: &[u8], indexed_end: u64, extra_end: u64) -> (r:
        Result<(FileWrite, FileWrite), IoError>)
        requires
            old(self).wf(),
            old(self).model().amount < i32::MAX,
        ensures
            final(self).wf(),
            tuple_type(index) != old(self).model().index_type ==> (r matches Err(e) && e.kind
                == ErrorKind::InvalidInput && final(self).model() == old(self).model()),
            tuple_type(index) == old(self).model().index_type ==> (r matches Ok((ew, iw)) && {
                let off = TupleValue::uint32(extra_end as u32);
                &&& ew.offset == extra_end
                &&& ew.bytes@ == bulk_record(bulk_value@)
                &&& iw.offset == indexed_end
                &&& iw.bytes@ == tuple_bytes(index) + if old(self).model().bulk_offset_type
                    == ValueType::UINT32 {
                    tuple_bytes(off)
                } else {
                    Seq::empty()
                }
                &&& final(self).model() == (TupleFileModel {
                    records: old(self).model().records.push((index, off)),
                    keys: old(self).model().keys.push(index),
                    amount: (old(self).model().amount + 1) as i32,
                    ..old(self).model()
                })
            }),
    {
        let val_type = get_value_type(&index);
        if val_type != self.index_type {
            return Err(io_error(ErrorKind::InvalidInput, "index type not match"));
        }
        let mut extra: Vec<u8> = be_bytes_u16(#[verifier::truncate] (bulk_value.len() as u16));
        let mut i: usize = 0;
        let ghost head = extra@;
        while i < bulk_value.len()
            invariant
                i <= bulk_value@.len(),
                extra@ == head + bulk_value@.take(i as int),
            decreases bulk_value@.len() - i,
        {
            extra.push(bulk_value[i]);
            i = i + 1;
            assert(extra@ =~= head + bulk_value@.take(i as int));
        }
        assert(bulk_value@.take(bulk_value@.len() as int) =~= bulk_value@);
        let bulk_offset_value = TupleValue::uint32(#[verifier::truncate] (extra_end as u32));
        let mut indexed = encode_tuple(&index);
        if self.bulk_offset_type == ValueType::UINT32 {
            let off_bytes = encode_tuple(&bulk_offset_value);
            let ghost before = indexed@;
            let mut k: usize = 0;
            while k < off_bytes.len()
                invariant
                    k <= off_bytes@.len(),
                    indexed@ == before + off_bytes@.take(k as int),
                decreases off_bytes@.len() - k,
            {
                indexed.push(off_bytes[k]);
                k = k + 1;
                assert(indexed@ =~= before + off_bytes@.take(k as int));
            }
            assert(off_bytes@.take(off_bytes@.len() as int) =~= off_bytes@);
        } else {
            assert(indexed@ =~= tuple_bytes(index) + Seq::<u8>::empty());
        }
        self.index_vec.push(index);
        self.index_map.push((index, bulk_offset_value));
        self.amount = self.amount + 1;
        Ok((FileWrite { offset: extra_end, bytes: extra }, FileWrite { offset: indexed_end, bytes: indexed }))
    }

    /// The bulk value of the last tuple added with `index`, read from the
    /// extra file's contents; fails with `NotFound` when no tuple has that
    /// index (or its offset is not a 32-bit one), and with `UnexpectedEof`
    /// when the extra file ends inside the value.
    pub fn get_value(&self, index: &TupleValue, extra_file: &[u8]) -> (r: Result<Vec<u8>, IoError>)
        ensures
            match value_read(self.model().records, *index, extra_file@) {
                Ok(bytes) => r matches Ok(v) && v@ == bytes,
                Err(kind) => r matches Err(e) && e.kind == kind,
            },
    {
        match find_record(&self.index_map, index) {
            Some(TupleValue::uint32(offset)) => match read_bulk_data(extra_file, offset) {
                Ok((buf, _)) => Ok(buf),
                Err(e) => Err(e),
            },
            _ => Err(io_error(ErrorKind::NotFound, "index not found")),
        }
    }

    /// The index value a search for `start_index` lands on: the first one
    /// not below it (by integer value), or the last one when all are below
    /// it.
    fn search_index(&self, start_index: &TupleValue) -> (r: &TupleValue)
        requires
            self.model().keys.len() > 0,
        ensures
            exists|i: int| 0 <= i < self.model().keys.len() && *r == self.model().keys[i],
            keys_sorted(self.model().keys) ==> *r == self.model().keys[search_position(
                self.model().keys,
                *start_index,
            )],
    {
        let key = start_index.as_int();
        let mut lo: usize = 0;
        let mut hi: usize = self.index_vec.len();
        while lo < hi
            invariant
                0 <= lo <= hi <= self.index_vec@.len(),
                self.index_vec@ == self.model().keys,
                key == tuple_int(*start_index),
                forall|j: int| 0 <= j < lo ==> tuple_int(#[trigger] self.index_vec@[j]) < key
                    || !keys_sorted(self.index_vec@),
                forall|j: int|
                    hi <= j < self.index_vec@.len() ==> tuple_int(#[trigger] self.index_vec@[j]) >= key
                        || !keys_sorted(self.index_vec@),
            decreases hi - lo,
        {
            let mid = lo + (hi - lo) / 2;
            if self.index_vec[mid].as_int() < key {
                lo = mid + 1;
            } else {
                hi = mid;
            }
        }
        proof {
            let ks = self.index_vec@;
            if keys_sorted(ks) {
                lemma_below_count(ks, key as int, lo as int);
            }
        }
        let len = self.index_vec.len();
        if lo < len {
            &self.index_vec[lo]
        } else {
            &self.index_vec[len - 1]
        }
    }

    /// The bulk values of the tuples from the one the search for
    /// `start_index` lands on through the one the search for `end_index`
    /// lands on, read in order from the extra file's contents; reading goes
    /// on from record to record and stops after the first that ends past
    /// the start of the last one. Answers the values read and, when a read
    /// failed, its error (`UnexpectedEof`); fails with `NotFound` when one of
    /// the two has no 32-bit offset.
    pub fn get_range_value(&self, start_index: &TupleValue, end_index: &TupleValue, extra_file: &[u8]) -> (r:
        (Vec<Vec<u8>>, Result<(), IoError>))
        requires
            self.model().keys.len() > 0,
            extra_file@.len() <= u32::MAX,
        ensures
            ({
                let ks = self.model().keys;
                let recs = self.model().records;
                keys_sorted(ks) ==> match (
                    tuple_lookup(recs, ks[search_position(ks, *start_index)]),
                    tuple_lookup(recs, ks[search_position(ks, *end_index)]),
                ) {
                    (Some(TupleValue::uint32(s)), Some(TupleValue::uint32(e))) => {
                        let (bulks, ok) = bulks_from(extra_file@, s as int, e as int);
                        &&& r.0@.len() == bulks.len()
                        &&& forall|i: int| 0 <= i < bulks.len() ==> #[trigger] r.0@[i]@ == bulks[i]
                        &&& ok ==> r.1 is Ok
                        &&& !ok ==> (r.1 matches Err(err) && err.kind == ErrorKind::UnexpectedEof)
                    },
                    _ => r.0@.len() == 0 && (r.1 matches Err(err) && err.kind == ErrorKind::NotFound),
                }
            }),
    {
        let new_start_index = *self.search_index(start_index);
        let new_end_index = *self.search_index(end_index);
        let mut start_offset = 0u32;
        let mut end_offset = 0u32;
        let mut found = false;
        if let Some(TupleValue::uint32(offset1)) = find_record(&self.index_map, &new_start_index) {
            start_offset = offset1;
            if let Some(TupleValue::uint32(offset2)) = find_record(&self.index_map, &new_end_index) {
                end_offset = offset2;
                found = true;
            }
        }
        let mut out: Vec<Vec<u8>> = Vec::new();
        if !found {
            return (out, Err(io_error(ErrorKind::NotFound, "index not found")));
        }
        let mut offset = start_offset;
        let ghost all = bulks_from(extra_file@, start_offset as int, end_offset as int);
        loop
            invariant_except_break
                all.1 == bulks_from(extra_file@, offset as int, end_offset as int).1,
                all.0.len() == out@.len() + bulks_from(extra_file@, offset as int, end_offset as int).0.len(),
                forall|i: int| 0 <= i < out@.len() ==> #[trigger] out@[i]@ == all.0[i],
                forall|i: int|
                    0 <= i < bulks_from(extra_file@, offset as int, end_offset as int).0.len()
                        ==> #[trigger] bulks_from(extra_file@, offset as int, end_offset as int).0[i]
                        == all.0[out@.len() + i],
            invariant
                extra_file@.len() <= u32::MAX,
                all == bulks_from(extra_file@, start_offset as int, end_offset as int),
                keys_sorted(self.model().keys) ==> tuple_lookup(
                    self.model().records,
                    self.model().keys[search_position(self.model().keys, *start_index)],
                ) == Some(TupleValue::uint32(start_offset)) && tuple_lookup(
                    self.model().records,
                    self.model().keys[search_position(self.model().keys, *end_index)],
                ) == Some(TupleValue::uint32(end_offset)),
            ensures
                all.0.len() == out@.len(),
                forall|i: int| 0 <= i < out@.len() ==> #[trigger] out@[i]@ == all.0[i],
                all.1,
            decreases u32::MAX - offset,
        {
            let ghost cur = bulks_from(extra_file@, offset as int, end_offset as int);
            match read_bulk_data(extra_file, offset) {
                Ok((buf, next_offset)) => {
                    let ghost nx = bulk_end(extra_file@, offset as int);
                    assert(nx <= extra_file@.len());
                    assert(next_offset == nx);
                    assert(cur.0[0] == buf@);
                    out.push(buf);
                    if next_offset > end_offset {
                        break;
                    }
                    let ghost nxt = bulks_from(extra_file@, nx, end_offset as int);
                    assert(cur.0 == seq![buf@] + nxt.0);
                    assert forall|i: int| 0 <= i < nxt.0.len() implies #[trigger] nxt.0[i]
                        == all.0[out@.len() + i] by {
                        assert(nxt.0[i] == cur.0[i + 1]);
                    }
                    offset = next_offset;
                },
                Err(e) => {
                    assert(cur.0.len() == 0 && !cur.1);
                    return (out, Err(e));
                },
            }
        }
        (out, Ok(()))
    }

    /// The (index value, bulk offset) pairs of the tuples at positions
    /// `start` up to (not including) `end`, as integers.
    pub fn get_data(&self, start: usize, end: usize) -> (r: Vec<(i64, i64)>)
        requires
            self.wf(),
        ensures
            r@.len() == if start < end && start < self.model().keys.len() {
                (if end < self.model().keys.len() { end } else { self.model().keys.len() as usize })
                    - start
            } else {
                0
            },
            forall|i: int|
                0 <= i < r@.len() ==> #[trigger] r@[i] == (
                    tuple_int(self.model().keys[start + i]) as i64,
                    tuple_int(tuple_lookup(self.model().records, self.model().keys[start + i]).unwrap())
                        as i64,
                ),
    {
        let mut result: Vec<(i64, i64)> = Vec::new();
        let stop = if end < self.index_vec.len() {
            end
        } else {
            self.index_vec.len()
        };
        let mut i = start;
        while i < stop
            invariant
                self.wf(),
                stop <= self.index_vec@.len(),
                self.index_vec@ == self.model().keys,
                start <= i <= stop || (start >= stop && i == start),
                result@.len() == i - start || (start >= stop && result@.len() == 0),
                forall|k: int|
                    0 <= k < result@.len() ==> #[trigger] result@[k] == (
                        tuple_int(self.model().keys[start + k]) as i64,
                        tuple_int(tuple_lookup(self.model().records, self.model().keys[start + k]).unwrap())
                            as i64,
                    ),
            decreases stop - i,
        {
            let idx = self.index_vec[i];
            proof {
                lemma_lookup_present(self.model().records, i as int);
            }
            let value = match find_record(&self.index_map, &idx) {
                Some(v) => v,
                None => {
                    assert(false);
                    idx
                },
            };
            result.push((idx.as_int(), value.as_int()));
            i = i + 1;
        }
        result
    }
}

/// The metadata of a file at `path` holding nothing yet.
pub open spec fn blank_model(path: Seq<char>, index_type: ValueType, bulk_offset_type: ValueType, writable: bool) -> TupleFileModel {
    TupleFileModel {
        inited: false,
        writable,
        records: Seq::empty(),
        keys: Seq::empty(),
        indexed_path: path + ".fidx"@,
        indexed_data_offset: 0,
        extra_path: path + ".fdata"@,
        extra_data_offset: 0,
        index_type,
        bulk_offset_type,
        unit_len: 4,
        begin_time: 0,
        end_time: 0,
        amount: 0,
    }
}

/// Whether `m`, `iw` and `ew` are a writer at `path` started afresh at
/// `now_time` and the writes of its two headers: begin and end time
/// `now_time`, no record, both headers written.
pub open spec fn writer_started(
    path: Seq<char>,
    index_type: ValueType,
    now_time: i64,
    m: TupleFileModel,
    iw: FileWrite,
    ew: FileWrite,
) -> bool {
    let m1 = TupleFileModel {
        begin_time: now_time,
        end_time: now_time,
        ..blank_model(path, index_type, ValueType::UINT32, true)
    };
    &&& iw.offset == 0
    &&& iw.bytes@ == header_file_prefix(tuple_header_props(m1, "indexed_file_v0.1"@), "TIHS"@, "TIDS"@)
    &&& ew.offset == 0
    &&& ew.bytes@ == header_file_prefix(tuple_header_props(m1, "bulk_file_v0.1"@), "TEHS"@, "TEDS"@)
    &&& m == (TupleFileModel {
        inited: true,
        indexed_data_offset: iw.bytes@.len() as u64,
        extra_data_offset: ew.bytes@.len() as u64,
        ..m1
    })
}

/// Whether a file's contents carry both flags of a header where a reader
/// looks for them.
pub open spec fn flags_ok(b: Seq<u8>, header_flag: Seq<char>, data_flag: Seq<char>) -> bool {
    let hl = stored_header_len(b);
    decode_utf8(b.subrange(0, 4)) == header_flag && decode_utf8(b.subrange(hl + 6, hl + 10))
        == data_flag
}

/// What reading both headers and the index records does to a file's
/// metadata, and whether it succeeds: nothing is read a second time; a
/// flag that does not match stops it (after the index header, when only
/// the extra file's flags fail).
pub open spec fn reader_init(m: TupleFileModel, ib: Seq<u8>, eb: Seq<u8>) -> (TupleFileModel, bool) {
    if m.inited {
        (m, true)
    } else if !flags_ok(ib, "TIHS"@, "TIDS"@) {
        (m, false)
    } else {
        let m1 = with_index_header(m, read_entries(ib), stored_header_len(ib) + 10);
        if !flags_ok(eb, "TEHS"@, "TEDS"@) {
            (m1, false)
        } else {
            let recs = index_records(
                ib,
                m1.indexed_data_offset as int,
                m1.index_type,
                m1.bulk_offset_type,
            );
            (
                TupleFileModel {
                    inited: true,
                    extra_data_offset: (stored_header_len(eb) + 10) as u64,
                    records: m1.records + recs,
                    keys: m1.keys + recs.map_values(|p: (TupleValue, TupleValue)| p.0),
                    ..m1
                },
                true,
            )
        }
    }
}

/// The bulk offset of the last record of `key`, if there is one.
pub fn find_record(records: &Vec<(TupleValue, TupleValue)>, key: &TupleValue) -> (r: Option<TupleValue>)
    ensures
        r == tuple_lookup(records@, *key),
{
    let mut i = records.len();
    assert(records@.take(i as int) =~= records@);
    while i > 0
        invariant
            i <= records@.len(),
            tuple_lookup(records@, *key) == tuple_lookup(records@.take(i as int), *key),
        decreases i,
    {
        assert(records@.take(i as int).drop_last() =~= records@.take(i - 1));
        if records[i - 1].0 == *key {
            return Some(records[i - 1].1);
        }
        i = i - 1;
    }
    None
}

/// Whether the index values are in nondecreasing order of their integers.
pub open spec fn keys_sorted(ks: Seq<TupleValue>) -> bool {
    forall|i: int, j: int| 0 <= i <= j < ks.len() ==> tuple_int(ks[i]) <= tuple_int(ks[j])
}

/// How many of the (sorted) index values are below `key`, held within the
/// positions of the values.
pub open spec fn search_position(ks: Seq<TupleValue>, key: TupleValue) -> int {
    let n = below_count(ks, tuple_int(key));
    if n < ks.len() {
        n
    } else {
        ks.len() - 1
    }
}

/// How many of the index values are below `key`.
pub open spec fn below_count(ks: Seq<TupleValue>, key: int) -> int
    decreases ks.len(),
{
    if ks.len() == 0 {
        0
    } else {
        below_count(ks.drop_last(), key) + if tuple_int(ks.last()) < key {
            1int
        } else {
            0
        }
    }
}

/// In sorted index values, the values below `key` are exactly those before
/// position `lo` when all before it are below and none from it on is.
proof fn lemma_below_count(ks: Seq<TupleValue>, key: int, lo: int)
    requires
        keys_sorted(ks),
        0 <= lo <= ks.len(),
        forall|j: int| 0 <= j < lo ==> tuple_int(#[trigger] ks[j]) < key,
        forall|j: int| lo <= j < ks.len() ==> tuple_int(#[trigger] ks[j]) >= key,
    ensures
        below_count(ks, key) == lo,
    decreases ks.len(),
{
    if ks.len() > 0 {
        let d = ks.drop_last();
        assert(keys_sorted(d));
        if lo == ks.len() {
            assert(tuple_int(ks[ks.len() - 1]) < key);
            lemma_below_count(d, key, lo - 1);
        } else {
            assert(tuple_int(ks[ks.len() - 1]) >= key);
            lemma_below_count(d, key, lo);
        }
    }
}

/// A record at position `i` is found by a lookup of its index value.
proof fn lemma_lookup_present(records: Seq<(TupleValue, TupleValue)>, i: int)
    requires
        0 <= i < records.len(),
    ensures
        tuple_lookup(records, records[i].0) is Some,
    decreases records.len(),
{
    if records.last().0 != records[i].0 {
        lemma_lookup_present(records.drop_last(), i);
    }
}

/// The bulk values read from `off` on, record after record, stopping after
/// the first record that ends past `end_off`, and whether all reads
/// succeeded.
pub open spec fn bulks_from(b: Seq<u8>, off: int, end_off: int) -> (Seq<Seq<u8>>, bool)
    decreases b.len() - off,
{
    match bulk_at(b, off) {
        None => (Seq::empty(), false),
        Some(x) => {
            let next = bulk_end(b, off);
            if next > end_off || next <= off {
                (seq![x], true)
            } else {
                let (rest, ok) = bulks_from(b, next, end_off);
                (seq![x] + rest, ok)
            }
        },
    }
}

/// What `get_value` answers for `index`, given the file's records and the
/// extra file's contents: the bulk value at the offset of the last record
/// with that index, `UnexpectedEof` when the extra file ends inside it, and
/// `NotFound` when no record has that index with a 32-bit offset.
pub open spec fn value_read(records: Seq<(TupleValue, TupleValue)>, index: TupleValue, extra: Seq<u8>) -> Result<
    Seq<u8>,
    ErrorKind,
> {
    match tuple_lookup(records, index) {
        Some(TupleValue::uint32(off)) => match bulk_at(extra, off as int) {
            Some(bytes) => Ok(bytes),
            None => Err(ErrorKind::UnexpectedEof),
        },
        _ => Err(ErrorKind::NotFound),
    }
}

/// A value added under `index` reads back: once `add_value` has stored
/// `bulk` under `index` at the end of the extra file (its records gain
/// `(index, extra.len())`, and the extra file gains the record it answers
/// to write there), `get_value` of `index` on the grown extra file answers
/// `bulk`, whatever was added before.
pub proof fn lemma_added_value_reads_back(
    records: Seq<(TupleValue, TupleValue)>,
    index: TupleValue,
    extra: Seq<u8>,
    bulk: Seq<u8>,
)
    requires
        bulk.len() <= u16::MAX,
        extra.len() <= u32::MAX,
    ensures
        tuple_lookup(records.push((index, TupleValue::uint32(extra.len() as u32))), index) == Some(
            TupleValue::uint32(extra.len() as u32),
        ),
        bulk_at(extra + bulk_record(bulk), extra.len() as int) == Some(bulk),
        value_read(
            records.push((index, TupleValue::uint32(extra.len() as u32))),
            index,
            extra + bulk_record(bulk),
        ) == Ok::<Seq<u8>, ErrorKind>(bulk),
{
    let b = extra + bulk_record(bulk);
    let off = extra.len() as int;
    lemma_be_u16_roundtrip(bulk.len() as u16);
    assert(records.push((index, TupleValue::uint32(extra.len() as u32))).drop_last() =~= records);
    assert(b.subrange(off, off + 2) =~= be_u16(bulk.len() as u16));
    assert(b.subrange(off + 2, off + 2 + bulk.len()) =~= bulk);
}

/// An index that was never added is not found: a lookup of an index that
/// no record holds (as in a fresh writer, which holds none) finds nothing,
/// so `get_value` answers `NotFound` for it, whatever the extra file holds.
pub proof fn lemma_never_added_not_found(
    records: Seq<(TupleValue, TupleValue)>,
    index: TupleValue,
    extra: Seq<u8>,
)
    requires
        forall|i: int| 0 <= i < records.len() ==> #[trigger] records[i].0 != index,
    ensures
        tuple_lookup(records, index) is None,
        value_read(records, index, extra) == Err::<Seq<u8>, ErrorKind>(ErrorKind::NotFound),
    decreases records.len(),
{
    if records.len() > 0 {
        assert(records.last() == records[records.len() - 1]);
        assert forall|i: int| 0 <= i < records.drop_last().len() implies #[trigger] records.drop_last()[i].0 != index by {
            assert(records.drop_last()[i] == records[i]);
        }
        lemma_never_added_not_found(records.drop_last(), index, extra);
    }
}

/// The bytes of index records, one after the other.
pub open spec fn records_bytes(recs: Seq<(TupleValue, TupleValue)>) -> Seq<u8>
    decreases recs.len(),
{
    if recs.len() == 0 {
        Seq::empty()
    } else {
        tuple_bytes(recs[0].0) + tuple_bytes(recs[0].1) + records_bytes(recs.drop_first())
    }
}

/// A value stored in its own type reads back.
proof fn lemma_decode_tuple(b: Seq<u8>, pos: int, v: TupleValue)
    requires
        0 <= pos,
        pos + tuple_bytes(v).len() <= b.len(),
        b.subrange(pos, pos + tuple_bytes(v).len()) == tuple_bytes(v),
    ensures
        type_width(tuple_type(v)) == tuple_bytes(v).len(),
        decode_tuple(b, pos, tuple_type(v)) == Some(v),
{
    match v {
        TupleValue::int16(x) => {
            lemma_be_u16_roundtrip(x as u16);
            assert(((x as u16) as i16) == x) by (bit_vector);
        },
        TupleValue::uint16(x) => {
            lemma_be_u16_roundtrip(x);
        },
        TupleValue::int32(x) => {
            lemma_be_u32_roundtrip(x as u32);
            assert(((x as u32) as i32) == x) by (bit_vector);
        },
        TupleValue::uint32(x) => {
            lemma_be_u32_roundtrip(x);
        },
        TupleValue::int64(x) => {
            lemma_be_u64_roundtrip(x as u64);
            assert(((x as u64) as i64) == x) by (bit_vector);
        },
    }
}

/// Index records written one after the other read back: after any prefix,
/// the records of index values of the file's index type with 32-bit bulk
/// offsets are read back in order.
pub proof fn lemma_index_records_read_back(
    prefix: Seq<u8>,
    recs: Seq<(TupleValue, TupleValue)>,
    it: ValueType,
)
    requires
        forall|i: int|
            0 <= i < recs.len() ==> tuple_type(#[trigger] recs[i].0) == it && recs[i].1 is uint32,
    ensures
        index_records(prefix + records_bytes(recs), prefix.len() as int, it, ValueType::UINT32) == recs,
    decreases recs.len(),
{
    let b = prefix + records_bytes(recs);
    let p = prefix.len() as int;
    if recs.len() == 0 {
        assert(b =~= prefix);
        assert(index_records(b, p, it, ValueType::UINT32) =~= recs);
    } else {
        let k = recs[0].0;
        let o = recs[0].1;
        let rest = recs.drop_first();
        assert forall|i: int| 0 <= i < rest.len() implies tuple_type(#[trigger] rest[i].0) == it
            && rest[i].1 is uint32 by {
            assert(rest[i] == recs[i + 1]);
        }
        let p2 = prefix + tuple_bytes(k) + tuple_bytes(o);
        assert(b =~= p2 + records_bytes(rest));
        lemma_index_records_read_back(p2, rest, it);
        let wk = tuple_bytes(k).len();
        let wo = tuple_bytes(o).len();
        assert(b.subrange(p, p + wk) =~= tuple_bytes(k));
        lemma_decode_tuple(b, p, k);
        assert(b.subrange(p + wk, p + wk + wo) =~= tuple_bytes(o));
        lemma_decode_tuple(b, p + wk, o);
        assert(tuple_type(o) == ValueType::UINT32);
        assert(p < b.len());
        assert(index_records(b, p, it, ValueType::UINT32) =~= seq![(k, o)] + rest);
        assert(seq![(k, o)] + rest =~= recs);
    }
}

/// Appending a record appends its bytes.
pub proof fn lemma_records_bytes_push(recs: Seq<(TupleValue, TupleValue)>, x: (TupleValue, TupleValue))
    ensures
        records_bytes(recs.push(x)) == records_bytes(recs) + tuple_bytes(x.0) + tuple_bytes(x.1),
    decreases recs.len(),
{
    if recs.len() == 0 {
        let e = Seq::<(TupleValue, TupleValue)>::empty();
        assert(recs.push(x).drop_first() =~= e);
        assert(recs.push(x)[0] == x);
        assert(records_bytes(e) == Seq::<u8>::empty());
        assert(records_bytes(recs) == Seq::<u8>::empty());
        assert(records_bytes(recs.push(x)) == tuple_bytes(x.0) + tuple_bytes(x.1) + records_bytes(e));
        assert(records_bytes(recs.push(x)) =~= records_bytes(recs) + tuple_bytes(x.0) + tuple_bytes(x.1));
    } else {
        assert(recs.push(x).drop_first() =~= recs.drop_first().push(x));
        lemma_records_bytes_push(recs.drop_first(), x);
        assert(records_bytes(recs.push(x)) =~= records_bytes(recs) + tuple_bytes(x.0) + tuple_bytes(
            x.1,
        ));
    }
}

} // verus!
