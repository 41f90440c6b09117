//! Time series files (".fts"): a header segment with the series' metadata,
//! then a data segment holding one fixed-width value per sample step.
//!
//! File layout: "TSHS", header length (u16), header, "TSDS", data. The header
//! is: value type code (i8), unit length (i8), unit time (i32), begin time
//! (i64), end time (i64), amount (i32). All numbers are big-endian.
use crate::endian::{
    be_bytes_u16, be_bytes_u32, be_bytes_u64, be_u16, be_u32, be_u64, from_be_u16, from_be_u32,
    from_be_u64, lemma_be_u16_roundtrip, lemma_be_u32_roundtrip, lemma_be_u64_roundtrip,
    read_be_u16, read_be_u32, read_be_u64,
};
use crate::arith::{div_trunc_i64, tdiv};
use crate::clock::now_millis;
use crate::errors::{io_error, ErrorKind, IoError};
use crate::value_type::{get_unit_len, value_type_code, value_type_of_code, value_width, ValueType};
use std::collections::VecDeque;
use vstd::prelude::*;
use vstd::utf8::*;
use crate::text::lemma_ascii_utf8;

verus! {

/// A value added to a time series.
#[allow(non_camel_case_types)]
#[derive(Clone, PartialEq, Eq, Debug, Structural)]
pub enum TSValue {
    int16(i16),
    int32(i32),
    int64(i64),
}

/// The values of a time range.
#[allow(non_camel_case_types)]
#[derive(Clone, PartialEq, Debug)]
pub enum TSRangeValue {
    vec_int16(Vec<i16>),
    vec_int32(Vec<i32>),
    vec_int64(Vec<i64>),
}

impl TSRangeValue {
    /// The values, when they are 64-bit ones.
    pub fn as_int64(&self) -> (r: Option<Vec<i64>>)
        ensures
            match self {
                TSRangeValue::vec_int64(x) => r matches Some(v) && v@ == x@,
                _ => r is None,
            },
    {
        match self {
            TSRangeValue::vec_int64(x) => Some(x.clone()),
            _ => None,
        }
    }
}

/// The answer to a range query.
#[derive(Debug)]
pub struct TSResult {
    pub begin_time: i64,
    pub end_time: i64,
    pub unit_time: i32,
    pub steps: i32,
    pub total_cpu_time: i64,
    pub data: TSRangeValue,
}

/// The metadata of a time series file.
#[derive(Debug)]
pub struct TimeSeriesFile {
    /// file path
    pub path: String,
    /// offset of the data segment
    pub data_offset: u64,
    /// type of the values
    pub value_type: ValueType,
    /// unit length recorded in the header
    pub unit_len: i8,
    /// sample unit time (ms)
    pub unit_time: i32,
    /// time of the first step (ms)
    pub begin_time: i64,
    /// time of the last step written (ms)
    pub end_time: i64,
    /// number of samples
    pub amount: i32,
}

/// One write to make to a file: `bytes` at `offset`.
#[derive(Debug)]
pub struct FileWrite {
    pub offset: u64,
    pub bytes: Vec<u8>,
}

/// The header-segment flag "TSHS".
pub open spec fn ts_header_flag() -> Seq<u8> {
    seq![84u8, 83u8, 72u8, 83u8]
}

/// The data-segment flag "TSDS".
pub open spec fn ts_data_flag() -> Seq<u8> {
    seq![84u8, 83u8, 68u8, 83u8]
}

/// The header fields of `info`, encoded.
pub open spec fn ts_header_fields(info: TimeSeriesFile) -> Seq<u8> {
    seq![value_type_code(info.value_type) as u8, info.unit_len as u8] + be_u32(
        info.unit_time as u32,
    ) + be_u64(info.begin_time as u64) + be_u64(info.end_time as u64) + be_u32(
        info.amount as u32,
    )
}

/// Everything before the data segment of a file holding `info`.
pub open spec fn ts_file_prefix(info: TimeSeriesFile) -> Seq<u8> {
    ts_header_flag() + be_u16(26) + ts_header_fields(info) + ts_data_flag()
}

/// The header length stored in a file's first bytes.
pub open spec fn ts_stored_header_len(b: Seq<u8>) -> int {
    from_be_u16(b.subrange(4, 6)) as int
}

/// Whether reading the header of a file with contents `b` can complete: it
/// cannot when the file ends inside the fields it reads, when a flag is not
/// UTF-8, or when the value type code is unknown.
pub open spec fn ts_header_readable(b: Seq<u8>) -> bool {
    &&& b.len() >= 4
    &&& valid_utf8(b.subrange(0, 4))
    &&& b.subrange(0, 4) == ts_header_flag() ==> {
        &&& b.len() >= 32
        &&& value_type_of_code(b[6] as i8) is Some
        &&& b.len() >= ts_stored_header_len(b) + 10
        &&& valid_utf8(b.subrange(ts_stored_header_len(b) + 6, ts_stored_header_len(b) + 10))
    }
}

/// Appends `more` to `out`.
fn append_bytes(out: &mut Vec<u8>, more: Vec<u8>)
    ensures
        final(out)@ == old(out)@ + more@,
{
    let mut m = more;
    out.append(&mut m);
}

/// Whether `b[pos..pos+4]` is the flag `flag`.
fn flag_at(b: &[u8], pos: usize, flag: [u8; 4]) -> (r: bool)
    requires
        pos + 4 <= b@.len(),
    ensures
        r == (b@.subrange(pos as int, pos + 4) == flag@),
{
    let r = b[pos] == flag[0] && b[pos + 1] == flag[1] && b[pos + 2] == flag[2] && b[pos + 3]
        == flag[3];
    if r {
        assert(b@.subrange(pos as int, pos + 4) =~= flag@);
    }
    r
}

impl TimeSeriesFile {
    /// Whether this is the metadata of a series just created for
    /// `value_type` values every `unit_time` ms at `path`.
    pub open spec fn is_fresh(&self, value_type: ValueType, unit_time: i32, path: Seq<char>) -> bool {
        &&& self.path@ == path
        &&& self.data_offset == 0
        &&& self.value_type == value_type
        &&& self.unit_len == 2
        &&& self.unit_time == unit_time
        &&& self.begin_time == 0
        &&& self.end_time == 0
        &&& self.amount == 0
    }

    /// The metadata of a new series of `value_type` values sampled every
    /// `unit_time` ms, stored at `path`.
    pub fn new(value_type: ValueType, unit_time: i32, path: &str) -> (r: TimeSeriesFile)
        ensures
            r.is_fresh(value_type, unit_time, path@),
    {
        TimeSeriesFile {
            path: path.to_owned(),
            data_offset: 0,
            unit_time,
            unit_len: get_unit_len(value_type),
            value_type,
            begin_time: 0,
            end_time: 0,
            amount: 0,
        }
    }

    /// The bytes before the data segment: both flags, the header length and
    /// the header fields.
    pub fn encode_file_prefix(&self) -> (r: Vec<u8>)
        ensures
            r@ == ts_file_prefix(*self),
            r@.len() == 36,
    {
        let mut fields: Vec<u8> = Vec::new();
        fields.push(self.value_type.as_i8() as u8);
        fields.push(self.unit_len as u8);
        append_bytes(&mut fields, be_bytes_u32(self.unit_time as u32));
        append_bytes(&mut fields, be_bytes_u64(self.begin_time as u64));
        append_bytes(&mut fields, be_bytes_u64(self.end_time as u64));
        append_bytes(&mut fields, be_bytes_u32(self.amount as u32));
        let mut out: Vec<u8> = vec![84u8, 83u8, 72u8, 83u8];
        append_bytes(&mut out, be_bytes_u16(fields.len() as u16));
        append_bytes(&mut out, fields);
        append_bytes(&mut out, vec![84u8, 83u8, 68u8, 83u8]);
        assert(out@ =~= ts_file_prefix(*self));
        out
    }
}

/// `info` with the header fields replaced by those stored in `b`.
pub open spec fn ts_decoded_fields(info: TimeSeriesFile, b: Seq<u8>) -> TimeSeriesFile {
    TimeSeriesFile {
        value_type: value_type_of_code(b[6] as i8).unwrap(),
        unit_len: b[7] as i8,
        unit_time: from_be_u32(b.subrange(8, 12)) as i32,
        begin_time: from_be_u64(b.subrange(12, 20)) as i64,
        end_time: from_be_u64(b.subrange(20, 28)) as i64,
        amount: from_be_u32(b.subrange(28, 32)) as i32,
        ..info
    }
}

/// A time series file opened for reading.
pub struct TimeSeriesFileReader {
    info: TimeSeriesFile,
    inited: bool,
}

impl TimeSeriesFileReader {
    /// The metadata the reader holds.
    pub closed spec fn spec_info(&self) -> TimeSeriesFile {
        self.info
    }

    /// Whether the header has been read.
    pub closed spec fn spec_inited(&self) -> bool {
        self.inited
    }

    /// A reader of the file at `path` whose header is not read yet.
    pub fn new(path: &str) -> (r: TimeSeriesFileReader)
        ensures
            r.spec_info().is_fresh(ValueType::UNKNOWN, 0, path@),
            !r.spec_inited(),
    {
        TimeSeriesFileReader { info: TimeSeriesFile::new(ValueType::UNKNOWN, 0, path), inited: false }
    }

    /// Reads the header from the file contents `file`, once: checks both
    /// flags, takes the stored metadata and locates the data segment.
    pub fn init(&mut self, file: &[u8]) -> (r: Result<bool, IoError>)
        requires
            !old(self).spec_inited() ==> ts_header_readable(file@),
        ensures
            old(self).spec_inited() ==> r == Ok::<bool, IoError>(true) && *final(self) == *old(self),
            !old(self).spec_inited() && file@.subrange(0, 4) != ts_header_flag() ==> (r matches Err(
                e,
            ) && e.kind == ErrorKind::InvalidInput && *final(self) == *old(self)),
            !old(self).spec_inited() && file@.subrange(0, 4) == ts_header_flag() ==> {
                let hl = ts_stored_header_len(file@);
                let fields = ts_decoded_fields(old(self).spec_info(), file@);
                if file@.subrange(hl + 6, hl + 10) == ts_data_flag() {
                    &&& r == Ok::<bool, IoError>(true)
                    &&& final(self).spec_inited()
                    &&& final(self).spec_info() == (TimeSeriesFile { data_offset: (hl + 10) as u64, ..fields })
                } else {
                    &&& r matches Err(e) && e.kind == ErrorKind::InvalidInput
                    &&& !final(self).spec_inited()
                    &&& final(self).spec_info() == fields
                }
            },
    {
        if !self.inited {
            if !flag_at(file, 0, [84u8, 83u8, 72u8, 83u8]) {
                return Err(io_error(ErrorKind::InvalidInput, "Invalid time series file (header segment)"));
            }
            let header_len = read_be_u16(file, 4) as usize;
            let header_offset: usize = 4 + 2;
            let code = file[6] as i8;
            match ValueType::from_i8(code) {
                Some(t) => { self.info.value_type = t; },
                None => { assert(false); },
            }
            self.info.unit_len = file[7] as i8;
            self.info.unit_time = read_be_u32(file, 8) as i32;
            self.info.begin_time = read_be_u64(file, 12) as i64;
            self.info.end_time = read_be_u64(file, 20) as i64;
            self.info.amount = read_be_u32(file, 28) as i32;
            if !flag_at(file, header_offset + header_len, [84u8, 83u8, 68u8, 83u8]) {
                return Err(io_error(ErrorKind::InvalidInput, "Invalid time series file (data segment)"));
            }
            self.info.data_offset = (header_offset + header_len + 4) as u64;
            self.inited = true;
        }
        Ok(true)
    }
}

/// Reading back a header that `encode_file_prefix` wrote restores every
/// header field and puts the data segment right after the prefix, whatever
/// data follows.
pub proof fn lemma_ts_header_roundtrip(info: TimeSeriesFile, reader_info: TimeSeriesFile, data: Seq<u8>)
    ensures
        ({
            let b = ts_file_prefix(info) + data;
            let d = ts_decoded_fields(reader_info, b);
            &&& ts_header_readable(b)
            &&& b.subrange(0, 4) == ts_header_flag()
            &&& ts_stored_header_len(b) == 26
            &&& b.subrange(32, 36) == ts_data_flag()
            &&& d.value_type == info.value_type
            &&& d.unit_len == info.unit_len
            &&& d.unit_time == info.unit_time
            &&& d.begin_time == info.begin_time
            &&& d.end_time == info.end_time
            &&& d.amount == info.amount
            &&& d.path == reader_info.path
        }),
{
    let b = ts_file_prefix(info) + data;
    let p = ts_file_prefix(info);
    lemma_be_u16_roundtrip(26);
    lemma_be_u32_roundtrip(info.unit_time as u32);
    lemma_be_u64_roundtrip(info.begin_time as u64);
    lemma_be_u64_roundtrip(info.end_time as u64);
    lemma_be_u32_roundtrip(info.amount as u32);
    assert(p.len() == 36);
    assert(b.subrange(0, 4) =~= ts_header_flag());
    assert(b.subrange(4, 6) =~= be_u16(26));
    assert(b.subrange(8, 12) =~= be_u32(info.unit_time as u32));
    assert(b.subrange(12, 20) =~= be_u64(info.begin_time as u64));
    assert(b.subrange(20, 28) =~= be_u64(info.end_time as u64));
    assert(b.subrange(28, 32) =~= be_u32(info.amount as u32));
    assert(b.subrange(32, 36) =~= ts_data_flag());
    assert(b[6] == value_type_code(info.value_type) as u8);
    assert(b[7] == info.unit_len as u8);
    let c = value_type_code(info.value_type);
    assert((c as u8) as i8 == c);
    let u = info.unit_len;
    assert((u as u8) as i8 == u) by (bit_vector);
    let t = info.unit_time;
    assert((t as u32) as i32 == t) by (bit_vector);
    let a = info.amount;
    assert((a as u32) as i32 == a) by (bit_vector);
    let bt = info.begin_time;
    assert((bt as u64) as i64 == bt) by (bit_vector);
    let et = info.end_time;
    assert((et as u64) as i64 == et) by (bit_vector);
    lemma_ascii_utf8(ts_header_flag());
    lemma_ascii_utf8(ts_data_flag());
}

/// The sum of `s`.
pub open spec fn seq_sum(s: Seq<i64>) -> int
    decreases s.len(),
{
    if s.len() == 0 {
        0
    } else {
        seq_sum(s.drop_last()) + s.last()
    }
}

/// Whether adding up `s` from the left never leaves the range of `i64`.
pub open spec fn sums_fit(s: Seq<i64>) -> bool {
    forall|k: int| 0 <= k <= s.len() ==> i64::MIN <= #[trigger] seq_sum(s.take(k)) <= i64::MAX
}

/// The sum of a slice of 64-bit values.
pub fn ts_sum_int64(numbers: &[i64]) -> (r: i64)
    requires
        sums_fit(numbers@),
    ensures
        r == seq_sum(numbers@),
{
    let mut sum: i64 = 0;
    let mut i: usize = 0;
    assert(numbers@.take(0) =~= Seq::<i64>::empty());
    while i < numbers.len()
        invariant
            i <= numbers@.len(),
            sums_fit(numbers@),
            sum == seq_sum(numbers@.take(i as int)),
        decreases numbers@.len() - i,
    {
        assert(numbers@.take(i + 1).drop_last() =~= numbers@.take(i as int));
        assert(i64::MIN <= seq_sum(numbers@.take(i + 1)) <= i64::MAX);
        sum = sum + numbers[i];
        i = i + 1;
    }
    assert(numbers@.take(numbers@.len() as int) =~= numbers@);
    sum
}

/// `x` held between `lo` and `hi` as `min(max(lo, x), hi)` does.
pub open spec fn clamp(x: int, lo: int, hi: int) -> int {
    let m = if lo > x {
        lo
    } else {
        x
    };
    if m > hi {
        hi
    } else {
        m
    }
}

/// The sums of consecutive runs of `m` values of `data`; a shorter last run
/// is left out.
pub open spec fn merged_sums(data: Seq<i64>, m: int) -> Seq<i64> {
    Seq::new((data.len() as int / m) as nat, |i: int| seq_sum(data.subrange(i * m, (i + 1) * m)) as i64)
}

/// How many source steps are merged into one for a query in units of
/// `unit_time_ms` over a series sampled every `unit_time` ms.
pub open spec fn merge_count(unit_time_ms: i32, unit_time: i32) -> usize {
    tdiv(unit_time_ms as int, unit_time as int) as usize
}

/// Whether summarizing `data` for a query in units of `unit_time_ms`
/// completes without an arithmetic fault.
pub open spec fn summary_ok(data: Seq<i64>, unit_time: i32, unit_time_ms: i32) -> bool {
    let m = merge_count(unit_time_ms, unit_time);
    &&& unit_time != 0
    &&& !(unit_time_ms == i32::MIN && unit_time == -1)
    &&& i32::MIN <= (m as i32) * unit_time <= i32::MAX
    &&& m > 1 ==> {
        &&& forall|i: int|
            0 <= i < data.len() as int / (m as int) ==> #[trigger] sums_fit(
                data.subrange(i * m, (i + 1) * m),
            )
        &&& sums_fit(merged_sums(data, m as int))
    }
    &&& m <= 1 ==> sums_fit(data)
}

/// Whether `r` is the summary of `data` between `begin_time` and `end_time`
/// for a query in units of `unit_time_ms`: runs of `unit_time_ms /
/// unit_time` values are added up when that is more than one.
pub open spec fn is_summary(
    r: TSResult,
    begin_time: i64,
    end_time: i64,
    unit_time: i32,
    unit_time_ms: i32,
    data: Seq<i64>,
) -> bool {
    let m = merge_count(unit_time_ms, unit_time);
    let values = if m > 1 {
        merged_sums(data, m as int)
    } else {
        data
    };
    &&& r.begin_time == begin_time
    &&& r.end_time == end_time
    &&& r.unit_time == (m as i32) * unit_time
    &&& r.steps == values.len() as i32
    &&& r.total_cpu_time == seq_sum(values)
    &&& r.data matches TSRangeValue::vec_int64(v) && v@ == values
}

/// Summarizes the values of a range: merges runs of source steps into the
/// query's unit and totals them.
pub fn summarize_range(
    begin_time: i64,
    end_time: i64,
    unit_time: i32,
    unit_time_ms: i32,
    data_vec: Vec<i64>,
) -> (r: TSResult)
    requires
        summary_ok(data_vec@, unit_time, unit_time_ms),
    ensures
        is_summary(r, begin_time, end_time, unit_time, unit_time_ms, data_vec@),
{
    let merge_num = #[verifier::truncate] (div_trunc_i64(unit_time_ms as i64, unit_time as i64) as usize);
    assert(merge_num == merge_count(unit_time_ms, unit_time));
    let unit_time_ms2 = (#[verifier::truncate] (merge_num as i32)) * unit_time;
    if merge_num > 1 {
        let mut new_data_vec: Vec<i64> = Vec::new();
        let size = data_vec.len() / merge_num;
        let mut i: usize = 0;
        while i < size
            invariant
                i <= size,
                size == data_vec@.len() as int / (merge_num as int),
                merge_num > 1,
                summary_ok(data_vec@, unit_time, unit_time_ms),
                merge_num == merge_count(unit_time_ms, unit_time),
                new_data_vec@ == merged_sums(data_vec@, merge_num as int).take(i as int),
            decreases size - i,
        {
            let n = data_vec.len();
            assert(0 <= (i as int) * (merge_num as int) <= (i as int + 1) * (merge_num as int)
                <= n) by (nonlinear_arith)
                requires
                    i < size,
                    size == n as int / (merge_num as int),
                    merge_num > 1,
            ;
            let ghost chunk = data_vec@.subrange(i * merge_num, (i + 1) * merge_num);
            assert(sums_fit(chunk));
            let slice = slice_range(data_vec.as_slice(), i * merge_num, (i + 1) * merge_num);
            let s = ts_sum_int64(slice.as_slice());
            new_data_vec.push(s);
            i = i + 1;
            assert(new_data_vec@ =~= merged_sums(data_vec@, merge_num as int).take(i as int));
        }
        assert(new_data_vec@ =~= merged_sums(data_vec@, merge_num as int));
        let total_cpu_time = ts_sum_int64(new_data_vec.as_slice());
        TSResult {
            begin_time,
            end_time,
            total_cpu_time,
            unit_time: unit_time_ms2,
            steps: #[verifier::truncate] (new_data_vec.len() as i32),
            data: TSRangeValue::vec_int64(new_data_vec),
        }
    } else {
        let total_cpu_time = ts_sum_int64(data_vec.as_slice());
        TSResult {
            begin_time,
            end_time,
            total_cpu_time,
            unit_time: unit_time_ms2,
            steps: #[verifier::truncate] (data_vec.len() as i32),
            data: TSRangeValue::vec_int64(data_vec),
        }
    }
}

/// A copy of `s[from..to]`.
fn slice_range(s: &[i64], from: usize, to: usize) -> (r: Vec<i64>)
    requires
        from <= to <= s@.len(),
    ensures
        r@ == s@.subrange(from as int, to as int),
{
    let mut out: Vec<i64> = Vec::new();
    let mut i = from;
    while i < to
        invariant
            from <= i <= to <= s@.len(),
            out@ == s@.subrange(from as int, i as int),
        decreases to - i,
    {
        out.push(s[i]);
        i = i + 1;
        assert(out@ =~= s@.subrange(from as int, i as int));
    }
    out
}

/// The value of type `t` stored at `pos` in `b`, widened to 64 bits.
pub open spec fn decode_value(t: ValueType, b: Seq<u8>, pos: int) -> i64 {
    match t {
        ValueType::INT16 => (from_be_u16(b.subrange(pos, pos + 2)) as i16) as i64,
        ValueType::UINT16 => from_be_u16(b.subrange(pos, pos + 2)) as i64,
        ValueType::INT32 => (from_be_u32(b.subrange(pos, pos + 4)) as i32) as i64,
        ValueType::UINT32 => from_be_u32(b.subrange(pos, pos + 4)) as i64,
        ValueType::INT64 => from_be_u64(b.subrange(pos, pos + 8)) as i64,
        ValueType::UNKNOWN => 0,
    }
}

/// The `count` values of type `t` stored one after another from `start`.
pub open spec fn values_at(t: ValueType, b: Seq<u8>, start: int, count: int) -> Seq<i64> {
    if t == ValueType::UNKNOWN {
        Seq::empty()
    } else {
        Seq::new(count as nat, |k: int| decode_value(t, b, start + k * value_width(t)))
    }
}

impl TimeSeriesFile {
    /// The step of time `t` counted from the series' begin time.
    pub open spec fn step_of(&self, t: int) -> int {
        tdiv(t - self.begin_time, self.unit_time as int)
    }

    /// The file offset of step `step`, computed in unsigned 64-bit
    /// arithmetic.
    pub open spec fn offset_of(&self, step: int) -> int {
        self.data_offset as int + (self.unit_len as u64) as int * (step as u64) as int
    }

    /// The first time of the range a query from `t` covers.
    pub open spec fn range_start(&self, t: i64) -> int {
        clamp(t as int, self.begin_time as int, self.end_time as int)
    }

    /// The number of values a query from `start` to `end` reads.
    pub open spec fn range_count(&self, start: i64, end: i64) -> int {
        (self.offset_of(self.step_of(self.range_start(end))) - self.offset_of(
            self.step_of(self.range_start(start)),
        )) / ((self.unit_len as u64) as int)
    }

    /// The values a query from `start` to `end` reads from the file contents
    /// `file` (none when the file could not be opened).
    pub open spec fn range_values(&self, start: i64, end: i64, file: Option<Seq<u8>>) -> Seq<i64> {
        match file {
            Some(b) => values_at(
                self.value_type,
                b,
                self.offset_of(self.step_of(self.range_start(start))),
                self.range_count(start, end),
            ),
            None => Seq::empty(),
        }
    }

    /// Whether a query from `start` to `end` in units of `unit_time_ms`
    /// can complete: it cannot on a zero unit time, on arithmetic overflow,
    /// or when the file ends before the values it reads.
    pub open spec fn range_query_ok(
        &self,
        start: i64,
        end: i64,
        unit_time_ms: i32,
        file: Option<Seq<u8>>,
    ) -> bool {
        let s = self.range_start(start);
        let e = self.range_start(end);
        let o1 = self.offset_of(self.step_of(s));
        let o2 = self.offset_of(self.step_of(e));
        &&& self.unit_time != 0
        &&& i64::MIN <= s - self.begin_time <= i64::MAX
        &&& i64::MIN <= e - self.begin_time <= i64::MAX
        &&& !(s - self.begin_time == i64::MIN && self.unit_time == -1)
        &&& !(e - self.begin_time == i64::MIN && self.unit_time == -1)
        &&& (self.unit_len as u64) as int * (self.step_of(s) as u64) as int <= u64::MAX
        &&& (self.unit_len as u64) as int * (self.step_of(e) as u64) as int <= u64::MAX
        &&& o1 <= u64::MAX
        &&& o2 <= u64::MAX
        &&& o1 <= o2
        &&& self.unit_len as u64 != 0
        &&& match file {
            Some(b) => self.value_type != ValueType::UNKNOWN ==> o1 + self.range_count(start, end)
                * value_width(self.value_type) <= b.len(),
            None => true,
        }
        &&& summary_ok(self.range_values(start, end, file), self.unit_time, unit_time_ms)
    }

    /// The values between `origin_start_time` and `origin_end_time`, summed
    /// into units of `unit_time_ms`; `file` is the file's contents, or
    /// nothing when it could not be opened. Both times are first held within
    /// the series' begin and end time.
    pub fn get_range_value(
        &self,
        origin_start_time: i64,
        origin_end_time: i64,
        unit_time_ms: i32,
        file: Option<&[u8]>,
    ) -> (r: TSResult)
        requires
            self.range_query_ok(
                origin_start_time,
                origin_end_time,
                unit_time_ms,
                match file {
                    Some(b) => Some(b@),
                    None => None,
                },
            ),
        ensures
            is_summary(
                r,
                self.range_start(origin_start_time) as i64,
                self.range_start(origin_end_time) as i64,
                self.unit_time,
                unit_time_ms,
                self.range_values(
                    origin_start_time,
                    origin_end_time,
                    match file {
                        Some(b) => Some(b@),
                        None => None,
                    },
                ),
            ),
    {
        let ghost fs = match file {
            Some(b) => Some(b@),
            None => None,
        };
        let mut start_time = if self.begin_time > origin_start_time {
            self.begin_time
        } else {
            origin_start_time
        };
        start_time = if start_time > self.end_time {
            self.end_time
        } else {
            start_time
        };
        let mut end_time = if self.begin_time > origin_end_time {
            self.begin_time
        } else {
            origin_end_time
        };
        end_time = if end_time > self.end_time {
            self.end_time
        } else {
            end_time
        };
        let step1 = div_trunc_i64(start_time - self.begin_time, self.unit_time as i64);
        let step2 = div_trunc_i64(end_time - self.begin_time, self.unit_time as i64);
        let unit = #[verifier::truncate] (self.unit_len as u64);
        let offset1 = self.data_offset + unit * (#[verifier::truncate] (step1 as u64));
        let offset2 = self.data_offset + unit * (#[verifier::truncate] (step2 as u64));
        let mut data_vec: Vec<i64> = Vec::new();
        match file {
            Some(b) => {
                let bytes = offset2 - offset1;
                let steps = bytes / unit;
                assert(steps == self.range_count(origin_start_time, origin_end_time));
                if self.value_type != ValueType::UNKNOWN {
                    let w: u64 = match self.value_type {
                        ValueType::INT16 => 2,
                        ValueType::UINT16 => 2,
                        ValueType::INT32 => 4,
                        ValueType::UINT32 => 4,
                        _ => 8,
                    };
                    assert(w == value_width(self.value_type));
                    let ghost want = values_at(self.value_type, b@, offset1 as int, steps as int);
                    let blen = b.len();
                    assert(b@.len() == blen);
                    let mut k: u64 = 0;
                    while k < steps
                        invariant
                            k <= steps,
                            w == value_width(self.value_type),
                            self.value_type != ValueType::UNKNOWN,
                            offset1 + steps * w <= b@.len(),
                            b@.len() <= usize::MAX,
                            want == values_at(self.value_type, b@, offset1 as int, steps as int),
                            data_vec@ == want.take(k as int),
                        decreases steps - k,
                    {
                        assert((k as int) * (w as int) + (w as int) <= (steps as int) * (w as int))
                            by (nonlinear_arith)
                            requires
                                k < steps,
                                w > 0,
                        ;
                        let kw = k * w;
                        let pos = (offset1 + kw) as usize;
                        let v: i64 = match self.value_type {
                            ValueType::INT16 => (#[verifier::truncate] (read_be_u16(b, pos) as i16)) as i64,
                            ValueType::UINT16 => read_be_u16(b, pos) as i64,
                            ValueType::INT32 => (#[verifier::truncate] (read_be_u32(b, pos) as i32)) as i64,
                            ValueType::UINT32 => read_be_u32(b, pos) as i64,
                            _ => #[verifier::truncate] (read_be_u64(b, pos) as i64),
                        };
                        assert(pos as int == offset1 as int + (k as int) * value_width(self.value_type));
                        assert(v == decode_value(self.value_type, b@, pos as int));
                        data_vec.push(v);
                        k = k + 1;
                        assert(data_vec@ =~= want.take(k as int));
                    }
                    assert(data_vec@ =~= want);
                } else {
                    assert(data_vec@ =~= values_at(self.value_type, b@, offset1 as int, steps as int));
                }
            },
            None => {},
        }
        assert(data_vec@ =~= self.range_values(origin_start_time, origin_end_time, fs));
        summarize_range(start_time, end_time, self.unit_time, unit_time_ms, data_vec)
    }
}

/// The step of `time` in a series beginning at `begin` with unit `unit`,
/// held at 0 for times before the beginning, truncated to 32 bits.
pub open spec fn clamped_step(time: i64, begin: i64, unit: i32) -> i64 {
    let s = tdiv(time - begin, unit as int);
    if s < 0 {
        0
    } else {
        s as i64
    }
}

/// Whether the step of `time` can be computed without an arithmetic fault.
pub open spec fn step_computable(time: i64, begin: i64, unit: i32) -> bool {
    &&& unit != 0
    &&& i64::MIN <= time - begin <= i64::MAX
    &&& !(time - begin == i64::MIN && unit == -1)
}

/// A time series, read from or written to a file.
pub trait TimeSeries {
    /// The metadata of the series.
    spec fn spec_header(&self) -> TimeSeriesFile;

    /// Whether `add_value` can run for a value at `time`.
    spec fn can_add(&self, time: i64) -> bool;

    /// The metadata of the series.
    fn get_header_info(&self) -> (r: &TimeSeriesFile)
        ensures
            *r == self.spec_header(),
    ;

    /// The begin time of the series.
    fn get_begin_time(&self) -> (r: i64)
        ensures
            r == self.spec_header().begin_time,
    ;

    /// Adds the value of the step that `time` falls in.
    fn add_value(&mut self, time: i64, value: TSValue) -> (r: Result<u32, IoError>)
        requires
            old(self).can_add(time),
    ;

    /// The step that `time` falls in (0 for times before the beginning).
    fn time_to_step(&self, time: i64) -> (r: u32)
        requires
            step_computable(time, self.spec_header().begin_time, self.spec_header().unit_time),
        ensures
            r == clamped_step(time, self.spec_header().begin_time, self.spec_header().unit_time) as u32,
    {
        let info = self.get_header_info();
        let mut steps = div_trunc_i64(time - info.begin_time, info.unit_time as i64);
        if steps < 0 {
            steps = 0;
        }
        #[verifier::truncate] (steps as u32)
    }
}

impl TimeSeries for TimeSeriesFileReader {
    open spec fn spec_header(&self) -> TimeSeriesFile {
        self.spec_info()
    }

    open spec fn can_add(&self, time: i64) -> bool {
        true
    }

    fn get_header_info(&self) -> (r: &TimeSeriesFile) {
        &self.info
    }

    fn get_begin_time(&self) -> (r: i64) {
        self.info.begin_time
    }

    /// A reader cannot add values: always fails with `PermissionDenied`.
    fn add_value(&mut self, time: i64, value: TSValue) -> (r: Result<u32, IoError>)
        ensures
            r matches Err(e) && e.kind == ErrorKind::PermissionDenied,
            *final(self) == *old(self),
    {
        Err(io_error(ErrorKind::PermissionDenied, "can not modify data file in reader mode"))
    }
}

/// The bytes a buffered value is written as.
pub open spec fn ts_value_bytes(v: TSValue) -> Seq<u8> {
    match v {
        TSValue::int16(x) => be_u16(x as u16),
        TSValue::int32(x) => be_u32(x as u32),
        TSValue::int64(x) => be_u64(x as u64),
    }
}

/// The width in bytes of a buffered value.
pub open spec fn ts_value_width(v: TSValue) -> int {
    match v {
        TSValue::int16(_) => 2,
        TSValue::int32(_) => 4,
        TSValue::int64(_) => 8,
    }
}

/// Whether a buffered value has the series' value type.
pub open spec fn ts_value_matches(t: ValueType, v: TSValue) -> bool {
    match v {
        TSValue::int16(_) => t == ValueType::INT16,
        TSValue::int32(_) => t == ValueType::INT32,
        TSValue::int64(_) => t == ValueType::INT64,
    }
}

/// The number of buffered entries a flush writes before it meets one of the
/// wrong type (all of them when there is none).
pub open spec fn ts_good_prefix(t: ValueType, buf: Seq<(i64, TSValue)>) -> int
    decreases buf.len(),
{
    if buf.len() == 0 {
        0
    } else if !ts_value_matches(t, buf[0].1) {
        0
    } else {
        1 + ts_good_prefix(t, buf.drop_first())
    }
}

/// The sample amount after flushing the first `k` entries of `buf`,
/// starting from `a`: each entry counts one more sample, up to its step + 1.
pub open spec fn ts_amount_after(a: int, buf: Seq<(i64, TSValue)>, k: int) -> int
    decreases k,
{
    if k <= 0 {
        a
    } else {
        let prev = ts_amount_after(a, buf, k - 1);
        let cap = (buf[k - 1].0 as i32) as int + 1;
        if prev + 1 <= cap {
            prev + 1
        } else {
            cap
        }
    }
}

/// The write that flushing the entry `e` makes.
pub open spec fn ts_entry_write(info: TimeSeriesFile, e: (i64, TSValue)) -> (int, Seq<u8>) {
    (info.data_offset as int + ((e.0 * ts_value_width(e.1)) as u64) as int, ts_value_bytes(e.1))
}

/// Whether flushing the first `n` entries of `buf` completes without an
/// arithmetic fault.
pub open spec fn ts_flush_ok(info: TimeSeriesFile, buf: Seq<(i64, TSValue)>, n: int) -> bool {
    forall|i: int|
        0 <= i < n ==> {
            &&& ts_amount_after(info.amount as int, buf, i) < i32::MAX
            &&& #[trigger] (buf[i].0 as i32) < i32::MAX
            &&& i64::MIN <= buf[i].0 * info.unit_time <= i64::MAX
            &&& i64::MIN <= info.begin_time + buf[i].0 * info.unit_time <= i64::MAX
            &&& buf[i].0 * ts_value_width(buf[i].1) <= i64::MAX
            &&& info.data_offset + buf[i].0 * ts_value_width(buf[i].1) <= u64::MAX
        }
}

/// A time series file being written: values are buffered, and a flush turns
/// the buffered values into writes to the data segment.
pub struct TimeSeriesFileWriter {
    info: TimeSeriesFile,
    inited: bool,
    last_save_time: i64,
    last_sample_time: i64,
    data_buffer: VecDeque<(i64, TSValue)>,
    last_flush_data_time: i64,
    data_flush_interval_time: i64,
    data_buffer_size_limit: usize,
}

impl TimeSeriesFileWriter {
    /// The metadata the writer holds.
    pub closed spec fn spec_info(&self) -> TimeSeriesFile {
        self.info
    }

    /// The buffered (step, value) entries, oldest first.
    pub closed spec fn spec_buffer(&self) -> Seq<(i64, TSValue)> {
        self.data_buffer@
    }

    /// Whether the header has been written.
    pub closed spec fn spec_inited(&self) -> bool {
        self.inited
    }

    /// The time of the last flush.
    pub closed spec fn spec_last_flush_time(&self) -> i64 {
        self.last_flush_data_time
    }

    /// The time of the last sample recorded for the header.
    pub closed spec fn spec_last_sample_time(&self) -> i64 {
        self.last_sample_time
    }

    /// The time the header was last saved.
    pub closed spec fn spec_last_save_time(&self) -> i64 {
        self.last_save_time
    }

    /// How long values may wait in the buffer (ms).
    pub closed spec fn spec_flush_interval(&self) -> i64 {
        self.data_flush_interval_time
    }

    /// How many values the buffer holds before a flush is due.
    pub closed spec fn spec_buffer_limit(&self) -> usize {
        self.data_buffer_size_limit
    }

    /// The writer's invariant: buffered steps are never negative.
    pub closed spec fn wf(&self) -> bool {
        forall|i: int| 0 <= i < self.data_buffer@.len() ==> #[trigger] self.data_buffer@[i].0 >= 0
    }

    /// A writer of a new series of `value_type` values every `unit_time` ms
    /// beginning at `begin_time`, stored at `path`; with it comes the write of
    /// its header.
    pub fn new(value_type: ValueType, unit_time: i32, begin_time: i64, path: &str) -> (r: (
        TimeSeriesFileWriter,
        FileWrite,
    ))
        ensures
            r.0.wf(),
            r.0.spec_inited(),
            r.0.spec_buffer() == Seq::<(i64, TSValue)>::empty(),
            r.0.spec_info().path@ == path@,
            r.0.spec_info().value_type == value_type,
            r.0.spec_info().unit_len == 2,
            r.0.spec_info().unit_time == unit_time,
            r.0.spec_info().begin_time == begin_time,
            r.0.spec_info().end_time == begin_time,
            r.0.spec_info().amount == 0,
            r.0.spec_info().data_offset == 36,
            r.0.spec_last_flush_time() == 0,
            r.0.spec_flush_interval() == 1000,
            r.0.spec_buffer_limit() == 1000,
            r.1.offset == 0,
            r.1.bytes@ == ts_file_prefix(r.0.spec_info()),
    {
        let data_flush_interval_time: i64 = 1000;
        let data_buffer_size_limit: usize = 1000;
        let info = TimeSeriesFile::new(value_type, unit_time, path);
        let mut writer = TimeSeriesFileWriter {
            info,
            inited: false,
            last_save_time: 0,
            last_sample_time: 0,
            data_buffer: VecDeque::with_capacity(data_buffer_size_limit + 2),
            data_buffer_size_limit,
            last_flush_data_time: 0,
            data_flush_interval_time,
        };
        let w = writer.init(begin_time);
        match w {
            Some(w) => (writer, w),
            None => {
                assert(false);
                (writer, FileWrite { offset: 0, bytes: Vec::new() })
            },
        }
    }

    /// Sets the begin and end time and writes the header, once.
    fn init(&mut self, time: i64) -> (r: Option<FileWrite>)
        ensures
            old(self).inited ==> r is None && *final(self) == *old(self),
            !old(self).inited ==> {
                &&& final(self).inited
                &&& final(self).info == (TimeSeriesFile {
                    begin_time: time,
                    end_time: time,
                    data_offset: 36,
                    ..old(self).info
                })
                &&& final(self).data_buffer@ == old(self).data_buffer@
                &&& final(self).last_flush_data_time == old(self).last_flush_data_time
                &&& final(self).data_flush_interval_time == old(self).data_flush_interval_time
                &&& final(self).data_buffer_size_limit == old(self).data_buffer_size_limit
                &&& r matches Some(w) && w.offset == 0 && w.bytes@ == ts_file_prefix(final(self).info)
            },
    {
        if !self.inited {
            self.info.begin_time = time;
            self.info.end_time = time;
            let w = self.save_header_info();
            self.inited = true;
            Some(w)
        } else {
            None
        }
    }

    /// The write of the header as the metadata now stands; the data segment
    /// starts right after it.
    pub fn save_header_info(&mut self) -> (r: FileWrite)
        ensures
            final(self).spec_info() == (TimeSeriesFile { data_offset: 36, ..old(self).spec_info() }),
            final(self).spec_last_save_time() == old(self).spec_last_sample_time(),
            final(self).spec_last_sample_time() == old(self).spec_last_sample_time(),
            final(self).spec_buffer() == old(self).spec_buffer(),
            final(self).spec_inited() == old(self).spec_inited(),
            final(self).spec_last_flush_time() == old(self).spec_last_flush_time(),
            final(self).spec_flush_interval() == old(self).spec_flush_interval(),
            final(self).spec_buffer_limit() == old(self).spec_buffer_limit(),
            r.offset == 0,
            r.bytes@ == ts_file_prefix(final(self).spec_info()),
    {
        let bytes = self.info.encode_file_prefix();
        self.info.data_offset = 36;
        self.last_save_time = self.last_sample_time;
        FileWrite { offset: 0, bytes }
    }
}

/// The entries before `ts_good_prefix` all have the series' type, and the
/// entry there (if any) does not.
pub proof fn lemma_ts_good_prefix(t: ValueType, buf: Seq<(i64, TSValue)>)
    ensures
        0 <= ts_good_prefix(t, buf) <= buf.len(),
        forall|i: int| 0 <= i < ts_good_prefix(t, buf) ==> ts_value_matches(t, #[trigger] buf[i].1),
        ts_good_prefix(t, buf) < buf.len() ==> !ts_value_matches(t, buf[ts_good_prefix(t, buf)].1),
    decreases buf.len(),
{
    if buf.len() > 0 && ts_value_matches(t, buf[0].1) {
        lemma_ts_good_prefix(t, buf.drop_first());
        assert forall|i: int| 0 <= i < ts_good_prefix(t, buf) implies ts_value_matches(
            t,
            #[trigger] buf[i].1,
        ) by {
            if i > 0 {
                assert(buf[i] == buf.drop_first()[i - 1]);
            }
        }
    }
}

/// The end time after flushing the first `i` entries of `buf`.
pub open spec fn ts_end_after(info: TimeSeriesFile, buf: Seq<(i64, TSValue)>, i: int) -> i64 {
    if i <= 0 {
        info.end_time
    } else {
        (info.begin_time + buf[i - 1].0 * info.unit_time) as i64
    }
}

/// How many entries a flush of `buf` takes out of the buffer.
pub open spec fn ts_flush_taken(t: ValueType, buf: Seq<(i64, TSValue)>) -> int {
    let k = ts_good_prefix(t, buf);
    if k < buf.len() {
        k + 1
    } else {
        k
    }
}

impl TimeSeries for TimeSeriesFileWriter {
    open spec fn spec_header(&self) -> TimeSeriesFile {
        self.spec_info()
    }

    open spec fn can_add(&self, time: i64) -> bool {
        step_computable(time, self.spec_info().begin_time, self.spec_info().unit_time)
    }

    fn get_header_info(&self) -> (r: &TimeSeriesFile) {
        &self.info
    }

    fn get_begin_time(&self) -> (r: i64) {
        self.info.begin_time
    }

    /// Buffers `value` under the step `time` falls in and answers that step.
    fn add_value(&mut self, time: i64, value: TSValue) -> (r: Result<u32, IoError>)
        ensures
            ({
                let step = clamped_step(time, old(self).spec_info().begin_time, old(self).spec_info().unit_time);
                &&& r == Ok::<u32, IoError>(step as u32)
                &&& final(self).spec_buffer() == old(self).spec_buffer().push((step, value))
                &&& final(self).spec_info() == old(self).spec_info()
                &&& final(self).spec_inited() == old(self).spec_inited()
                &&& final(self).spec_last_flush_time() == old(self).spec_last_flush_time()
                &&& final(self).spec_last_sample_time() == old(self).spec_last_sample_time()
                &&& final(self).spec_last_save_time() == old(self).spec_last_save_time()
                &&& final(self).spec_flush_interval() == old(self).spec_flush_interval()
                &&& final(self).spec_buffer_limit() == old(self).spec_buffer_limit()
                &&& (old(self).wf() ==> final(self).wf())
            }),
    {
        let mut steps = div_trunc_i64(time - self.info.begin_time, self.info.unit_time as i64);
        if steps < 0 {
            steps = 0;
        }
        let ghost old_buf = self.data_buffer@;
        self.data_buffer.push_back((steps, value));
        assert forall|i: int| 0 <= i < self.data_buffer@.len() && (forall|j: int| 0 <= j < old_buf.len() ==> #[trigger] old_buf[j].0 >= 0)
            implies #[trigger] self.data_buffer@[i].0 >= 0 by {
            if i < old_buf.len() {
                assert(self.data_buffer@[i] == old_buf[i]);
            }
        }
        Ok(#[verifier::truncate] (steps as u32))
    }
}

impl TimeSeriesFileWriter {
    /// Whether a flush is due at `now_time`: the last one is more than the
    /// flush interval ago, or the buffer holds as many values as its limit.
    pub fn flush_due_at(&self, now_time: i64) -> (r: bool)
        requires
            i64::MIN <= now_time - self.spec_last_flush_time() <= i64::MAX,
        ensures
            r == (now_time - self.spec_last_flush_time() > self.spec_flush_interval()
                || self.spec_buffer().len() >= self.spec_buffer_limit()),
    {
        let interval = now_time - self.last_flush_data_time;
        interval > self.data_flush_interval_time || self.data_buffer.len() >= self.data_buffer_size_limit
    }

    /// Whether a flush is due now, by the wall clock: the test that follows
    /// each added value.
    pub fn flush_due(&self) -> (r: bool)
        requires
            self.spec_last_flush_time() >= 0,
        ensures
            self.spec_buffer().len() >= self.spec_buffer_limit() ==> r,
    {
        let now_time = now_millis();
        if now_time < 0 {
            return self.data_buffer.len() >= self.data_buffer_size_limit;
        }
        self.flush_due_at(now_time)
    }

    /// Flushes the buffer at time `now_time`: takes the buffered values out
    /// in order, counting each as a sample and moving the end time to its
    /// step, and answers the writes that store them; stops with
    /// `InvalidInput` at the first value whose type is not the series' type.
    /// When all went in, the header is written last and the flush time is
    /// set to `now_time`.
    pub fn flush_at(&mut self, now_time: i64) -> (r: (Vec<FileWrite>, Result<(), IoError>))
        requires
            old(self).wf(),
            ts_flush_ok(
                old(self).spec_info(),
                old(self).spec_buffer(),
                ts_flush_taken(old(self).spec_info().value_type, old(self).spec_buffer()),
            ),
        ensures
            ({
                let info = old(self).spec_info();
                let buf = old(self).spec_buffer();
                let k = ts_good_prefix(info.value_type, buf);
                let n = ts_flush_taken(info.value_type, buf);
                let info2 = (TimeSeriesFile {
                    amount: ts_amount_after(info.amount as int, buf, n) as i32,
                    end_time: ts_end_after(info, buf, n),
                    ..info
                });
                &&& final(self).wf()
                &&& final(self).spec_buffer() == buf.skip(n)
                &&& final(self).spec_inited() == old(self).spec_inited()
                &&& final(self).spec_flush_interval() == old(self).spec_flush_interval()
                &&& final(self).spec_buffer_limit() == old(self).spec_buffer_limit()
                &&& final(self).spec_last_sample_time() == old(self).spec_last_sample_time()
                &&& forall|i: int|
                    0 <= i < k ==> (#[trigger] r.0@[i]).offset == ts_entry_write(info, buf[i]).0
                        && r.0@[i].bytes@ == ts_entry_write(info, buf[i]).1
                &&& if k < buf.len() {
                    &&& r.1 matches Err(e) && e.kind == ErrorKind::InvalidInput
                    &&& r.0@.len() == k
                    &&& final(self).spec_info() == info2
                    &&& final(self).spec_last_flush_time() == old(self).spec_last_flush_time()
                    &&& final(self).spec_last_save_time() == old(self).spec_last_save_time()
                } else {
                    &&& r.1 is Ok
                    &&& r.0@.len() == k + 1
                    &&& final(self).spec_info() == (TimeSeriesFile { data_offset: 36, ..info2 })
                    &&& r.0@[k].offset == 0
                    &&& r.0@[k].bytes@ == ts_file_prefix(final(self).spec_info())
                    &&& final(self).spec_last_flush_time() == now_time
                    &&& final(self).spec_last_save_time() == old(self).spec_last_sample_time()
                }
            }),
    {
        let ghost info0 = self.info;
        let ghost buf = self.data_buffer@;
        let ghost k = ts_good_prefix(info0.value_type, buf);
        proof {
            lemma_ts_good_prefix(info0.value_type, buf);
        }
        let mut writes: Vec<FileWrite> = Vec::new();
        let n0 = self.data_buffer.len();
        let mut i: usize = 0;
        while self.data_buffer.len() > 0
            invariant
                i <= k,
                k <= buf.len(),
                k == ts_good_prefix(info0.value_type, buf),
                buf.len() == n0,
                i32::MIN <= ts_amount_after(info0.amount as int, buf, i as int) <= i32::MAX,
                info0 == old(self).info,
                buf == old(self).data_buffer@,
                self.data_buffer@ == buf.skip(i as int),
                self.info == (TimeSeriesFile {
                    amount: ts_amount_after(info0.amount as int, buf, i as int) as i32,
                    end_time: ts_end_after(info0, buf, i as int),
                    ..info0
                }),
                self.inited == old(self).inited,
                self.last_flush_data_time == old(self).last_flush_data_time,
                self.last_save_time == old(self).last_save_time,
                self.last_sample_time == old(self).last_sample_time,
                self.data_flush_interval_time == old(self).data_flush_interval_time,
                self.data_buffer_size_limit == old(self).data_buffer_size_limit,
                forall|j: int| 0 <= j < buf.len() ==> #[trigger] buf[j].0 >= 0,
                forall|j: int| 0 <= j < k ==> ts_value_matches(info0.value_type, #[trigger] buf[j].1),
                k < buf.len() ==> !ts_value_matches(info0.value_type, buf[k].1),
                ts_flush_ok(info0, buf, ts_flush_taken(info0.value_type, buf)),
                writes@.len() == i,
                forall|j: int|
                    0 <= j < i ==> (#[trigger] writes@[j]).offset == ts_entry_write(info0, buf[j]).0
                        && writes@[j].bytes@ == ts_entry_write(info0, buf[j]).1,
            decreases self.data_buffer@.len(),
        {
            assert(self.data_buffer@.len() == buf.len() - i);
            let entry = self.data_buffer.pop_front();
            let (steps, value) = match entry {
                Some(e) => e,
                None => { assert(false); (0i64, TSValue::int16(0)) },
            };
            assert(buf[i as int] == (steps, value));
            assert(i < buf.len());
            assert(k == ts_good_prefix(info0.value_type, buf));
            assert(i < ts_flush_taken(info0.value_type, buf));
            assert((#[verifier::truncate] (buf[i as int].0 as i32)) < i32::MAX);
            assert(ts_amount_after(info0.amount as int, buf, i as int) < i32::MAX);
            assert(i64::MIN <= info0.begin_time + buf[i as int].0 * info0.unit_time <= i64::MAX);
            assert(i64::MIN <= buf[i as int].0 * info0.unit_time <= i64::MAX);
            assert(buf[i as int].0 * ts_value_width(buf[i as int].1) <= i64::MAX);
            assert(info0.data_offset + buf[i as int].0 * ts_value_width(buf[i as int].1) <= u64::MAX);
            assert(steps >= 0);
            let step32 = #[verifier::truncate] (steps as i32);
            let a = self.info.amount + 1;
            self.info.amount = if a < step32 + 1 { a } else { step32 + 1 };
            self.info.end_time = self.info.begin_time + steps * (self.info.unit_time as i64);
            assert(self.info.amount == ts_amount_after(info0.amount as int, buf, i + 1));
            assert(self.info.end_time == ts_end_after(info0, buf, i + 1));
            let (ok, width): (bool, i64) = match value {
                TSValue::int16(_) => (self.info.value_type == ValueType::INT16, 2),
                TSValue::int32(_) => (self.info.value_type == ValueType::INT32, 4),
                TSValue::int64(_) => (self.info.value_type == ValueType::INT64, 8),
            };
            assert(self.data_buffer@ =~= buf.skip(i + 1));
            if !ok {
                assert(i == k);
                return (writes, Err(io_error(ErrorKind::InvalidInput, "value type not match")));
            }
            let offset = (steps * width) as u64;
            let bytes = match value {
                TSValue::int16(val) => be_bytes_u16(val as u16),
                TSValue::int32(val) => be_bytes_u32(val as u32),
                TSValue::int64(val) => be_bytes_u64(val as u64),
            };
            writes.push(FileWrite { offset: self.info.data_offset + offset, bytes });
            i = i + 1;
        }
        assert(i == buf.len());
        let w = self.save_header_info();
        writes.push(w);
        self.last_flush_data_time = now_time;
        (writes, Ok(()))
    }

    /// Whether `after` and the answer `r` are what a flush of this writer
    /// leaves and answers, whatever the time of the flush: the buffered
    /// values taken out in order up to the first of another type, their
    /// writes, the header after them when all went in, and the flush time
    /// kept when one did not.
    pub open spec fn flush_outcome(&self, after: TimeSeriesFileWriter, r: (Vec<FileWrite>, Result<(), IoError>)) -> bool {
        let info = self.spec_info();
        let buf = self.spec_buffer();
        let k = ts_good_prefix(info.value_type, buf);
        let n = ts_flush_taken(info.value_type, buf);
        let info2 = (TimeSeriesFile {
            amount: ts_amount_after(info.amount as int, buf, n) as i32,
            end_time: ts_end_after(info, buf, n),
            ..info
        });
        &&& after.wf()
        &&& after.spec_buffer() == buf.skip(n)
        &&& after.spec_inited() == self.spec_inited()
        &&& after.spec_flush_interval() == self.spec_flush_interval()
        &&& after.spec_buffer_limit() == self.spec_buffer_limit()
        &&& after.spec_last_sample_time() == self.spec_last_sample_time()
        &&& forall|i: int|
            0 <= i < k ==> (#[trigger] r.0@[i]).offset == ts_entry_write(info, buf[i]).0
                && r.0@[i].bytes@ == ts_entry_write(info, buf[i]).1
        &&& if k < buf.len() {
            &&& r.1 matches Err(e) && e.kind == ErrorKind::InvalidInput
            &&& r.0@.len() == k
            &&& after.spec_info() == info2
            &&& after.spec_last_flush_time() == self.spec_last_flush_time()
            &&& after.spec_last_save_time() == self.spec_last_save_time()
        } else {
            &&& r.1 is Ok
            &&& r.0@.len() == k + 1
            &&& after.spec_info() == (TimeSeriesFile { data_offset: 36, ..info2 })
            &&& r.0@[k].offset == 0
            &&& r.0@[k].bytes@ == ts_file_prefix(after.spec_info())
            &&& after.spec_last_save_time() == self.spec_last_sample_time()
        }
    }

    /// Flushes the buffer now, by the wall clock: what `flush_at` does at
    /// the clock's time.
    pub fn flush(&mut self) -> (r: (Vec<FileWrite>, Result<(), IoError>))
        requires
            old(self).wf(),
            ts_flush_ok(
                old(self).spec_info(),
                old(self).spec_buffer(),
                ts_flush_taken(old(self).spec_info().value_type, old(self).spec_buffer()),
            ),
        ensures
            old(self).flush_outcome(*final(self), r),
    {
        let now_time = now_millis();
        self.flush_at(now_time)
    }
}

/// `n` zeros (none when `n` is not positive).
pub open spec fn zeros(n: int) -> Seq<i64> {
    Seq::new(if n > 0 { n as nat } else { 0 }, |i: int| 0i64)
}

/// Pads `data_vec` with zero steps so that it covers the whole requested
/// range: one zero per unit before `start_time` back to
/// `origin_start_time`, and one per unit after `end_time` up to
/// `origin_end_time`.
pub fn fill_null_data(
    data_vec: Vec<i64>,
    start_time: i64,
    end_time: i64,
    origin_start_time: i64,
    origin_end_time: i64,
    unit_time_ms: i32,
) -> (r: Vec<i64>)
    requires
        unit_time_ms != 0,
        i64::MIN <= start_time - origin_start_time <= i64::MAX,
        i64::MIN <= origin_end_time - end_time <= i64::MAX,
        !(start_time - origin_start_time == i64::MIN && unit_time_ms == -1),
        !(origin_end_time - end_time == i64::MIN && unit_time_ms == -1),
        i64::MIN <= tdiv(start_time - origin_start_time, unit_time_ms as int) + tdiv(
            origin_end_time - end_time,
            unit_time_ms as int,
        ) <= i64::MAX,
        data_vec@.len() + ((tdiv(start_time - origin_start_time, unit_time_ms as int) + tdiv(
            origin_end_time - end_time,
            unit_time_ms as int,
        )) as usize) <= usize::MAX,
    ensures
        r@ == zeros(tdiv(start_time - origin_start_time, unit_time_ms as int)) + data_vec@ + zeros(
            tdiv(origin_end_time - end_time, unit_time_ms as int),
        ),
{
    let fill_steps_before = div_trunc_i64(start_time - origin_start_time, unit_time_ms as i64);
    let fill_steps_after = div_trunc_i64(origin_end_time - end_time, unit_time_ms as i64);
    if fill_steps_before == 0 && fill_steps_after == 0 {
        assert(zeros(0) =~= Seq::<i64>::empty());
        assert(data_vec@ =~= zeros(0) + data_vec@ + zeros(0));
        return data_vec;
    }
    let cap = data_vec.len() + (#[verifier::truncate] ((fill_steps_before + fill_steps_after) as usize));
    let mut new_data_vec: Vec<i64> = Vec::with_capacity(cap);
    let mut i: i64 = 0;
    while i < fill_steps_before
        invariant
            0 <= i,
            fill_steps_before > 0 ==> i <= fill_steps_before,
            fill_steps_before <= 0 ==> i == 0,
            new_data_vec@ == zeros(i as int),
        decreases fill_steps_before - i,
    {
        new_data_vec.push(0);
        i = i + 1;
        assert(new_data_vec@ =~= zeros(i as int));
    }
    assert(new_data_vec@ =~= zeros(fill_steps_before as int));
    let mut rest = data_vec;
    new_data_vec.append(&mut rest);
    let ghost mid = new_data_vec@;
    let mut j: i64 = 0;
    while j < fill_steps_after
        invariant
            0 <= j,
            fill_steps_after > 0 ==> j <= fill_steps_after,
            fill_steps_after <= 0 ==> j == 0,
            new_data_vec@ == mid + zeros(j as int),
        decreases fill_steps_after - j,
    {
        new_data_vec.push(0);
        j = j + 1;
        assert(new_data_vec@ =~= mid + zeros(j as int));
    }
    assert(new_data_vec@ =~= mid + zeros(fill_steps_after as int));
    new_data_vec
}

} // verus!
