//! The common header of the tuple-indexed files: a segment flag, the header
//! length (u16, big-endian), the header (a property count, then each
//! property as a NUL-terminated UTF-8 name and value, padded with zeros to
//! 192 bytes), and the data-segment flag.
use crate::endian::{be_bytes_u16, be_u16, from_be_u16, lemma_be_u16_roundtrip, read_be_u16};
use crate::errors::{io_error, ErrorKind, IoError};
use crate::text::{
    chars_of, lemma_encode_no_nul, lemma_encode_utf8_concat, no_nul, string_from_chars,
    str_from_utf8,
};
use vstd::prelude::*;
use vstd::utf8::*;

verus! {

/// The size the header is padded to.
pub const HEADER_MAX_LEN: usize = 192;

/// The characters of each (name, value) property.
pub open spec fn entries_view(es: Seq<(String, String)>) -> Seq<(Seq<char>, Seq<char>)> {
    Seq::new(es.len(), |i: int| (es[i].0@, es[i].1@))
}

/// The properties, each encoded as name, NUL, value, NUL.
pub open spec fn entries_bytes(es: Seq<(Seq<char>, Seq<char>)>) -> Seq<u8>
    decreases es.len(),
{
    if es.len() == 0 {
        Seq::empty()
    } else {
        entries_bytes(es.drop_last()) + encode_utf8(es.last().0) + seq![0u8] + encode_utf8(
            es.last().1,
        ) + seq![0u8]
    }
}

/// The header before padding: the property count (as an `i8`), then the
/// properties.
pub open spec fn header_body(es: Seq<(Seq<char>, Seq<char>)>) -> Seq<u8> {
    seq![(es.len() as i8) as u8] + entries_bytes(es)
}

/// `n` zero bytes.
pub open spec fn zero_bytes(n: int) -> Seq<u8> {
    Seq::new(if n > 0 { n as nat } else { 0 }, |i: int| 0u8)
}

/// Everything before the data segment of a file with the given properties
/// and flags.
pub open spec fn header_file_prefix(
    es: Seq<(Seq<char>, Seq<char>)>,
    header_flag: Seq<char>,
    data_flag: Seq<char>,
) -> Seq<u8> {
    encode_utf8(header_flag) + be_u16(192) + header_body(es) + zero_bytes(192 - header_body(es).len())
        + encode_utf8(data_flag)
}

/// Appends `more` to `out`.
fn push_all(out: &mut Vec<u8>, more: &[u8])
    ensures
        final(out)@ == old(out)@ + more@,
{
    let mut i: usize = 0;
    let ghost start = out@;
    while i < more.len()
        invariant
            i <= more@.len(),
            out@ == start + more@.take(i as int),
        decreases more@.len() - i,
    {
        out.push(more[i]);
        i = i + 1;
        assert(out@ =~= start + more@.take(i as int));
    }
    assert(more@.take(more@.len() as int) =~= more@);
}

/// Encodes a file header with the properties `entries`: fails with
/// `InvalidInput` when they take more than 192 bytes. Answers the bytes to
/// write at the start of the file; the data segment begins right after them.
pub fn write_header_info(
    entries: &Vec<(String, String)>,
    header_segment_flag: &str,
    data_segment_flag: &str,
) -> (r: Result<Vec<u8>, IoError>)
    ensures
        ({
            let es = entries_view(entries@);
            match r {
                Ok(b) => header_body(es).len() <= 192 && b@ == header_file_prefix(
                    es,
                    header_segment_flag@,
                    data_segment_flag@,
                ),
                Err(e) => header_body(es).len() > 192 && e.kind == ErrorKind::InvalidInput,
            }
        }),
{
    let ghost es = entries_view(entries@);
    let mut header_vec: Vec<u8> = Vec::new();
    header_vec.push((#[verifier::truncate] (entries.len() as i8)) as u8);
    let mut i: usize = 0;
    while i < entries.len()
        invariant
            i <= entries@.len(),
            es == entries_view(entries@),
            header_vec@ == seq![(es.len() as i8) as u8] + entries_bytes(es.take(i as int)),
        decreases entries@.len() - i,
    {
        let name = entries[i].0.as_str().as_bytes();
        let value = entries[i].1.as_str().as_bytes();
        push_all(&mut header_vec, name);
        header_vec.push(0u8);
        push_all(&mut header_vec, value);
        header_vec.push(0u8);
        assert(es.take(i + 1).drop_last() =~= es.take(i as int));
        assert(es.take(i + 1).last() == es[i as int]);
        i = i + 1;
        assert(header_vec@ =~= seq![(es.len() as i8) as u8] + entries_bytes(es.take(i as int)));
    }
    assert(es.take(es.len() as int) =~= es);
    if header_vec.len() > HEADER_MAX_LEN {
        return Err(io_error(ErrorKind::InvalidInput, "header len is too large!"));
    }
    let ghost body = header_vec@;
    let pad_len = HEADER_MAX_LEN - header_vec.len();
    let mut k: usize = 0;
    while k < pad_len
        invariant
            k <= pad_len,
            header_vec@ == body + zero_bytes(k as int),
        decreases pad_len - k,
    {
        header_vec.push(0u8);
        k = k + 1;
        assert(header_vec@ =~= body + zero_bytes(k as int));
    }
    let mut out: Vec<u8> = Vec::new();
    push_all(&mut out, header_segment_flag.as_bytes());
    let len_bytes = be_bytes_u16(header_vec.len() as u16);
    push_all(&mut out, len_bytes.as_slice());
    push_all(&mut out, header_vec.as_slice());
    push_all(&mut out, data_segment_flag.as_bytes());
    assert(out@ =~= header_file_prefix(es, header_segment_flag@, data_segment_flag@));
    Ok(out)
}

/// The position just past the first NUL byte at or after `pos` (the end of
/// `b` when there is none): where `read_until(b'\0')` from `pos` stops.
pub open spec fn nul_end(b: Seq<u8>, pos: int) -> int
    decreases b.len() - pos,
{
    if pos >= b.len() {
        b.len() as int
    } else if b[pos] == 0 {
        pos + 1
    } else {
        nul_end(b, pos + 1)
    }
}

/// Where the `i`-th property read from `pos` starts.
pub open spec fn entry_start(b: Seq<u8>, pos: int, i: nat) -> int
    decreases i,
{
    if i == 0 {
        pos
    } else {
        let p = entry_start(b, pos, (i - 1) as nat);
        nul_end(b, nul_end(b, p))
    }
}

/// The bytes read as the name of the `i`-th property (terminator included).
pub open spec fn raw_name(b: Seq<u8>, pos: int, i: nat) -> Seq<u8> {
    let p = entry_start(b, pos, i);
    b.subrange(p, nul_end(b, p))
}

/// The bytes read as the value of the `i`-th property (terminator included).
pub open spec fn raw_value(b: Seq<u8>, pos: int, i: nat) -> Seq<u8> {
    let p = entry_start(b, pos, i);
    b.subrange(nul_end(b, p), nul_end(b, nul_end(b, p)))
}

/// `s` without leading NULs.
pub open spec fn trim_nul_start(s: Seq<char>) -> Seq<char>
    decreases s.len(),
{
    if s.len() > 0 && s[0] == '\0' {
        trim_nul_start(s.drop_first())
    } else {
        s
    }
}

/// `s` without trailing NULs.
pub open spec fn trim_nul_end(s: Seq<char>) -> Seq<char>
    decreases s.len(),
{
    if s.len() > 0 && s.last() == '\0' {
        trim_nul_end(s.drop_last())
    } else {
        s
    }
}

/// `s.trim_matches('\0')`.
pub open spec fn trim_nul(s: Seq<char>) -> Seq<char> {
    trim_nul_end(trim_nul_start(s))
}

/// The header length stored after a 4-byte flag.
pub open spec fn stored_header_len(b: Seq<u8>) -> int {
    from_be_u16(b.subrange(4, 6)) as int
}

/// Whether reading a header from file contents `b` can complete: it cannot
/// when the file ends inside the fixed fields or flags it reads, or when a
/// flag or a property is not UTF-8.
pub open spec fn header_readable(b: Seq<u8>, header_flag: Seq<char>) -> bool {
    &&& b.len() >= 4
    &&& valid_utf8(b.subrange(0, 4))
    &&& decode_utf8(b.subrange(0, 4)) == header_flag ==> {
        &&& b.len() >= 7
        &&& forall|i: nat|
            i < b[6] ==> valid_utf8(#[trigger] raw_name(b, 7, i)) && valid_utf8(raw_value(b, 7, i))
        &&& b.len() >= stored_header_len(b) + 10
        &&& valid_utf8(b.subrange(stored_header_len(b) + 6, stored_header_len(b) + 10))
    }
}

/// The properties read from file contents `b`, in file order.
pub open spec fn read_entries(b: Seq<u8>) -> Seq<(Seq<char>, Seq<char>)> {
    Seq::new(
        b[6] as nat,
        |i: int|
            (
                trim_nul(decode_utf8(raw_name(b, 7, i as nat))),
                trim_nul(decode_utf8(raw_value(b, 7, i as nat))),
            ),
    )
}

/// The end of the NUL-terminated run of `b` starting at `pos`.
fn find_nul_end(b: &[u8], pos: usize) -> (r: usize)
    requires
        pos <= b@.len(),
    ensures
        r == nul_end(b@, pos as int),
{
    let mut i = pos;
    while i < b.len()
        invariant
            pos <= i <= b@.len(),
            nul_end(b@, i as int) == nul_end(b@, pos as int),
        decreases b@.len() - i,
    {
        if b[i] == 0 {
            return i + 1;
        }
        i = i + 1;
    }
    i
}

/// `nul_end` never moves backwards nor past the end.
pub proof fn lemma_nul_end_bounds(b: Seq<u8>, pos: int)
    requires
        0 <= pos <= b.len(),
    ensures
        pos <= nul_end(b, pos) <= b.len(),
    decreases b.len() - pos,
{
    if pos < b.len() && b[pos] != 0 {
        lemma_nul_end_bounds(b, pos + 1);
    }
}

/// The characters of `s` without leading and trailing NULs.
fn trim_nul_chars(s: &[char]) -> (r: Vec<char>)
    ensures
        r@ == trim_nul(s@),
{
    let mut a: usize = 0;
    assert(s@.subrange(0, s@.len() as int) =~= s@);
    while a < s.len() && s[a] == '\0'
        invariant
            a <= s@.len(),
            trim_nul_start(s@) == trim_nul_start(s@.subrange(a as int, s@.len() as int)),
        decreases s@.len() - a,
    {
        assert(s@.subrange(a as int, s@.len() as int).drop_first() =~= s@.subrange(a + 1, s@.len() as int));
        a = a + 1;
    }
    let ghost t = s@.subrange(a as int, s@.len() as int);
    assert(trim_nul_start(t) == t);
    let mut z: usize = s.len();
    while z > a && s[z - 1] == '\0'
        invariant
            a <= z <= s@.len(),
            t == s@.subrange(a as int, s@.len() as int),
            trim_nul_end(t) == trim_nul_end(s@.subrange(a as int, z as int)),
        decreases z,
    {
        assert(s@.subrange(a as int, z as int).drop_last() =~= s@.subrange(a as int, z - 1));
        z = z - 1;
    }
    let ghost u = s@.subrange(a as int, z as int);
    assert(trim_nul_end(u) == u);
    let mut out: Vec<char> = Vec::new();
    let mut i = a;
    while i < z
        invariant
            a <= i <= z <= s@.len(),
            out@ == s@.subrange(a as int, i as int),
        decreases z - i,
    {
        out.push(s[i]);
        i = i + 1;
        assert(out@ =~= s@.subrange(a as int, i as int));
    }
    out
}

/// Decodes the bytes `b[from..to]` as UTF-8 and trims NULs off both ends.
fn read_trimmed(b: &[u8], from: usize, to: usize) -> (r: String)
    requires
        from <= to <= b@.len(),
        valid_utf8(b@.subrange(from as int, to as int)),
    ensures
        r@ == trim_nul(decode_utf8(b@.subrange(from as int, to as int))),
{
    let mut part: Vec<u8> = Vec::new();
    let mut i = from;
    while i < to
        invariant
            from <= i <= to <= b@.len(),
            part@ == b@.subrange(from as int, i as int),
        decreases to - i,
    {
        part.push(b[i]);
        i = i + 1;
        assert(part@ =~= b@.subrange(from as int, i as int));
    }
    match str_from_utf8(part.as_slice()) {
        Some(text) => {
            let cs = chars_of(text);
            let trimmed = trim_nul_chars(cs.as_slice());
            string_from_chars(trimmed.as_slice())
        },
        None => {
            assert(false);
            String::new()
        },
    }
}

/// Reads a file header from the file contents `file`: checks the header
/// flag (`InvalidInput` when it differs), reads the properties, checks the
/// data flag (`InvalidInput` when it differs), and answers the properties in
/// file order with the offset of the data segment.
pub fn read_header_info(file: &[u8], header_segment_flag: &str, data_segment_flag: &str) -> (r:
    Result<(Vec<(String, String)>, u64), IoError>)
    requires
        header_readable(file@, header_segment_flag@),
    ensures
        ({
            let b = file@;
            let hl = stored_header_len(b);
            if decode_utf8(b.subrange(0, 4)) != header_segment_flag@ {
                r matches Err(e) && e.kind == ErrorKind::InvalidInput
            } else if decode_utf8(b.subrange(hl + 6, hl + 10)) != data_segment_flag@ {
                r matches Err(e) && e.kind == ErrorKind::InvalidInput
            } else {
                r matches Ok((es, off)) && entries_view(es@) == read_entries(b) && off == hl + 10
            }
        }),
{
    let flag = read_trimless(file, 0);
    if !str_chars_eq(flag.as_str(), header_segment_flag) {
        return Err(io_error(ErrorKind::InvalidInput, "Invalid file, header segment not match"));
    }
    let header_len = read_be_u16(file, 4) as usize;
    let header_offset: usize = 4 + 2;
    let header_count = file[6];
    let mut entries: Vec<(String, String)> = Vec::new();
    let mut pos: usize = 7;
    let mut i: u8 = 0;
    while i < header_count
        invariant
            header_readable(file@, header_segment_flag@),
            decode_utf8(file@.subrange(0, 4)) == header_segment_flag@,
            header_count == file@[6],
            i <= header_count,
            7 <= pos <= file@.len(),
            pos == entry_start(file@, 7, i as nat),
            entries_view(entries@) == read_entries(file@).take(i as int),
        decreases header_count - i,
    {
        assert(valid_utf8(raw_name(file@, 7, i as nat)));
        let mid = find_nul_end(file, pos);
        proof {
            lemma_nul_end_bounds(file@, pos as int);
        }
        let end = find_nul_end(file, mid);
        proof {
            lemma_nul_end_bounds(file@, mid as int);
        }
        assert(raw_name(file@, 7, i as nat) == file@.subrange(pos as int, mid as int));
        assert(raw_value(file@, 7, i as nat) == file@.subrange(mid as int, end as int));
        let name = read_trimmed(file, pos, mid);
        let value = read_trimmed(file, mid, end);
        let ghost prev = entries_view(entries@);
        entries.push((name, value));
        assert(entries_view(entries@) =~= prev.push(read_entries(file@)[i as int]));
        assert(read_entries(file@).take(i + 1) =~= read_entries(file@).take(i as int).push(read_entries(file@)[i as int]));
        pos = end;
        i = i + 1;
        assert(entries_view(entries@) =~= read_entries(file@).take(i as int));
    }
    let data_flag = read_trimless(file, header_offset + header_len);
    if !str_chars_eq(data_flag.as_str(), data_segment_flag) {
        return Err(io_error(ErrorKind::InvalidInput, "Invalid file, data segment not match"));
    }
    Ok((entries, (header_offset + header_len + 4) as u64))
}

/// The 4-byte flag at `pos`, decoded.
fn read_trimless(b: &[u8], pos: usize) -> (r: String)
    requires
        pos + 4 <= b@.len(),
        valid_utf8(b@.subrange(pos as int, pos + 4)),
    ensures
        r@ == decode_utf8(b@.subrange(pos as int, pos + 4)),
{
    let part: Vec<u8> = vec![b[pos], b[pos + 1], b[pos + 2], b[pos + 3]];
    assert(part@ =~= b@.subrange(pos as int, pos + 4));
    match str_from_utf8(part.as_slice()) {
        Some(text) => text.to_owned(),
        None => {
            assert(false);
            String::new()
        },
    }
}

/// Whether two strings hold the same characters.
pub fn str_chars_eq(a: &str, b: &str) -> (r: bool)
    ensures
        r == (a@ == b@),
{
    let x = chars_of(a);
    let y = chars_of(b);
    if x.len() != y.len() {
        return false;
    }
    let mut i: usize = 0;
    while i < x.len()
        invariant
            x@ == a@,
            y@ == b@,
            x@.len() == y@.len(),
            i <= x@.len(),
            forall|j: int| 0 <= j < i ==> x@[j] == y@[j],
        decreases x@.len() - i,
    {
        if x[i] != y[i] {
            return false;
        }
        i = i + 1;
    }
    assert(x@ =~= y@);
    true
}

/// Whether no property name or value holds a NUL character.
pub open spec fn entries_nul_free(es: Seq<(Seq<char>, Seq<char>)>) -> bool {
    forall|i: int| 0 <= i < es.len() ==> no_nul(#[trigger] es[i].0) && no_nul(es[i].1)
}

/// The encoded properties take at least two bytes each (their terminators).
proof fn lemma_entries_bytes_len(es: Seq<(Seq<char>, Seq<char>)>)
    ensures
        entries_bytes(es).len() >= 2 * es.len(),
    decreases es.len(),
{
    if es.len() > 0 {
        lemma_entries_bytes_len(es.drop_last());
    }
}

/// The encoding of the first `i` properties is a prefix of the encoding of
/// all of them.
proof fn lemma_entries_bytes_prefix(es: Seq<(Seq<char>, Seq<char>)>, i: int)
    requires
        0 <= i <= es.len(),
    ensures
        entries_bytes(es.take(i)).len() <= entries_bytes(es).len(),
        forall|y: int|
            0 <= y < entries_bytes(es.take(i)).len() ==> #[trigger] entries_bytes(es)[y]
                == entries_bytes(es.take(i))[y],
    decreases es.len() - i,
{
    if i == es.len() {
        assert(es.take(i) =~= es);
    } else {
        lemma_entries_bytes_prefix(es, i + 1);
        assert(es.take(i + 1).drop_last() =~= es.take(i));
    }
}

/// `nul_end` stops right after the first zero byte.
proof fn lemma_nul_end_at(b: Seq<u8>, p: int, k: int)
    requires
        0 <= p,
        0 <= k,
        p + k < b.len(),
        b[p + k] == 0,
        forall|j: int| 0 <= j < k ==> #[trigger] b[p + j] != 0,
    ensures
        nul_end(b, p) == p + k + 1,
    decreases k,
{
    if k > 0 {
        assert(b[p + 0] != 0);
        assert forall|j: int| 0 <= j < k - 1 implies #[trigger] b[(p + 1) + j] != 0 by {
            assert(b[p + (j + 1)] != 0);
        }
        lemma_nul_end_at(b, p + 1, k - 1);
    } else {
        assert(b[p + 0] == 0);
    }
}

/// Trimming a NUL-free text with one NUL appended gives the text back.
proof fn lemma_trim_terminated(s: Seq<char>)
    requires
        no_nul(s),
    ensures
        trim_nul(s.push('\0')) == s,
{
    let t = s.push('\0');
    if s.len() == 0 {
        assert(t.drop_first() =~= s);
        assert(trim_nul_start(s) == s);
        assert(trim_nul_start(t) == s);
    } else {
        assert(t[0] == s[0]);
        assert(trim_nul_start(t) == t);
        assert(t.drop_last() =~= s);
        assert(s.last() == s[s.len() - 1]);
        assert(trim_nul_end(s) == s);
    }
}

/// The encoding of a text followed by its terminator.
proof fn lemma_encode_terminated(s: Seq<char>)
    ensures
        encode_utf8(s.push('\0')) == encode_utf8(s) + seq![0u8],
        valid_utf8(encode_utf8(s) + seq![0u8]),
        decode_utf8(encode_utf8(s) + seq![0u8]) == s.push('\0'),
{
    lemma_encode_utf8_concat(s, seq!['\0']);
    assert(s + seq!['\0'] =~= s.push('\0'));
    let z = seq!['\0'];
    assert(z.drop_first() =~= Seq::<char>::empty());
    assert(encode_utf8(Seq::<char>::empty()) =~= Seq::<u8>::empty());
    assert(('\0' as u32) == 0u32);
    assert(((0u32 & 0x7Fu32) as u8) == 0u8) by (bit_vector);
    assert(encode_scalar(0u32) =~= seq![0u8]);
    assert(encode_utf8(z) =~= seq![0u8]);
    encode_utf8_valid_utf8(s.push('\0'));
    encode_utf8_decode_utf8(s.push('\0'));
}

/// The bytes of a written header hold the encoded properties from byte 7.
proof fn lemma_body_bytes(
    es: Seq<(Seq<char>, Seq<char>)>,
    hf: Seq<char>,
    df: Seq<char>,
    rest: Seq<u8>,
    k: int,
)
    requires
        header_body(es).len() <= 192,
        encode_utf8(hf).len() == 4,
        0 <= k <= es.len(),
    ensures
        ({
            let b = header_file_prefix(es, hf, df) + rest;
            let e = entries_bytes(es.take(k));
            7 + e.len() <= b.len() && b.subrange(7, 7 + e.len() as int) == e
        }),
{
    let b = header_file_prefix(es, hf, df) + rest;
    let eb = entries_bytes(es);
    let body = header_body(es);
    let hd = encode_utf8(hf) + be_u16(192);
    lemma_be_u16_roundtrip(192);
    assert(body =~= seq![(es.len() as i8) as u8] + eb);
    assert(b =~= hd + body + zero_bytes(192 - body.len()) + encode_utf8(df) + rest);
    lemma_entries_bytes_prefix(es, k);
    let e = entries_bytes(es.take(k));
    assert forall|y: int| 0 <= y < e.len() implies #[trigger] b.subrange(7, 7 + e.len() as int)[y] == e[y] by {
        assert(b[7 + y] == body[1 + y]);
        assert(eb[y] == e[y]);
    }
    assert(b.subrange(7, 7 + e.len() as int) =~= e);
}

/// `nul_end` over a NUL-free segment followed by its terminator.
proof fn lemma_nul_end_segment(b: Seq<u8>, p: int, s: Seq<u8>)
    requires
        0 <= p,
        p + s.len() < b.len(),
        b.subrange(p, p + s.len() + 1) == s + seq![0u8],
        forall|j: int| 0 <= j < s.len() ==> #[trigger] s[j] != 0,
    ensures
        nul_end(b, p) == p + s.len() + 1,
        b.subrange(p, nul_end(b, p)) == s + seq![0u8],
{
    assert forall|j: int| 0 <= j < s.len() implies #[trigger] b[p + j] != 0 by {
        assert(b.subrange(p, p + s.len() + 1)[j] == s[j]);
    }
    assert(b.subrange(p, p + s.len() + 1)[s.len() as int] == 0);
    lemma_nul_end_at(b, p, s.len() as int);
}

/// Whether `b` holds the encoding of the first `k` properties from byte 7,
/// for each `k`.
pub open spec fn holds_entries(b: Seq<u8>, es: Seq<(Seq<char>, Seq<char>)>) -> bool {
    forall|k: int|
        0 <= k <= es.len() ==> 7 + entries_bytes(#[trigger] es.take(k)).len() <= b.len()
            && b.subrange(7, 7 + entries_bytes(es.take(k)).len() as int) == entries_bytes(es.take(k))
}

/// Where each property starts in bytes that hold the encoded properties
/// from byte 7, and the bytes read as its name and its value.
proof fn lemma_entry_layout(b: Seq<u8>, es: Seq<(Seq<char>, Seq<char>)>, i: int)
    requires
        holds_entries(b, es),
        entries_nul_free(es),
        0 <= i <= es.len(),
    ensures
        entry_start(b, 7, i as nat) == 7 + entries_bytes(es.take(i)).len(),
        i < es.len() ==> raw_name(b, 7, i as nat) == encode_utf8(es[i].0) + seq![0u8],
        i < es.len() ==> raw_value(b, 7, i as nat) == encode_utf8(es[i].1) + seq![0u8],
        i < es.len() ==> nul_end(b, nul_end(b, entry_start(b, 7, i as nat))) == 7 + entries_bytes(
            es.take(i + 1),
        ).len(),
    decreases i,
{
    if i > 0 {
        lemma_entry_layout(b, es, i - 1);
    } else {
        assert(es.take(0) =~= Seq::<(Seq<char>, Seq<char>)>::empty());
    }
    if i < es.len() {
        let e0 = entries_bytes(es.take(i));
        let n = encode_utf8(es[i].0);
        let v = encode_utf8(es[i].1);
        let e1 = entries_bytes(es.take(i + 1));
        assert(es.take(i + 1).drop_last() =~= es.take(i));
        assert(es.take(i + 1).last() == es[i]);
        assert(e1 == e0 + n + seq![0u8] + v + seq![0u8]);
        let s1 = b.subrange(7, 7 + e1.len() as int);
        assert(s1 == e1);
        let p: int = 7 + e0.len() as int;
        let m: int = p + n.len() + 1;
        assert(no_nul(es[i].0) && no_nul(es[i].1));
        lemma_encode_no_nul(es[i].0);
        lemma_encode_no_nul(es[i].1);
        assert(b.subrange(p, p + n.len() + 1) =~= n + seq![0u8]) by {
            assert forall|j: int| 0 <= j < n.len() + 1 implies #[trigger] b.subrange(
                p,
                p + n.len() + 1,
            )[j] == (n + seq![0u8])[j] by {
                assert(s1[e0.len() + j] == e1[e0.len() + j]);
            }
        }
        lemma_nul_end_segment(b, p, n);
        assert(b.subrange(m, m + v.len() + 1) =~= v + seq![0u8]) by {
            assert forall|j: int| 0 <= j < v.len() + 1 implies #[trigger] b.subrange(
                m,
                m + v.len() + 1,
            )[j] == (v + seq![0u8])[j] by {
                assert(s1[e0.len() + n.len() + 1 + j] == e1[e0.len() + n.len() + 1 + j]);
            }
        }
        lemma_nul_end_segment(b, m, v);
        assert(entry_start(b, 7, i as nat) == p);
        assert(raw_name(b, 7, i as nat) == b.subrange(p, nul_end(b, p)));
        assert(raw_value(b, 7, i as nat) == b.subrange(m, nul_end(b, m)));
    }
}

/// The fixed fields of a written header: its length, both flags, the
/// stored header length and the property count.
proof fn lemma_header_fixed_fields(
    es: Seq<(Seq<char>, Seq<char>)>,
    header_flag: Seq<char>,
    data_flag: Seq<char>,
    rest: Seq<u8>,
)
    requires
        header_body(es).len() <= 192,
        encode_utf8(header_flag).len() == 4,
        encode_utf8(data_flag).len() == 4,
    ensures
        ({
            let b = header_file_prefix(es, header_flag, data_flag) + rest;
            &&& b.len() == 202 + rest.len()
            &&& valid_utf8(b.subrange(0, 4))
            &&& decode_utf8(b.subrange(0, 4)) == header_flag
            &&& stored_header_len(b) == 192
            &&& valid_utf8(b.subrange(198, 202))
            &&& decode_utf8(b.subrange(198, 202)) == data_flag
            &&& b[6] == es.len()
        }),
{
    let b = header_file_prefix(es, header_flag, data_flag) + rest;
    let eb = entries_bytes(es);
    let body = header_body(es);
    lemma_be_u16_roundtrip(192);
    let hd = encode_utf8(header_flag) + be_u16(192);
    assert(body =~= seq![(es.len() as i8) as u8] + eb);
    let z = zero_bytes(192 - body.len());
    assert(z.len() == 192 - body.len());
    assert(b =~= hd + body + z + encode_utf8(data_flag) + rest);
    assert(b.subrange(0, 4) =~= encode_utf8(header_flag));
    encode_utf8_valid_utf8(header_flag);
    encode_utf8_decode_utf8(header_flag);
    assert(b.subrange(4, 6) =~= be_u16(192));
    assert(b.subrange(198, 202) =~= encode_utf8(data_flag));
    encode_utf8_valid_utf8(data_flag);
    encode_utf8_decode_utf8(data_flag);
    lemma_entries_bytes_len(es);
    let n = es.len();
    assert(b[6] == body[0]);
    let k: u64 = n as u64;
    assert(((k as i8) as u8) == k) by (bit_vector)
        requires
            k < 128,
    ;
}

/// A header written by `write_header_info` reads back with
/// `read_header_info`: when no property name or value holds a NUL and both
/// flags encode to four bytes, the file contents, whatever follows the
/// header, are readable, carry both flags where the reader looks for them,
/// and give back the properties in order, with the data segment at byte 202;
/// read with any other header flag, they are readable and refused.
#[verifier::spinoff_prover]
pub proof fn lemma_header_roundtrip(
    es: Seq<(Seq<char>, Seq<char>)>,
    header_flag: Seq<char>,
    data_flag: Seq<char>,
    rest: Seq<u8>,
)
    requires
        header_body(es).len() <= 192,
        entries_nul_free(es),
        encode_utf8(header_flag).len() == 4,
        encode_utf8(data_flag).len() == 4,
    ensures
        ({
            let b = header_file_prefix(es, header_flag, data_flag) + rest;
            &&& header_readable(b, header_flag)
            &&& decode_utf8(b.subrange(0, 4)) == header_flag
            &&& stored_header_len(b) == 192
            &&& decode_utf8(b.subrange(198, 202)) == data_flag
            &&& read_entries(b) == es
            &&& forall|other: Seq<char>| other != header_flag ==> #[trigger] header_readable(b, other)
        }),
{
    let b = header_file_prefix(es, header_flag, data_flag) + rest;
    lemma_header_fixed_fields(es, header_flag, data_flag, rest);
    let n = es.len();
    assert(holds_entries(b, es)) by {
        assert forall|k: int| 0 <= k <= es.len() implies 7 + entries_bytes(#[trigger] es.take(k)).len()
            <= b.len() && b.subrange(7, 7 + entries_bytes(es.take(k)).len() as int)
            == entries_bytes(es.take(k)) by {
            lemma_body_bytes(es, header_flag, data_flag, rest, k);
        }
    }
    assert forall|i: nat| i < b[6] implies valid_utf8(#[trigger] raw_name(b, 7, i)) && valid_utf8(
        raw_value(b, 7, i),
    ) by {
        lemma_entry_layout(b, es, i as int);
        lemma_encode_terminated(es[i as int].0);
        lemma_encode_terminated(es[i as int].1);
    }
    assert(header_readable(b, header_flag)) by {
        assert(b.len() >= stored_header_len(b) + 10);
    }
    assert forall|i: int| 0 <= i < n implies #[trigger] read_entries(b)[i] == es[i] by {
        lemma_entry_layout(b, es, i);
        lemma_encode_terminated(es[i].0);
        lemma_encode_terminated(es[i].1);
        lemma_trim_terminated(es[i].0);
        lemma_trim_terminated(es[i].1);
    }
    assert(read_entries(b) =~= es);
}

} // verus!
