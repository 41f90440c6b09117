//! Character-level text helpers: decimal rendering and parsing of integers,
//! UTF-8 decoding of file bytes, and building strings from characters.
use vstd::prelude::*;
use vstd::utf8::*;

verus! {

/// The character of the decimal digit `d` (0..=9).
pub open spec fn digit_char(d: int) -> char {
    (d + 48) as char
}

/// Whether `c` is one of '0'..='9'.
pub open spec fn is_digit(c: char) -> bool {
    '0' <= c && c <= '9'
}

/// The value of the decimal digit character `c`.
pub open spec fn digit_value(c: char) -> int {
    c as int - 48
}

/// The decimal digits of `n`, without leading zeros ("0" for zero).
pub open spec fn nat_to_decimal(n: nat) -> Seq<char>
    decreases n,
{
    if n < 10 {
        seq![digit_char(n as int)]
    } else {
        nat_to_decimal(n / 10).push(digit_char((n % 10) as int))
    }
}

/// The decimal rendering of `i`, as `Display` writes an integer: a '-' for
/// negative numbers, then the digits of its magnitude.
pub open spec fn int_to_decimal(i: int) -> Seq<char> {
    if i < 0 {
        seq!['-'] + nat_to_decimal((-i) as nat)
    } else {
        nat_to_decimal(i as nat)
    }
}

/// Whether `s` is a non-empty run of decimal digits.
pub open spec fn all_digits(s: Seq<char>) -> bool {
    s.len() > 0 && forall|i: int| 0 <= i < s.len() ==> #[trigger] is_digit(s[i])
}

/// The value of a run of decimal digits.
pub open spec fn digits_value(s: Seq<char>) -> int
    decreases s.len(),
{
    if s.len() == 0 {
        0
    } else {
        digits_value(s.drop_last()) * 10 + digit_value(s.last())
    }
}

/// The integer that `s` spells in decimal, if it spells one: an optional sign
/// ('+' or '-') followed by at least one digit, nothing else.
pub open spec fn decimal_value(s: Seq<char>) -> Option<int> {
    if s.len() > 0 && (s[0] == '-' || s[0] == '+') {
        if all_digits(s.drop_first()) {
            if s[0] == '-' {
                Some(-digits_value(s.drop_first()))
            } else {
                Some(digits_value(s.drop_first()))
            }
        } else {
            None
        }
    } else if all_digits(s) {
        Some(digits_value(s))
    } else {
        None
    }
}

/// What `str::parse::<T>` gives for `s` when `T` is an integer type holding
/// `lo..=hi`: the decimal value, if there is one and it is in range.
pub open spec fn parse_in_range(s: Seq<char>, lo: int, hi: int) -> Option<int> {
    match decimal_value(s) {
        Some(v) => if lo <= v && v <= hi {
            Some(v)
        } else {
            None
        },
        None => None,
    }
}

/// `String::push`: appends one character.
#[verifier::external_body]
pub(crate) fn string_push(s: &mut String, c: char)
    ensures
        final(s)@ == old(s)@.push(c),
{
    s.push(c);
}

/// `std::str::from_utf8`: the decoded text when the bytes are valid UTF-8,
/// nothing otherwise.
#[verifier::external_body]
pub(crate) fn str_from_utf8<'a>(bytes: &'a [u8]) -> (r: Option<&'a str>)
    ensures
        r is Some <==> valid_utf8(bytes@),
        r matches Some(s) ==> s@ == decode_utf8(bytes@),
{
    std::str::from_utf8(bytes).ok()
}

/// The characters of `s`, in order.
pub fn chars_of(s: &str) -> (r: Vec<char>)
    ensures
        r@ == s@,
{
    let mut out: Vec<char> = Vec::new();
    for c in it: s.chars()
        invariant
            out@ == it.seq().take(it.index() as int),
    {
        out.push(c);
    }
    out
}

/// A string made of the characters of `cs`.
pub fn string_from_chars(cs: &[char]) -> (r: String)
    ensures
        r@ == cs@,
{
    let mut s = String::new();
    let mut i: usize = 0;
    while i < cs.len()
        invariant
            i <= cs@.len(),
            s@ == cs@.take(i as int),
        decreases cs@.len() - i,
    {
        string_push(&mut s, cs[i]);
        i = i + 1;
        assert(s@ =~= cs@.take(i as int));
    }
    assert(cs@.take(cs@.len() as int) =~= cs@);
    s
}

/// A string made of the characters `cs[from..to]`.
pub fn string_from_char_range(cs: &[char], from: usize, to: usize) -> (r: String)
    requires
        from <= to <= cs@.len(),
    ensures
        r@ == cs@.subrange(from as int, to as int),
{
    let mut s = String::new();
    let mut i: usize = from;
    while i < to
        invariant
            from <= i <= to <= cs@.len(),
            s@ == cs@.subrange(from as int, i as int),
        decreases to - i,
    {
        string_push(&mut s, cs[i]);
        i = i + 1;
        assert(s@ =~= cs@.subrange(from as int, i as int));
    }
    s
}

/// Appends the decimal digits of `n` to `out`.
pub fn push_decimal_digits(out: &mut Vec<char>, n: u64)
    ensures
        final(out)@ == old(out)@ + nat_to_decimal(n as nat),
    decreases n,
{
    if n >= 10 {
        push_decimal_digits(out, n / 10);
    }
    let d = (n % 10) as u8;
    let c = (d + 48u8) as char;
    assert(c == digit_char((n % 10) as int));
    out.push(c);
}

/// The decimal rendering of `v`, as `v.to_string()` gives it.
pub fn i64_to_decimal(v: i64) -> (r: Vec<char>)
    ensures
        r@ == int_to_decimal(v as int),
{
    let mut out: Vec<char> = Vec::new();
    if v < 0 {
        out.push('-');
        let mag: u64 = if v == i64::MIN {
            9223372036854775808u64
        } else {
            (-v) as u64
        };
        push_decimal_digits(&mut out, mag);
    } else {
        push_decimal_digits(&mut out, v as u64);
    }
    out
}

/// `v.to_string()` for a 64-bit integer.
pub fn i64_to_string(v: i64) -> (r: String)
    ensures
        r@ == int_to_decimal(v as int),
{
    let cs = i64_to_decimal(v);
    string_from_chars(cs.as_slice())
}

/// A digit string extended by one digit is worth at least as much as before.
pub proof fn lemma_digits_value_nonneg(s: Seq<char>)
    requires
        forall|i: int| 0 <= i < s.len() ==> #[trigger] is_digit(s[i]),
    ensures
        digits_value(s) >= 0,
    decreases s.len(),
{
    if s.len() > 0 {
        assert forall|i: int| 0 <= i < s.drop_last().len() implies #[trigger] is_digit(
            s.drop_last()[i],
        ) by {
            assert(s.drop_last()[i] == s[i]);
        }
        lemma_digits_value_nonneg(s.drop_last());
        assert(is_digit(s[s.len() - 1]));
    }
}

/// Reads an unsigned digit run `s[from..]`: its value when it is at most
/// `limit`, or nothing when it is empty, holds a non-digit, or exceeds `limit`.
fn digits_upto(s: &[char], from: usize, limit: u64) -> (r: Option<u64>)
    requires
        from <= s@.len(),
        limit >= 9,
    ensures
        ({
            let t = s@.subrange(from as int, s@.len() as int);
            match r {
                Some(v) => all_digits(t) && digits_value(t) == v && v <= limit,
                None => !all_digits(t) || digits_value(t) > limit,
            }
        }),
{
    let ghost t = s@.subrange(from as int, s@.len() as int);
    if from == s.len() {
        return None;
    }
    let mut acc: u64 = 0;
    let mut big = false;
    let mut i = from;
    while i < s.len()
        invariant
            from <= i <= s@.len(),
            t == s@.subrange(from as int, s@.len() as int),
            limit >= 9,
            forall|k: int| from <= k < i ==> #[trigger] is_digit(s@[k]),
            !big ==> acc as int == digits_value(s@.subrange(from as int, i as int)) && acc <= limit,
            big ==> digits_value(s@.subrange(from as int, i as int)) > limit,
        decreases s@.len() - i,
    {
        let c = s[i];
        if !('0' <= c && c <= '9') {
            assert(t[i - from] == c);
            assert(!is_digit(t[i - from]));
            return None;
        }
        let ghost pre = s@.subrange(from as int, i as int);
        let ghost post = s@.subrange(from as int, i + 1);
        assert(post.drop_last() =~= pre);
        assert(post.last() == c);
        assert forall|k: int| 0 <= k < pre.len() implies #[trigger] is_digit(pre[k]) by {
            assert(pre[k] == s@[from + k]);
        }
        proof {
            lemma_digits_value_nonneg(pre);
        }
        let d = (c as u32 - 48) as u64;
        if !big {
            if acc > (limit - d) / 10 {
                big = true;
            } else {
                acc = acc * 10 + d;
            }
        }
        i = i + 1;
    }
    assert(s@.subrange(from as int, i as int) =~= t);
    if big {
        None
    } else {
        Some(acc)
    }
}

/// `s.parse::<i64>()`: the value `s` spells in decimal, when it spells one
/// that fits.
pub fn parse_i64(s: &[char]) -> (r: Option<i64>)
    ensures
        r matches Some(v) ==> parse_in_range(s@, i64::MIN as int, i64::MAX as int) == Some(
            v as int,
        ),
        r is None ==> parse_in_range(s@, i64::MIN as int, i64::MAX as int) is None,
{
    if s.len() > 0 && (s[0] == '-' || s[0] == '+') {
        assert(s@.drop_first() =~= s@.subrange(1, s@.len() as int));
        if s[0] == '-' {
            match digits_upto(s, 1, 9223372036854775808u64) {
                Some(m) => {
                    if m == 9223372036854775808u64 {
                        Some(i64::MIN)
                    } else {
                        Some(-(m as i64))
                    }
                },
                None => None,
            }
        } else {
            match digits_upto(s, 1, 9223372036854775807u64) {
                Some(m) => Some(m as i64),
                None => None,
            }
        }
    } else {
        assert(s@ =~= s@.subrange(0, s@.len() as int));
        match digits_upto(s, 0, 9223372036854775807u64) {
            Some(m) => Some(m as i64),
            None => None,
        }
    }
}

/// The number that `s` spells as an unsigned decimal, if it spells one: an
/// optional '+' followed by at least one digit, nothing else.
pub open spec fn unsigned_value(s: Seq<char>) -> Option<int> {
    if s.len() > 0 && s[0] == '+' {
        if all_digits(s.drop_first()) {
            Some(digits_value(s.drop_first()))
        } else {
            None
        }
    } else if all_digits(s) {
        Some(digits_value(s))
    } else {
        None
    }
}

/// What `str::parse::<u64>` gives for `s`: its unsigned decimal value, if
/// it has one that fits.
pub open spec fn parse_u64_value(s: Seq<char>) -> Option<u64> {
    match unsigned_value(s) {
        Some(v) => if v <= u64::MAX {
            Some(v as u64)
        } else {
            None
        },
        None => None,
    }
}

/// `s.parse::<u64>()`: the value `s` spells in decimal, when it spells one
/// that fits.
pub fn parse_u64(s: &[char]) -> (r: Option<u64>)
    ensures
        r == parse_u64_value(s@),
{
    if s.len() > 0 && s[0] == '+' {
        assert(s@.drop_first() =~= s@.subrange(1, s@.len() as int));
        match digits_upto(s, 1, 18446744073709551615u64) {
            Some(m) => Some(m),
            None => None,
        }
    } else {
        assert(s@ =~= s@.subrange(0, s@.len() as int));
        match digits_upto(s, 0, 18446744073709551615u64) {
            Some(m) => Some(m),
            None => None,
        }
    }
}

/// Whether every byte of `b` is an ASCII byte.
pub open spec fn all_ascii(b: Seq<u8>) -> bool {
    forall|i: int| 0 <= i < b.len() ==> #[trigger] b[i] < 128
}

/// ASCII bytes are valid UTF-8, and decode to the characters with the same codes.
pub proof fn lemma_ascii_utf8(b: Seq<u8>)
    requires
        all_ascii(b),
    ensures
        valid_utf8(b),
        decode_utf8(b).len() == b.len(),
        forall|i: int| 0 <= i < b.len() ==> #[trigger] decode_utf8(b)[i] == b[i] as char,
    decreases b.len(),
{
    if b.len() > 0 {
        let b0 = b[0];
        assert(b0 < 128);
        assert((b0 & 0x7Fu8) == b0) by (bit_vector)
            requires
                b0 < 128u8,
        ;
        let rest = b.subrange(1, b.len() as int);
        assert forall|i: int| 0 <= i < rest.len() implies #[trigger] rest[i] < 128 by {
            assert(rest[i] == b[i + 1]);
        }
        lemma_ascii_utf8(rest);
        assert(pop_first_scalar(b) =~= rest);
        assert forall|i: int| 0 <= i < b.len() implies #[trigger] decode_utf8(b)[i] == b[i] as char by {
            if i > 0 {
                assert(decode_utf8(b)[i] == decode_utf8(rest)[i - 1]);
                assert(rest[i - 1] == b[i]);
            }
        }
    }
}

/// Whether `s` holds no NUL character.
pub open spec fn no_nul(s: Seq<char>) -> bool {
    forall|i: int| 0 <= i < s.len() ==> #[trigger] s[i] != '\0'
}

/// Whether every character of `s` is ASCII, one byte in UTF-8.
pub open spec fn ascii_chars(s: Seq<char>) -> bool {
    forall|i: int| 0 <= i < s.len() ==> (#[trigger] s[i]) as u32 <= 0x7F
}

/// ASCII text takes one byte per character in UTF-8.
pub proof fn lemma_encode_ascii_len(s: Seq<char>)
    requires
        ascii_chars(s),
    ensures
        encode_utf8(s).len() == s.len(),
    decreases s.len(),
{
    if s.len() > 0 {
        assert(s[0] as u32 <= 0x7F);
        assert forall|i: int| 0 <= i < s.drop_first().len() implies (#[trigger] s.drop_first()[i]) as u32
            <= 0x7F by {
            assert(s.drop_first()[i] == s[i + 1]);
        }
        lemma_encode_ascii_len(s.drop_first());
    }
}

/// `10` to the power `d`.
pub open spec fn ten_pow(d: nat) -> nat
    decreases d,
{
    if d == 0 {
        1
    } else {
        10 * ten_pow((d - 1) as nat)
    }
}

/// A number below `10^d` (`d` at least one) has at most `d` decimal
/// digits, all ASCII.
pub proof fn lemma_nat_decimal_len(n: nat, d: nat)
    requires
        1 <= d,
        n < ten_pow(d),
    ensures
        nat_to_decimal(n).len() <= d,
        ascii_chars(nat_to_decimal(n)),
    decreases n,
{
    if n >= 10 {
        if d == 1 {
            assert(ten_pow(1) == 10 * ten_pow(0));
            assert(false);
        }
        let d1 = (d - 1) as nat;
        assert(ten_pow(d) == 10 * ten_pow(d1));
        assert(n / 10 < ten_pow(d1));
        lemma_nat_decimal_len(n / 10, d1);
        let s = nat_to_decimal(n / 10);
        let c = digit_char((n % 10) as int);
        assert(nat_to_decimal(n) == s.push(c));
        assert(c as u32 <= 0x7F);
        assert forall|i: int| 0 <= i < s.push(c).len() implies (#[trigger] s.push(c)[i]) as u32 <= 0x7F by {
            if i < s.len() {
                assert(s.push(c)[i] == s[i]);
            }
        }
    } else {
        let c = digit_char(n as int);
        assert(nat_to_decimal(n) =~= seq![c]);
        assert(c as u32 <= 0x7F);
    }
}

/// An integer of magnitude below `10^d` (`d` at least one) renders in at
/// most `d + 1` characters (a sign and `d` digits), all ASCII.
pub proof fn lemma_int_decimal_len(i: int, d: nat)
    requires
        1 <= d,
        -ten_pow(d) < i < ten_pow(d),
    ensures
        int_to_decimal(i).len() <= d + 1,
        ascii_chars(int_to_decimal(i)),
{
    if i < 0 {
        lemma_nat_decimal_len((-i) as nat, d);
        let s = nat_to_decimal((-i) as nat);
        assert forall|k: int| 0 <= k < (seq!['-'] + s).len() implies (#[trigger] (seq!['-'] + s)[k]) as u32
            <= 0x7F by {
            if k > 0 {
                assert((seq!['-'] + s)[k] == s[k - 1]);
            }
        }
    } else {
        lemma_nat_decimal_len(i as nat, d);
    }
}

/// UTF-8 encoding distributes over concatenation.
pub proof fn lemma_encode_utf8_concat(a: Seq<char>, b: Seq<char>)
    ensures
        encode_utf8(a + b) == encode_utf8(a) + encode_utf8(b),
    decreases a.len(),
{
    if a.len() == 0 {
        assert(a + b =~= b);
    } else {
        assert((a + b).drop_first() =~= a.drop_first() + b);
        assert((a + b)[0] == a[0]);
        lemma_encode_utf8_concat(a.drop_first(), b);
    }
}

/// The encoding of a character other than NUL holds no zero byte.
pub proof fn lemma_encode_scalar_nonzero(c: char)
    requires
        c != '\0',
    ensures
        forall|i: int| 0 <= i < encode_scalar(c as u32).len() ==> #[trigger] encode_scalar(c as u32)[i] != 0,
{
    let v = c as u32;
    assert(v != 0);
    if has_width_1_encoding(v) {
        assert((v & 0x7Fu32) as u8 != 0u8) by (bit_vector)
            requires
                v != 0u32,
                v <= 0x7Fu32,
        ;
    } else {
        assert((0xC0u8 | ((v >> 6u32) & 0x1Fu32) as u8) != 0u8) by (bit_vector);
        assert((0xE0u8 | ((v >> 12u32) & 0x0Fu32) as u8) != 0u8) by (bit_vector);
        assert((0xF0u8 | ((v >> 18u32) & 0x7u32) as u8) != 0u8) by (bit_vector);
        assert((0x80u8 | (v & 0x3Fu32) as u8) != 0u8) by (bit_vector);
        assert((0x80u8 | ((v >> 6u32) & 0x3Fu32) as u8) != 0u8) by (bit_vector);
        assert((0x80u8 | ((v >> 12u32) & 0x3Fu32) as u8) != 0u8) by (bit_vector);
    }
}

/// The encoding of a text without NUL holds no zero byte.
pub proof fn lemma_encode_no_nul(s: Seq<char>)
    requires
        no_nul(s),
    ensures
        forall|i: int| 0 <= i < encode_utf8(s).len() ==> #[trigger] encode_utf8(s)[i] != 0,
    decreases s.len(),
{
    if s.len() > 0 {
        assert(s[0] != '\0');
        lemma_encode_scalar_nonzero(s[0]);
        assert(no_nul(s.drop_first())) by {
            assert forall|i: int| 0 <= i < s.drop_first().len() implies #[trigger] s.drop_first()[i]
                != '\0' by {
                assert(s.drop_first()[i] == s[i + 1]);
            }
        }
        lemma_encode_no_nul(s.drop_first());
        let e = encode_scalar(s[0] as u32);
        let r = encode_utf8(s.drop_first());
        assert forall|i: int| 0 <= i < encode_utf8(s).len() implies #[trigger] encode_utf8(s)[i] != 0 by {
            if i < e.len() {
                assert(encode_utf8(s)[i] == e[i]);
            } else {
                assert(encode_utf8(s)[i] == r[i - e.len()]);
            }
        }
    }
}

/// ASCII characters encode to one byte each, their code.
pub proof fn lemma_encode_ascii(s: Seq<char>)
    requires
        forall|i: int| 0 <= i < s.len() ==> (#[trigger] s[i] as u32) < 128,
    ensures
        encode_utf8(s).len() == s.len(),
        forall|i: int| 0 <= i < s.len() ==> #[trigger] encode_utf8(s)[i] as u32 == s[i] as u32,
    decreases s.len(),
{
    if s.len() > 0 {
        let v = s[0] as u32;
        assert(v < 128);
        assert(((v & 0x7Fu32) as u8) as u32 == v) by (bit_vector)
            requires
                v < 128u32,
        ;
        assert forall|i: int| 0 <= i < s.drop_first().len() implies (#[trigger] s.drop_first()[i] as u32)
            < 128 by {
            assert(s.drop_first()[i] == s[i + 1]);
        }
        lemma_encode_ascii(s.drop_first());
        assert(encode_utf8(s) == encode_scalar(v) + encode_utf8(s.drop_first()));
        assert(encode_scalar(v) == seq![(v & 0x7Fu32) as u8]);
        assert forall|i: int| 0 <= i < s.len() implies #[trigger] encode_utf8(s)[i] as u32 == s[i] as u32 by {
            if i == 0 {
                assert(encode_utf8(s)[0] == encode_scalar(v)[0]);
            } else {
                assert(encode_utf8(s)[i] == encode_utf8(s.drop_first())[i - 1]);
                assert(s.drop_first()[i - 1] == s[i]);
            }
        }
    }
}

} // verus!
