//! Text primitives: decimal numbers, whitespace trimming, field splitting
//! and byte-level searches over the UTF-8 encoding of a line.

use vstd::prelude::*;
use vstd::utf8::*;
use vstd::string::*;

verus! {

/// An ASCII decimal digit.
pub open spec fn is_digit_char(c: char) -> bool {
    '0' <= c && c <= '9'
}

/// The value of an ASCII decimal digit.
pub open spec fn digit_value(c: char) -> int {
    (c as int) - ('0' as int)
}

/// The value of a run of decimal digits, most significant first.
pub open spec fn digits_value(s: Seq<char>) -> int
    decreases s.len(),
{
    if s.len() == 0 {
        0
    } else {
        digits_value(s.drop_last()) * 10 + digit_value(s.last())
    }
}

/// Every character is an ASCII decimal digit.
pub open spec fn all_digits(s: Seq<char>) -> bool {
    forall|i: int| 0 <= i < s.len() ==> is_digit_char(#[trigger] s[i])
}

/// The integer written by `s`: an optional `+` or `-` followed by one or more
/// ASCII digits, and nothing else.
pub open spec fn decimal_number(s: Seq<char>) -> Option<int> {
    if s.len() > 0 && (s[0] == '+' || s[0] == '-') {
        let body = s.drop_first();
        if body.len() > 0 && all_digits(body) {
            if s[0] == '-' {
                Some(-digits_value(body))
            } else {
                Some(digits_value(body))
            }
        } else {
            None
        }
    } else if s.len() > 0 && all_digits(s) {
        Some(digits_value(s))
    } else {
        None
    }
}

/// What `str::parse::<i64>` accepts, and the value it gives.
pub open spec fn parsed_i64(s: Seq<char>) -> Option<i64> {
    match decimal_number(s) {
        Some(v) => if i64::MIN <= v && v <= i64::MAX {
            Some(v as i64)
        } else {
            None
        },
        None => None,
    }
}

/// What `str::parse::<i32>` accepts, and the value it gives.
pub open spec fn parsed_i32(s: Seq<char>) -> Option<i32> {
    match decimal_number(s) {
        Some(v) => if i32::MIN <= v && v <= i32::MAX {
            Some(v as i32)
        } else {
            None
        },
        None => None,
    }
}

/// Calls `str::parse::<i64>`. By std's documentation of `from_str_radix`, the
/// text is an optional `+` or `-` sign followed by ASCII digits only, and the
/// value must fit the type; anything else is an error.
#[verifier::external_body]
pub(crate) fn parse_i64(s: &str) -> (res: Option<i64>)
    ensures
        res == parsed_i64(s@),
{
    s.parse::<i64>().ok()
}

/// Calls `str::parse::<i32>`, with the same documented grammar as `parse_i64`.
#[verifier::external_body]
pub(crate) fn parse_i32(s: &str) -> (res: Option<i32>)
    ensures
        res == parsed_i32(s@),
{
    s.parse::<i32>().ok()
}

/// A numeric field as the listings read it: `str::parse::<i32>`, with the
/// value -9999 standing for "not a number", so that the text "-9999" counts
/// as not numeric.
pub open spec fn numeric_field(s: Seq<char>) -> Option<i32> {
    match parsed_i32(s) {
        Some(v) => if v == -9999 {
            None
        } else {
            Some(v)
        },
        None => None,
    }
}

/// Reads a numeric field.
pub fn read_numeric_field(s: &str) -> (res: Option<i32>)
    ensures
        res == numeric_field(s@),
{
    let v = parse_i32(s).unwrap_or(-9999);
    if v == -9999 {
        None
    } else {
        Some(v)
    }
}

/// The character of a decimal digit.
pub open spec fn digit_char(d: int) -> char {
    (d + 48) as char
}

/// The decimal text of a natural number, without sign or leading zeros.
pub open spec fn decimal_text(n: nat) -> Seq<char>
    decreases n,
{
    if n < 10 {
        seq![digit_char(n as int)]
    } else {
        decimal_text(n / 10).push(digit_char((n % 10) as int))
    }
}

/// Calls `u64::to_string`, which writes the number in decimal without sign
/// or leading zeros.
#[verifier::external_body]
pub(crate) fn decimal_u64(n: u64) -> (res: String)
    ensures
        res@ == decimal_text(n as nat),
{
    n.to_string()
}

/// The characters with the Unicode `White_Space` property, which is what
/// `char::is_whitespace` tests.
pub open spec fn is_white_space(c: char) -> bool {
    ||| ('\u{9}' <= c && c <= '\u{d}')
    ||| c == ' '
    ||| c == '\u{85}'
    ||| c == '\u{a0}'
    ||| c == '\u{1680}'
    ||| ('\u{2000}' <= c && c <= '\u{200a}')
    ||| c == '\u{2028}'
    ||| c == '\u{2029}'
    ||| c == '\u{202f}'
    ||| c == '\u{205f}'
    ||| c == '\u{3000}'
}

/// `s` without its leading white space.
pub open spec fn trim_start_spec(s: Seq<char>) -> Seq<char>
    decreases s.len(),
{
    if s.len() > 0 && is_white_space(s[0]) {
        trim_start_spec(s.drop_first())
    } else {
        s
    }
}

/// `s` without its trailing white space.
pub open spec fn trim_end_spec(s: Seq<char>) -> Seq<char>
    decreases s.len(),
{
    if s.len() > 0 && is_white_space(s.last()) {
        trim_end_spec(s.drop_last())
    } else {
        s
    }
}

/// `s` without leading and trailing white space.
pub open spec fn trim_spec(s: Seq<char>) -> Seq<char> {
    trim_end_spec(trim_start_spec(s))
}

/// Calls `str::trim`, documented to remove the leading and trailing
/// characters with the `White_Space` property.
#[verifier::external_body]
pub(crate) fn trim(s: &str) -> (res: &str)
    ensures
        res@ == trim_spec(s@),
{
    s.trim()
}


/// The fields of `s` separated by `sep`, as `str::split` with a one-character
/// pattern yields them: one more field than there are separators.
pub open spec fn fields_of(s: Seq<char>, sep: char) -> Seq<Seq<char>>
    decreases s.len(),
{
    if s.len() == 0 {
        seq![Seq::<char>::empty()]
    } else {
        let prior = fields_of(s.drop_last(), sep);
        if s.last() == sep {
            prior.push(Seq::<char>::empty())
        } else {
            prior.update(prior.len() - 1, prior.last().push(s.last()))
        }
    }
}

/// There is always at least one field.
pub proof fn lemma_fields_nonempty(s: Seq<char>, sep: char)
    ensures
        fields_of(s, sep).len() >= 1,
    decreases s.len(),
{
    if s.len() > 0 {
        lemma_fields_nonempty(s.drop_last(), sep);
    }
}

/// Splits `s` at every occurrence of `sep`.
pub fn split_fields<'a>(s: &'a str, sep: char) -> (res: Vec<&'a str>)
    ensures
        res@.len() == fields_of(s@, sep).len(),
        forall|j: int| 0 <= j < res@.len() ==> (#[trigger] res@[j])@ == fields_of(s@, sep)[j],
{
    let n = s.unicode_len();
    let mut done: Vec<&'a str> = Vec::new();
    let mut start: usize = 0;
    let mut i: usize = 0;
    proof {
        assert(s@.take(0) =~= Seq::<char>::empty());
    }
    while i < n
        invariant
            n == s@.len(),
            start <= i <= n,
            fields_of(s@.take(i as int), sep).len() == done@.len() + 1,
            forall|j: int|
                0 <= j < done@.len() ==> (#[trigger] done@[j])@ == fields_of(
                    s@.take(i as int),
                    sep,
                )[j],
            fields_of(s@.take(i as int), sep).last() == s@.subrange(start as int, i as int),
        decreases n - i,
    {
        let c = s.get_char(i);
        let ghost prior = fields_of(s@.take(i as int), sep);
        proof {
            assert(s@.take(i + 1).drop_last() =~= s@.take(i as int));
            assert(s@.take(i + 1).last() == c);
        }
        if c == sep {
            let piece = s.substring_char(start, i);
            done.push(piece);
            start = i + 1;
            proof {
                assert(s@.subrange(start as int, i + 1) =~= Seq::<char>::empty());
            }
        } else {
            proof {
                assert(s@.subrange(start as int, i as int).push(c) =~= s@.subrange(
                    start as int,
                    i + 1,
                ));
            }
        }
        i = i + 1;
    }
    proof {
        assert(s@.take(n as int) =~= s@);
    }
    let last = s.substring_char(start, n);
    done.push(last);
    done
}

/// The first position at or after `k` where `needle` occurs in `hay`.
pub open spec fn find_from(hay: Seq<u8>, needle: Seq<u8>, k: int) -> Option<int>
    decreases hay.len() - k,
{
    if k < 0 || k + needle.len() > hay.len() {
        None
    } else if hay.subrange(k, k + needle.len()) == needle {
        Some(k)
    } else if k + needle.len() < hay.len() {
        find_from(hay, needle, k + 1)
    } else {
        None
    }
}

/// The first position where `needle` occurs in `hay`.
pub open spec fn first_index(hay: Seq<u8>, needle: Seq<u8>) -> Option<int> {
    find_from(hay, needle, 0)
}

/// A position found by `find_from` is a true occurrence at or after `k`.
pub proof fn lemma_find_from_found(hay: Seq<u8>, needle: Seq<u8>, k: int)
    requires
        find_from(hay, needle, k) is Some,
    ensures
        k <= find_from(hay, needle, k).unwrap(),
        0 <= find_from(hay, needle, k).unwrap(),
        find_from(hay, needle, k).unwrap() + needle.len() <= hay.len(),
        hay.subrange(
            find_from(hay, needle, k).unwrap(),
            find_from(hay, needle, k).unwrap() + needle.len(),
        ) == needle,
    decreases hay.len() - k,
{
    if k < 0 || k + needle.len() > hay.len() {
    } else if hay.subrange(k, k + needle.len()) == needle {
    } else if k + needle.len() < hay.len() {
        lemma_find_from_found(hay, needle, k + 1);
    }
}

/// The UTF-8 encoding of two texts one after the other is the two encodings
/// one after the other.
pub proof fn lemma_encode_concat(a: Seq<char>, b: Seq<char>)
    ensures
        encode_utf8(a + b) == encode_utf8(a) + encode_utf8(b),
    decreases a.len(),
{
    if a.len() == 0 {
        assert(a + b =~= b);
        assert(encode_utf8(a) =~= Seq::<u8>::empty());
        assert(encode_utf8(a) + encode_utf8(b) =~= encode_utf8(b));
    } else {
        lemma_encode_concat(a.drop_first(), b);
        assert((a + b).drop_first() =~= a.drop_first() + b);
        assert((a + b)[0] == a[0]);
        assert(encode_utf8(a + b) =~= encode_utf8(a) + encode_utf8(b));
    }
}

/// The bytes of a scalar's encoding: the scalar itself when it is below 128,
/// and bytes of 128 or more otherwise.
pub proof fn lemma_scalar_bytes(c: u32)
    requires
        is_scalar(c),
    ensures
        has_width_1_encoding(c) ==> encode_scalar(c) == seq![c as u8],
        !has_width_1_encoding(c) ==> forall|j: int|
            0 <= j < encode_scalar(c).len() ==> encode_scalar(c)[j] >= 128,
        encode_scalar(c).len() >= 1,
{
    if has_width_1_encoding(c) {
        assert((c & 0x7F) as u8 == c as u8) by (bit_vector)
            requires
                c <= 0x7F,
        ;
        assert(encode_scalar(c) =~= seq![c as u8]);
    } else {
        assert(leading_byte_width_2(c) >= 128) by (bit_vector);
        assert(leading_byte_width_3(c) >= 128) by (bit_vector);
        assert(leading_byte_width_4(c) >= 128) by (bit_vector);
        assert(last_continuation_byte(c) >= 128) by (bit_vector);
        assert(second_last_continuation_byte(c) >= 128) by (bit_vector);
        assert(third_last_continuation_byte(c) >= 128) by (bit_vector);
    }
}

/// Different characters have different codes.
pub proof fn lemma_char_codes_differ(c: char, d: char)
    requires
        c != d,
    ensures
        (c as u32) != (d as u32),
{
    char_u32_cast(c, c as u32);
    char_u32_cast(d, d as u32);
}

/// A byte below 128 occurs in the encoding of a text only where its
/// character occurs in the text.
pub proof fn lemma_encode_ascii_absent(s: Seq<char>, x: u8)
    requires
        x < 128,
        forall|i: int| 0 <= i < s.len() ==> (s[i] as u32) != (x as u32),
    ensures
        forall|j: int| 0 <= j < encode_utf8(s).len() ==> encode_utf8(s)[j] != x,
    decreases s.len(),
{
    if s.len() > 0 {
        char_is_scalar(s[0]);
        lemma_encode_ascii_absent(s.drop_first(), x);
        lemma_scalar_bytes(s[0] as u32);
        let e = encode_scalar(s[0] as u32);
        let rest = encode_utf8(s.drop_first());
        assert(encode_utf8(s) == e + rest);
        assert forall|j: int| 0 <= j < encode_utf8(s).len() implies encode_utf8(s)[j] != x by {
            if j < e.len() {
                assert(encode_utf8(s)[j] == e[j]);
            } else {
                assert(encode_utf8(s)[j] == rest[j - e.len()]);
            }
        }
    }
}

/// The first byte of the encoding of a non-empty text: the first character
/// itself when it is below 128, a byte of 128 or more otherwise.
pub proof fn lemma_encode_first_byte(s: Seq<char>)
    requires
        s.len() > 0,
    ensures
        encode_utf8(s).len() >= 1,
        (s[0] as u32) < 128 ==> encode_utf8(s)[0] == (s[0] as u32) as u8,
        (s[0] as u32) >= 128 ==> encode_utf8(s)[0] >= 128,
{
    char_is_scalar(s[0]);
    lemma_scalar_bytes(s[0] as u32);
    let e = encode_scalar(s[0] as u32);
    assert(encode_utf8(s) == e + encode_utf8(s.drop_first()));
    assert(encode_utf8(s)[0] == e[0]);
}

/// The encoding of one character below 128 is that one byte.
pub proof fn lemma_encode_ascii_char(c: char)
    requires
        (c as u32) < 128,
    ensures
        encode_utf8(seq![c]) == seq![(c as u32) as u8],
{
    char_is_scalar(c);
    lemma_scalar_bytes(c as u32);
    assert(seq![c].drop_first() =~= Seq::<char>::empty());
    assert(encode_utf8(Seq::<char>::empty()) =~= Seq::<u8>::empty());
    assert(encode_utf8(seq![c]) == encode_scalar(c as u32) + encode_utf8(seq![c].drop_first()));
    assert(encode_utf8(seq![c]) =~= seq![(c as u32) as u8]);
}

/// A text that begins `hay` is found first at position 0.
pub proof fn lemma_first_index_prefix(hay: Seq<u8>, needle: Seq<u8>)
    requires
        needle.len() <= hay.len(),
        hay.subrange(0, needle.len() as int) == needle,
    ensures
        first_index(hay, needle) == Some(0int),
{
}

/// A byte at position `c` that occurs nowhere before is found first there.
pub proof fn lemma_first_index_byte(hay: Seq<u8>, x: u8, c: int, k: int)
    requires
        0 <= k <= c < hay.len(),
        hay[c] == x,
        forall|i: int| 0 <= i < c ==> hay[i] != x,
    ensures
        find_from(hay, seq![x], k) == Some(c),
    decreases c - k,
{
    let needle = seq![x];
    assert(needle.len() == 1);
    assert(hay.subrange(k, k + 1) =~= seq![hay[k]]);
    if k < c {
        assert(hay.subrange(k, k + 1)[0] != needle[0]);
        assert(hay.subrange(k, k + 1) != needle);
        lemma_first_index_byte(hay, x, c, k + 1);
    } else {
        assert(hay.subrange(k, k + 1) =~= needle);
    }
}

/// Whether `needle` occurs in `hay` at position `k`.
pub fn bytes_match_at(hay: &[u8], needle: &[u8], k: usize) -> (r: bool)
    requires
        k + needle@.len() <= hay@.len(),
    ensures
        r == (hay@.subrange(k as int, k + needle@.len()) == needle@),
{
    let m = needle.len();
    let hn = hay.len();
    let mut j: usize = 0;
    while j < m
        invariant
            j <= m,
            hn == hay@.len(),
            m == needle@.len(),
            k + m <= hay@.len(),
            forall|t: int| 0 <= t < j ==> hay@[k + t] == needle@[t],
        decreases m - j,
    {
        if hay[k + j] != needle[j] {
            proof {
                assert(hay@.subrange(k as int, k + m)[j as int] != needle@[j as int]);
            }
            return false;
        }
        j = j + 1;
    }
    proof {
        assert(hay@.subrange(k as int, k + m) =~= needle@);
    }
    true
}

/// The first position where `needle` occurs in `hay`.
pub fn find_bytes(hay: &[u8], needle: &[u8]) -> (res: Option<usize>)
    ensures
        res matches Some(k) ==> first_index(hay@, needle@) == Some(k as int),
        res is None ==> first_index(hay@, needle@) is None,
{
    let n = hay.len();
    let m = needle.len();
    if m > n {
        return None;
    }
    let mut k: usize = 0;
    loop
        invariant
            n == hay@.len(),
            m == needle@.len(),
            m <= n,
            k <= n - m,
            find_from(hay@, needle@, 0) == find_from(hay@, needle@, k as int),
        decreases n - m - k,
    {
        if bytes_match_at(hay, needle, k) {
            return Some(k);
        }
        if k == n - m {
            return None;
        }
        k = k + 1;
    }
}

/// Whether the bytes `a..b` of a UTF-8 text can be cut out of it: the range
/// lies within the text and both ends fall on character boundaries.
pub open spec fn cut_ok(bytes: Seq<u8>, a: int, b: int) -> bool {
    &&& 0 <= a <= b <= bytes.len()
    &&& is_char_boundary(bytes, a)
    &&& is_char_boundary(bytes, b)
}

/// The text whose UTF-8 encoding is the bytes `a..b` of `bytes`.
pub open spec fn piece(bytes: Seq<u8>, a: int, b: int) -> Seq<char> {
    decode_utf8(bytes.subrange(a, b))
}

/// Calls `str::get` with the byte range `a..b`. By std's documentation it
/// returns `None` exactly where indexing would panic: when the range is out
/// of bounds, reversed, or does not start and end on character boundaries;
/// otherwise it returns the subslice made of those bytes.
#[verifier::external_body]
pub(crate) fn byte_range(s: &str, a: usize, b: usize) -> (res: Option<&str>)
    ensures
        res is Some <==> cut_ok(s.spec_bytes(), a as int, b as int),
        res matches Some(r) ==> r.spec_bytes() == s.spec_bytes().subrange(a as int, b as int),
{
    s.get(a..b)
}

/// Cuts the bytes `a..b` out of `s`, where they can be cut.
pub fn cut(s: &str, a: usize, b: usize) -> (res: Option<&str>)
    ensures
        res is Some <==> cut_ok(s.spec_bytes(), a as int, b as int),
        res matches Some(r) ==> r@ == piece(s.spec_bytes(), a as int, b as int),
{
    let r = byte_range(s, a, b);
    proof {
        if let Some(t) = r {
            broadcast use encode_utf8_decode_utf8;
            assert(decode_utf8(encode_utf8(t@)) == t@);
        }
    }
    r
}

} // verus!
