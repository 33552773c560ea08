//! The conversion of an `rclone lsf --csv --format ps` listing: each line
//! loses its line end, and a quoted name loses its two quotes.

use crate::text::{cut, cut_ok, lemma_char_codes_differ, lemma_encode_ascii_char, lemma_encode_concat, lemma_encode_first_byte, piece};
use vstd::prelude::*;
use vstd::string::*;
use vstd::utf8::*;

verus! {

/// The byte of `"`.
pub open spec fn quote_byte() -> u8 {
    34u8
}

/// The last position of the byte `x` in `bytes`.
pub open spec fn last_index_of(bytes: Seq<u8>, x: u8) -> Option<int>
    decreases bytes.len(),
{
    if bytes.len() == 0 {
        None
    } else if bytes.last() == x {
        Some(bytes.len() - 1)
    } else {
        last_index_of(bytes.drop_last(), x)
    }
}

/// The line starts with a quote that a later quote, at byte 2 or after,
/// closes: the name between them is unquoted.
pub open spec fn is_quoted(bytes: Seq<u8>) -> bool {
    &&& bytes.len() > 0
    &&& bytes[0] == quote_byte()
    &&& last_index_of(bytes, quote_byte()).unwrap() >= 2
}

/// A line can be converted: it is not empty and what is cut out of it can be
/// cut.
pub open spec fn rclone_ok(bytes: Seq<u8>) -> bool {
    &&& bytes.len() >= 1
    &&& if is_quoted(bytes) {
        let q = last_index_of(bytes, quote_byte()).unwrap();
        cut_ok(bytes, 1, q) && cut_ok(bytes, q + 1, bytes.len() - 1)
    } else {
        cut_ok(bytes, 0, bytes.len() - 1)
    }
}

/// The converted line: the line without its last byte; for a quoted name,
/// the text between the first and the last quote followed by what comes
/// after the last quote, without the last byte.
pub open spec fn rclone_text(bytes: Seq<u8>) -> Seq<char> {
    if is_quoted(bytes) {
        let q = last_index_of(bytes, quote_byte()).unwrap();
        piece(bytes, 1, q) + piece(bytes, q + 1, bytes.len() - 1)
    } else {
        piece(bytes, 0, bytes.len() - 1)
    }
}

/// A byte `x` at position `i` means a last position of `x` at or after `i`.
pub proof fn lemma_last_index_at(bytes: Seq<u8>, x: u8, i: int)
    requires
        0 <= i < bytes.len(),
        bytes[i] == x,
    ensures
        last_index_of(bytes, x) is Some,
        i <= last_index_of(bytes, x).unwrap() < bytes.len(),
        bytes[last_index_of(bytes, x).unwrap()] == x,
    decreases bytes.len(),
{
    if bytes.last() != x {
        lemma_last_index_at(bytes.drop_last(), x, i);
    }
}

/// The last position of the byte `x` in `bytes`.
pub fn find_last_byte(bytes: &[u8], x: u8) -> (r: Option<usize>)
    ensures
        r matches Some(k) ==> last_index_of(bytes@, x) == Some(k as int),
        r is None ==> last_index_of(bytes@, x) is None,
{
    let mut i = bytes.len();
    proof {
        assert(bytes@.take(i as int) =~= bytes@);
    }
    while i > 0
        invariant
            i <= bytes@.len(),
            last_index_of(bytes@, x) == last_index_of(bytes@.take(i as int), x),
        decreases i,
    {
        proof {
            assert(bytes@.take(i as int).drop_last() =~= bytes@.take(i - 1));
        }
        if bytes[i - 1] == x {
            return Some(i - 1);
        }
        i = i - 1;
    }
    None
}

/// Whether a line can be converted (see `rclone_ok`).
pub fn rclone_line_accepted(line: &str) -> (r: bool)
    ensures
        r == rclone_ok(line.spec_bytes()),
{
    let b = line.as_bytes();
    let n = b.len();
    if n == 0 {
        return false;
    }
    proof {
        if b@[0] == quote_byte() {
            lemma_last_index_at(b@, quote_byte(), 0);
        }
    }
    match quoted_end(b) {
        Some(q) => cut(line, 1, q).is_some() && q + 1 <= n - 1 && cut(line, q + 1, n - 1).is_some(),
        None => cut(line, 0, n - 1).is_some(),
    }
}

/// The position of the closing quote of a quoted line.
fn quoted_end(b: &[u8]) -> (r: Option<usize>)
    requires
        b@.len() > 0,
    ensures
        r is Some <==> is_quoted(b@),
        r matches Some(q) ==> q == last_index_of(b@, quote_byte()).unwrap(),
{
    if b[0] != 34u8 {
        return None;
    }
    proof {
        lemma_last_index_at(b@, quote_byte(), 0);
    }
    match find_last_byte(b, 34u8) {
        Some(q) => if q >= 2 {
            Some(q)
        } else {
            None
        },
        None => None,
    }
}

/// Converts one line of the `rclone lsf` listing.
pub fn convert_rclone_line(line: &str) -> (r: String)
    requires
        rclone_ok(line.spec_bytes()),
    ensures
        r@ == rclone_text(line.spec_bytes()),
{
    let b = line.as_bytes();
    let n = b.len();
    match quoted_end(b) {
        Some(q) => {
            proof {
                lemma_last_index_at(b@, quote_byte(), 0);
            }
            let mut out = match cut(line, 1, q) {
                Some(p) => String::from_str(p),
                None => String::new(),
            };
            match cut(line, q + 1, n - 1) {
                Some(p) => out.append(p),
                None => {},
            }
            out
        },
        None => match cut(line, 0, n - 1) {
            Some(p) => String::from_str(p),
            None => String::new(),
        },
    }
}

/// A line that does not start with a quote is written out without its last
/// byte, and nothing else is changed.
pub proof fn law_unquoted_line_loses_last_byte(bytes: Seq<u8>)
    requires
        bytes.len() >= 1,
        bytes[0] != quote_byte(),
    ensures
        rclone_text(bytes) == decode_utf8(bytes.subrange(0, bytes.len() - 1)),
{
}

/// A text that does not start with `"`, as a line ending in a line feed, is
/// converted back to the text, whatever it holds (paths with `/`, commas).
pub proof fn law_unquoted_text_line(t: Seq<char>)
    requires
        t.len() == 0 || t[0] != '"',
    ensures
        rclone_text(encode_utf8(t + seq!['\n'])) == t,
{
    lemma_encode_concat(t, seq!['\n']);
    lemma_encode_ascii_char('\n');
    let et = encode_utf8(t);
    let bytes = encode_utf8(t + seq!['\n']);
    assert(bytes =~= et + seq![10u8]);
    if t.len() > 0 {
        lemma_encode_first_byte(t);
        lemma_char_codes_differ(t[0], '"');
        assert('"' as u32 == 34);
        assert(bytes[0] == et[0]);
    } else {
        assert(et =~= Seq::<u8>::empty());
        assert(bytes[0] == 10u8);
    }
    assert(bytes[0] != quote_byte());
    assert(bytes.subrange(0, bytes.len() - 1) =~= et);
    broadcast use encode_utf8_decode_utf8;

    assert(decode_utf8(et) == t);
}

} // verus!
