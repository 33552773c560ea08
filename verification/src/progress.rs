//! The progress messages that a running conversion sends to the window:
//! `Progress|<lines read>|<lines counted>`.

use crate::text::{
    all_digits, decimal_text, decimal_u64, digit_char, digit_value, digits_value, fields_of,
    is_digit_char, lemma_fields_nonempty, numeric_field, parsed_i32, read_numeric_field,
    split_fields,
};
use vstd::prelude::*;
use vstd::string::*;

verus! {

/// The progress message for `done` lines out of `total`.
pub open spec fn progress_text(done: nat, total: nat) -> Seq<char> {
    "Progress|"@ + decimal_text(done) + "|"@ + decimal_text(total)
}

/// Writes the progress message for `done` lines out of `total`.
pub fn progress_message(done: u64, total: u64) -> (m: String)
    ensures
        m@ == progress_text(done as nat, total as nat),
{
    let mut m = String::from_str("Progress|");
    let d = decimal_u64(done);
    m.append(d.as_str());
    m.append("|");
    let t = decimal_u64(total);
    m.append(t.as_str());
    m
}

/// The two numbers of a progress message: exactly three fields separated by
/// `|`, the first being `Progress` and the others numeric fields.
pub open spec fn progress_fields(m: Seq<char>) -> Option<(i32, i32)> {
    let f = fields_of(m, '|');
    if f.len() == 3 && f[0] == "Progress"@ {
        match (numeric_field(f[1]), numeric_field(f[2])) {
            (Some(a), Some(b)) => Some((a, b)),
            _ => None,
        }
    } else {
        None
    }
}

/// A message shaped like a progress message: three fields separated by `|`,
/// the first being `Progress`, whatever the other two hold.
pub open spec fn progress_shaped(m: Seq<char>) -> bool {
    let f = fields_of(m, '|');
    f.len() == 3 && f[0] == "Progress"@
}

/// Whether a message is shaped like a progress message.
pub fn is_progress_shaped(m: &str) -> (r: bool)
    ensures
        r == progress_shaped(m@),
{
    let f = split_fields(m, '|');
    if f.len() != 3 {
        return false;
    }
    let head = String::from_str(f[0]);
    let word = String::from_str("Progress");
    head == word
}

/// Reads the two numbers of a progress message.
pub fn parse_progress(m: &str) -> (r: Option<(i32, i32)>)
    ensures
        r == progress_fields(m@),
{
    let f = split_fields(m, '|');
    if f.len() != 3 {
        return None;
    }
    let head = String::from_str(f[0]);
    let word = String::from_str("Progress");
    if head != word {
        return None;
    }
    let a = read_numeric_field(f[1]);
    let b = read_numeric_field(f[2]);
    match (a, b) {
        (Some(x), Some(y)) => Some((x, y)),
        _ => None,
    }
}

/// Splitting at a separator splits the text before it and the text after it.
pub proof fn lemma_fields_concat(s: Seq<char>, sep: char, t: Seq<char>)
    ensures
        fields_of(s + seq![sep] + t, sep) == fields_of(s, sep) + fields_of(t, sep),
    decreases t.len(),
{
    let u = s + seq![sep] + t;
    if t.len() == 0 {
        assert(u.drop_last() =~= s);
        assert(fields_of(t, sep) =~= seq![Seq::<char>::empty()]);
        assert(fields_of(u, sep) =~= fields_of(s, sep) + fields_of(t, sep));
    } else {
        lemma_fields_concat(s, sep, t.drop_last());
        lemma_fields_nonempty(t.drop_last(), sep);
        lemma_fields_nonempty(s, sep);
        assert(u.drop_last() =~= s + seq![sep] + t.drop_last());
        let a = fields_of(s, sep);
        let b = fields_of(t.drop_last(), sep);
        if t.last() == sep {
            assert(fields_of(u, sep) =~= a + fields_of(t, sep));
        } else {
            assert((a + b).update(
                (a + b).len() - 1,
                (a + b).last().push(t.last()),
            ) =~= a + b.update(b.len() - 1, b.last().push(t.last())));
            assert(fields_of(u, sep) =~= a + fields_of(t, sep));
        }
    }
}

/// A text without the separator is a single field.
pub proof fn lemma_fields_single(s: Seq<char>, sep: char)
    requires
        forall|i: int| 0 <= i < s.len() ==> s[i] != sep,
    ensures
        fields_of(s, sep) == seq![s],
    decreases s.len(),
{
    if s.len() == 0 {
        assert(s =~= Seq::<char>::empty());
    } else {
        lemma_fields_single(s.drop_last(), sep);
        assert(s.drop_last().push(s.last()) =~= s);
        assert(fields_of(s, sep) =~= seq![s]);
    }
}

/// The decimal text of a number is a non-empty run of digits worth the number.
pub proof fn lemma_decimal_text(n: nat)
    ensures
        decimal_text(n).len() >= 1,
        all_digits(decimal_text(n)),
        digits_value(decimal_text(n)) == n,
    decreases n,
{
    let t = decimal_text(n);
    if n < 10 {
        assert(digit_value(digit_char(n as int)) == n);
        assert(t.drop_last() =~= Seq::<char>::empty());
        assert(digits_value(t) == digits_value(t.drop_last()) * 10 + digit_value(t.last()));
    } else {
        lemma_decimal_text(n / 10);
        let d = (n % 10) as int;
        assert(digit_value(digit_char(d)) == d);
        assert(t.drop_last() =~= decimal_text(n / 10));
        assert(t.last() == digit_char(d));
        assert(digits_value(t) == digits_value(t.drop_last()) * 10 + digit_value(t.last()));
        assert((n / 10) * 10 + n % 10 == n);
    }
}

/// The decimal text of a number up to `i32::MAX` reads back as that number.
pub proof fn lemma_decimal_reads_back(n: nat)
    requires
        n <= i32::MAX,
    ensures
        numeric_field(decimal_text(n)) == Some(n as i32),
        forall|i: int| 0 <= i < decimal_text(n).len() ==> decimal_text(n)[i] != '|',
{
    lemma_decimal_text(n);
    let t = decimal_text(n);
    assert(is_digit_char(t[0]));
    assert forall|i: int| 0 <= i < t.len() implies t[i] != '|' by {
        assert(is_digit_char(t[i]));
    }
}

/// A progress message sent for `done` lines out of `total` is read back by
/// the window as those two numbers, when both fit an `i32`.
pub proof fn law_progress_roundtrip(done: nat, total: nat)
    requires
        done <= i32::MAX,
        total <= i32::MAX,
    ensures
        progress_fields(progress_text(done, total)) == Some((done as i32, total as i32)),
{
    reveal_strlit("Progress|");
    reveal_strlit("Progress");
    reveal_strlit("|");
    let p = "Progress"@;
    let a = decimal_text(done);
    let b = decimal_text(total);
    lemma_decimal_reads_back(done);
    lemma_decimal_reads_back(total);
    assert(progress_text(done, total) =~= (p + seq!['|'] + a) + seq!['|'] + b);
    lemma_fields_concat(p + seq!['|'] + a, '|', b);
    lemma_fields_concat(p, '|', a);
    lemma_fields_single(p, '|');
    lemma_fields_single(a, '|');
    lemma_fields_single(b, '|');
    let f = fields_of(progress_text(done, total), '|');
    assert(f =~= seq![p, a, b]);
}

/// The count of lines of a listing being counted, and when progress is next
/// reported: after every 100000 lines, out of a nominal 100000000.
pub struct RowTally {
    /// The lines counted so far.
    pub count: u64,
    /// The count after which progress is next reported.
    pub next_report: u64,
}

impl RowTally {
    /// A tally before the first line.
    pub fn new() -> (t: Self)
        ensures
            t.count == 0,
            t.next_report == 100000,
    {
        RowTally { count: 0, next_report: 100000 }
    }

    /// Counts one more line; returns the progress message due, if any.
    pub fn on_line(&mut self) -> (m: Option<String>)
        requires
            old(self).count < u64::MAX,
            old(self).next_report <= u64::MAX - 100000,
        ensures
            final(self).count == old(self).count + 1,
            final(self).count > old(self).next_report ==> {
                &&& final(self).next_report == old(self).next_report + 100000
                &&& m matches Some(t) && t@ == progress_text(final(self).count as nat, 100000000)
            },
            final(self).count <= old(self).next_report ==> {
                &&& final(self).next_report == old(self).next_report
                &&& m is None
            },
    {
        self.count = self.count + 1;
        if self.count > self.next_report {
            self.next_report = self.next_report + 100000;
            Some(progress_message(self.count, 100000000))
        } else {
            None
        }
    }

    /// The number of lines, the code and the text that a count ends with:
    /// code 0 and `number of rows has been set` when the whole listing was
    /// read, code 1 and `error reading mega ` when reading failed.
    pub fn outcome(&self, read_ok: bool) -> (r: (u64, u32, String))
        ensures
            r.0 == self.count,
            read_ok ==> r.1 == 0 && r.2@ == "number of rows has been set"@,
            !read_ok ==> r.1 == 1 && r.2@ == "error reading mega "@,
    {
        if read_ok {
            (self.count, 0, String::from_str("number of rows has been set"))
        } else {
            (self.count, 1, String::from_str("error reading mega "))
        }
    }

    /// The progress message that ends a count: `Progress|10|10`.
    pub fn finished() -> (m: String)
        ensures
            m@ == progress_text(10, 10),
    {
        progress_message(10, 10)
    }
}

} // verus!
