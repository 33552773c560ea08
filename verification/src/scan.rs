//! The conversion of a `mega-ls -l -r --time-format=ISO6081_WITH_TIME`
//! listing, one line at a time, into two CSV lines per file: one with the
//! time stamp and one without.

use crate::clock::{shift_accepted, shift_utc, utc_shifted};
use crate::text::{
    cut, cut_ok, decimal_text, decimal_u64, fields_of, find_bytes, first_index, numeric_field,
    lemma_find_from_found, parse_i64, parsed_i64, piece, read_numeric_field, split_fields, trim, trim_spec,
};
use crate::progress::{
    lemma_decimal_reads_back, lemma_decimal_text, lemma_fields_concat, lemma_fields_single,
};
use crate::text::{
    all_digits, decimal_number, find_from, is_digit_char, is_white_space, lemma_encode_ascii_absent,
    lemma_char_codes_differ, lemma_encode_ascii_char, lemma_encode_concat, lemma_first_index_byte, lemma_first_index_prefix,
    trim_end_spec, trim_start_spec,
};
use vstd::prelude::*;
use vstd::string::*;
use vstd::utf8::*;

verus! {

/// Why a time stamp of the listing could not be read.
#[derive(Clone, Copy, PartialEq, Eq, Structural, Debug)]
pub enum DateFault {
    /// The date does not have three fields separated by `-`.
    DateShape,
    /// The time does not have three fields separated by `:`.
    TimeShape,
    /// A field of the date is not a number.
    DateNumber,
    /// A field of the time is not a number.
    TimeNumber,
}

impl DateFault {
    pub open spec fn spec_code(self) -> u32 {
        match self {
            DateFault::DateShape => 1,
            DateFault::TimeShape => 2,
            DateFault::DateNumber => 3,
            DateFault::TimeNumber => 5,
        }
    }

    pub open spec fn spec_message(self) -> Seq<char> {
        match self {
            DateFault::DateShape => "invalid date"@,
            DateFault::TimeShape => "invalid time"@,
            DateFault::DateNumber => "invalid time 2"@,
            DateFault::TimeNumber => "invalid time 3"@,
        }
    }

    /// The error code reported for this fault.
    pub fn code(&self) -> (c: u32)
        ensures
            c == self.spec_code(),
    {
        match self {
            DateFault::DateShape => 1,
            DateFault::TimeShape => 2,
            DateFault::DateNumber => 3,
            DateFault::TimeNumber => 5,
        }
    }

    /// The error text reported for this fault.
    pub fn message(&self) -> (m: String)
        ensures
            m@ == self.spec_message(),
    {
        match self {
            DateFault::DateShape => String::from_str("invalid date"),
            DateFault::TimeShape => String::from_str("invalid time"),
            DateFault::DateNumber => String::from_str("invalid time 2"),
            DateFault::TimeNumber => String::from_str("invalid time 3"),
        }
    }
}

/// A time stamp read from the listing, field by field.
#[derive(Clone, Copy, PartialEq, Eq, Structural, Debug)]
pub struct Stamp {
    pub year: i32,
    pub month: i32,
    pub day: i32,
    pub hour: i32,
    pub minute: i32,
    pub second: i32,
}

/// Reads the date `Y-M-D` and the time `h:m:s` of a listing line, given the
/// fault recorded so far. Returns the fault recorded afterwards and, when
/// there is none, the time stamp. A fault recorded earlier keeps the time
/// from being read, so the stamp is only had while no fault stands.
pub open spec fn date_check(prior: Option<DateFault>, date: Seq<char>, time: Seq<char>) -> (
    Option<DateFault>,
    Option<Stamp>,
) {
    let d = fields_of(date, '-');
    if d.len() != 3 {
        (Some(DateFault::DateShape), None)
    } else {
        let t = fields_of(time, ':');
        if t.len() != 3 {
            (Some(DateFault::TimeShape), None)
        } else {
            let y = numeric_field(d[0]);
            let mo = numeric_field(d[1]);
            let dd = numeric_field(d[2]);
            if y is None || mo is None || dd is None {
                (Some(DateFault::DateNumber), None)
            } else if prior is Some {
                (prior, None)
            } else {
                let h = numeric_field(t[0]);
                let mi = numeric_field(t[1]);
                let se = numeric_field(t[2]);
                if h is None || mi is None || se is None {
                    (Some(DateFault::TimeNumber), None)
                } else {
                    (
                        None,
                        Some(
                            Stamp {
                                year: y.unwrap(),
                                month: mo.unwrap(),
                                day: dd.unwrap(),
                                hour: h.unwrap(),
                                minute: mi.unwrap(),
                                second: se.unwrap(),
                            },
                        ),
                    )
                }
            }
        }
    }
}

/// Reads a date and a time as `date_check` describes.
pub fn check_date(prior: Option<DateFault>, date: &str, time: &str) -> (r: (
    Option<DateFault>,
    Option<Stamp>,
))
    ensures
        r == date_check(prior, date@, time@),
{
    let d = split_fields(date, '-');
    if d.len() != 3 {
        return (Some(DateFault::DateShape), None);
    }
    let t = split_fields(time, ':');
    if t.len() != 3 {
        return (Some(DateFault::TimeShape), None);
    }
    let y = read_numeric_field(d[0]);
    let mo = read_numeric_field(d[1]);
    let dd = read_numeric_field(d[2]);
    match (y, mo, dd) {
        (Some(yv), Some(mov), Some(ddv)) => {
            if prior.is_some() {
                return (prior, None);
            }
            let h = read_numeric_field(t[0]);
            let mi = read_numeric_field(t[1]);
            let se = read_numeric_field(t[2]);
            match (h, mi, se) {
                (Some(hv), Some(miv), Some(sev)) => (
                    None,
                    Some(
                        Stamp {
                            year: yv,
                            month: mov,
                            day: ddv,
                            hour: hv,
                            minute: miv,
                            second: sev,
                        },
                    ),
                ),
                _ => (Some(DateFault::TimeNumber), None),
            }
        },
        _ => (Some(DateFault::DateNumber), None),
    }
}

/// The size column as written out: the number, when the trimmed field is a
/// non-negative number, and a complaint quoting the trimmed field otherwise.
pub open spec fn size_text(field: Seq<char>) -> Seq<char> {
    let t = trim_spec(field);
    match parsed_i64(t) {
        Some(v) => if v >= 0 {
            decimal_text(v as nat)
        } else {
            "invalid size value: -"@ + t + "-"@
        },
        None => "invalid size value: -"@ + t + "-"@,
    }
}

/// Writes the size column.
pub fn size_column(field: &str) -> (r: String)
    ensures
        r@ == size_text(field@),
{
    let t = trim(field);
    match parse_i64(t) {
        Some(v) if v >= 0 => decimal_u64(v as u64),
        _ => {
            let mut s = String::from_str("invalid size value: -");
            s.append(t);
            s.append("-");
            s
        },
    }
}

/// The two CSV lines of a file: path, size, date and time; and path and size.
/// The path is the file name under the current directory, which is left out
/// while the current directory is empty.
pub open spec fn entry_lines(
    sdir: Seq<char>,
    file: Seq<char>,
    size: Seq<char>,
    date: Seq<char>,
    time: Seq<char>,
) -> (Seq<char>, Seq<char>) {
    let lead = if sdir.len() == 0 {
        file
    } else {
        sdir + "/"@ + file
    };
    let plain = lead + ","@ + size;
    (plain + ","@ + date + " "@ + time, plain)
}

/// Writes the two CSV lines of a file.
pub fn entry_columns(sdir: &str, file: &str, size: &str, date: &str, time: &str) -> (r: (
    String,
    String,
))
    ensures
        (r.0@, r.1@) == entry_lines(sdir@, file@, size@, date@, time@),
{
    let mut plain = String::new();
    if !sdir.is_empty() {
        plain.append(sdir);
        plain.append("/");
    }
    plain.append(file);
    plain.append(",");
    plain.append(size);
    let mut full = plain.clone();
    full.append(",");
    full.append(date);
    full.append(" ");
    full.append(time);
    proof {
        let lead = if sdir@.len() == 0 {
            file@
        } else {
            sdir@ + "/"@ + file@
        };
        assert(plain@ =~= lead + ","@ + size@);
        assert(full@ =~= lead + ","@ + size@ + ","@ + date@ + " "@ + time@);
    }
    (full, plain)
}


/// What a line of the listing is.
#[derive(Clone, Copy, PartialEq, Eq, Structural, Debug)]
pub enum LineKind {
    /// A line that changes nothing: a directory entry (`d...`) or other text.
    Skip,
    /// A file entry, flagged `---- ` or `-ep- `.
    Entry,
    /// The heading of a directory's listing: a line holding a `:`.
    Directory,
}

/// `bytes` begins with `prefix`.
pub open spec fn starts_with(bytes: Seq<u8>, prefix: Seq<u8>) -> bool {
    prefix.len() <= bytes.len() && bytes.subrange(0, prefix.len() as int) == prefix
}

/// The flag of a plain file entry, `---- `.
pub open spec fn plain_flag() -> Seq<u8> {
    seq![45u8, 45u8, 45u8, 45u8, 32u8]
}

/// The flag of an exported file entry, `-ep- `.
pub open spec fn exported_flag() -> Seq<u8> {
    seq![45u8, 101u8, 112u8, 45u8, 32u8]
}

/// The byte of `:`.
pub open spec fn colon() -> Seq<u8> {
    seq![58u8]
}

/// The kind of a line, read from its UTF-8 bytes.
pub open spec fn line_kind(bytes: Seq<u8>) -> LineKind {
    if bytes.len() > 0 && bytes[0] == 100u8 {
        LineKind::Skip
    } else if starts_with(bytes, plain_flag()) || starts_with(bytes, exported_flag()) {
        LineKind::Entry
    } else if first_index(bytes, colon()) is Some {
        LineKind::Directory
    } else {
        LineKind::Skip
    }
}

/// A file entry holds its columns at fixed byte positions: the size in
/// `10..22`, the date in `23..33`, the time in `34..42` and the name from
/// `43` up to the last byte, which ends the line. They must all be cuttable.
pub open spec fn entry_ok(bytes: Seq<u8>) -> bool {
    &&& bytes.len() >= 44
    &&& cut_ok(bytes, 10, 22)
    &&& cut_ok(bytes, 23, 33)
    &&& cut_ok(bytes, 34, 42)
    &&& cut_ok(bytes, 43, bytes.len() - 1)
}

/// The current directory before the first heading has been read.
pub open spec fn unset_dir() -> Seq<char> {
    seq!['-', '-']
}

/// Where the directory's path below the top directory starts in a heading:
/// one byte after the first occurrence of the top directory.
pub open spec fn dir_start(topdir: Seq<char>, bytes: Seq<u8>) -> Option<int> {
    match first_index(bytes, encode_utf8(topdir)) {
        Some(k) => Some(k + encode_utf8(topdir).len() + 1),
        None => None,
    }
}

/// A heading can be read: the first heading up to its `:`; a later one from
/// just after the top directory up to its `:`.
pub open spec fn dir_ok(sdir: Seq<char>, topdir: Seq<char>, bytes: Seq<u8>) -> bool {
    let c = first_index(bytes, colon()).unwrap();
    if sdir == unset_dir() {
        cut_ok(bytes, 0, c)
    } else {
        match dir_start(topdir, bytes) {
            Some(st) => cut_ok(bytes, st, c),
            None => false,
        }
    }
}

/// The current directory and the top directory after a heading. The first
/// heading names the top directory and empties the current one; a later one
/// names the current directory below the top.
pub open spec fn dir_update(sdir: Seq<char>, topdir: Seq<char>, bytes: Seq<u8>) -> (
    Seq<char>,
    Seq<char>,
) {
    let c = first_index(bytes, colon()).unwrap();
    if sdir == unset_dir() {
        (Seq::<char>::empty(), piece(bytes, 0, c))
    } else {
        (piece(bytes, dir_start(topdir, bytes).unwrap(), c), topdir)
    }
}

/// A line can be read in the current state: what its kind needs to cut
/// out of it can be cut.
pub open spec fn scan_ok(sdir: Seq<char>, topdir: Seq<char>, bytes: Seq<u8>) -> bool {
    match line_kind(bytes) {
        LineKind::Skip => true,
        LineKind::Entry => entry_ok(bytes),
        LineKind::Directory => dir_ok(sdir, topdir, bytes),
    }
}

/// The date and time columns of a file entry when the time stamp is left as
/// it is written: unchanged, or marked invalid after a fault.
pub open spec fn raw_columns(stamp_read: bool, date: Seq<char>, time: Seq<char>) -> (
    Seq<char>,
    Seq<char>,
) {
    if stamp_read {
        (date, time)
    } else {
        ("invalid date or time: "@ + date, time)
    }
}

/// A time stamp whose time fields can be handed to `chrono` as unsigned
/// numbers.
pub open spec fn stamp_unsigned(s: Stamp) -> bool {
    s.hour >= 0 && s.minute >= 0 && s.second >= 0
}

/// A time stamp that can be moved by `hours` (see `shift_accepted`).
pub open spec fn stamp_moveable(s: Stamp, hours: i64) -> bool {
    shift_accepted(
        s.year as int,
        s.month as int,
        s.day as int,
        s.hour as int,
        s.minute as int,
        s.second as int,
        hours as int,
    )
}

/// A line whose reading gives a result: anything but a file entry whose time
/// stamp is to be moved and cannot be.
pub open spec fn line_moveable(fault: Option<DateFault>, hours: i64, bytes: Seq<u8>) -> bool {
    line_kind(bytes) != LineKind::Entry || hours == 0 || match date_check(
        fault,
        piece(bytes, 23, 33),
        piece(bytes, 34, 42),
    ).1 {
        Some(s) => stamp_moveable(s, hours),
        None => true,
    }
}

/// The time stamp moved by `hours`, as `chrono` prints it.
pub open spec fn stamp_shifted(s: Stamp, hours: i64) -> Option<(Seq<char>, Seq<char>)> {
    utc_shifted(
        s.year,
        s.month as u32,
        s.day as u32,
        s.hour as u32,
        s.minute as u32,
        s.second as u32,
        hours,
    )
}

/// The fault recorded after a file entry and its two CSV lines, or `None`
/// where the entry's time stamp cannot be moved (a negative time field, or a
/// stamp that `chrono` refuses). With no hours to move by, the stamp is
/// copied as written and the recorded fault is kept.
pub open spec fn entry_outcome(
    sdir: Seq<char>,
    fault: Option<DateFault>,
    hours: i64,
    bytes: Seq<u8>,
) -> Option<(Option<DateFault>, (Seq<char>, Seq<char>))> {
    let file = piece(bytes, 43, bytes.len() - 1);
    let size = size_text(piece(bytes, 10, 22));
    let date = piece(bytes, 23, 33);
    let time = piece(bytes, 34, 42);
    if hours == 0 {
        Some((fault, entry_lines(sdir, file, size, date, time)))
    } else {
        let (after, stamp) = date_check(fault, date, time);
        match stamp {
            None => {
                let (d, t) = raw_columns(false, date, time);
                Some((after, entry_lines(sdir, file, size, d, t)))
            },
            Some(s) => if !stamp_unsigned(s) {
                None
            } else {
                match stamp_shifted(s, hours) {
                    Some((d, t)) => Some((after, entry_lines(sdir, file, size, d, t))),
                    None => None,
                }
            },
        }
    }
}

/// The columns of a file entry read so far, before its time stamp is moved.
pub struct EntryFields {
    /// The file name.
    pub file: String,
    /// The size column.
    pub size: String,
    /// The date column as written, or marked invalid.
    pub date: String,
    /// The time column as written.
    pub time: String,
    /// The fault recorded after this entry.
    pub fault: Option<DateFault>,
    /// The time stamp to move, if it is to be moved.
    pub stamp: Option<Stamp>,
}

/// The result of reading one line.
pub struct ScanOutput {
    /// The two CSV lines of a file entry: with time stamp, and without.
    pub entry: Option<(String, String)>,
    /// The listing is to be read no further: more lines have been read
    /// than the listing was counted to hold.
    pub stop: bool,
}

impl ScanOutput {
    pub open spec fn lines(self) -> Option<(Seq<char>, Seq<char>)> {
        match self.entry {
            Some(p) => Some((p.0@, p.1@)),
            None => None,
        }
    }
}

/// The state of the conversion of one listing.
pub struct MegaScan {
    /// The hours by which time stamps are moved; 0 leaves them as written.
    pub numutc: i64,
    /// The number of lines the listing was counted to hold.
    pub numrows: u64,
    /// The number of lines read so far.
    pub linenum: u64,
    /// The current directory below the top directory; `--` before the
    /// first heading.
    pub sdir: String,
    /// The top directory, named by the first heading.
    pub topdir: String,
    /// The last fault met in a time stamp.
    pub fault: Option<DateFault>,
}

/// The state after a line, and the CSV lines it gives: `None` where the line
/// is a file entry whose time stamp cannot be moved.
pub open spec fn scan_effect(
    sdir: Seq<char>,
    topdir: Seq<char>,
    fault: Option<DateFault>,
    hours: i64,
    bytes: Seq<u8>,
) -> Option<(Seq<char>, Seq<char>, Option<DateFault>, Option<(Seq<char>, Seq<char>)>)> {
    match line_kind(bytes) {
        LineKind::Skip => Some((sdir, topdir, fault, None)),
        LineKind::Directory => {
            let (s, t) = dir_update(sdir, topdir, bytes);
            Some((s, t, fault, None))
        },
        LineKind::Entry => match entry_outcome(sdir, fault, hours, bytes) {
            Some((f, lines)) => Some((sdir, topdir, f, Some(lines))),
            None => None,
        },
    }
}

/// Whether a text is the unset directory `--`.
pub fn is_unset_dir(s: &str) -> (r: bool)
    ensures
        r == (s@ == unset_dir()),
{
    if s.unicode_len() == 2 && s.get_char(0) == '-' && s.get_char(1) == '-' {
        proof {
            assert(s@ =~= unset_dir());
        }
        true
    } else {
        false
    }
}

/// Reads the kind of a line.
pub fn kind_of(line: &str) -> (k: LineKind)
    ensures
        k == line_kind(line.spec_bytes()),
{
    let b = line.as_bytes();
    let plain: [u8; 5] = [45u8, 45u8, 45u8, 45u8, 32u8];
    let exported: [u8; 5] = [45u8, 101u8, 112u8, 45u8, 32u8];
    let colon_byte: [u8; 1] = [58u8];
    proof {
        assert(plain@ =~= plain_flag());
        assert(exported@ =~= exported_flag());
        assert(colon_byte@ =~= colon());
    }
    if b.len() > 0 && b[0] == 100u8 {
        LineKind::Skip
    } else if (b.len() >= 5 && bytes_prefix(b, plain.as_slice())) || (b.len() >= 5
        && bytes_prefix(b, exported.as_slice())) {
        LineKind::Entry
    } else if find_bytes(b, colon_byte.as_slice()).is_some() {
        LineKind::Directory
    } else {
        proof {
            assert(!starts_with(b@, plain_flag()));
            assert(!starts_with(b@, exported_flag()));
        }
        LineKind::Skip
    }
}

/// Whether `bytes` begins with `prefix`, which is no longer than `bytes`.
fn bytes_prefix(bytes: &[u8], prefix: &[u8]) -> (r: bool)
    requires
        prefix@.len() <= bytes@.len(),
    ensures
        r == starts_with(bytes@, prefix@),
{
    crate::text::bytes_match_at(bytes, prefix, 0)
}

/// The fault code and text that the conversion reports at its end: a read
/// error of either listing, or else the code of the last time-stamp fault
/// (0 when there was none) with the text of success.
pub open spec fn run_outcome(fault: Option<DateFault>, mega_read_ok: bool, rclone_read_ok: bool) -> (
    u32,
    Seq<char>,
) {
    if !mega_read_ok {
        (1, "error reading mega-ls file: do file i and iconv"@)
    } else if !rclone_read_ok {
        (1, "error reading rclone file: do file i and iconv"@)
    } else {
        (
            match fault {
                Some(f) => f.spec_code(),
                None => 0,
            },
            "source file exists and read"@,
        )
    }
}

impl MegaScan {
    /// Starts a conversion with the time-zone offset as typed (a number of
    /// hours; -99 where it is not a number) and the counted number of lines.
    pub fn new(utc_value: &str, rows_num: u64) -> (s: Self)
        ensures
            s.numutc == (match parsed_i64(utc_value@) {
                Some(v) => v,
                None => -99i64,
            }),
            s.numrows == rows_num,
            s.linenum == 0,
            s.sdir@ == unset_dir(),
            s.topdir@ == Seq::<char>::empty(),
            s.fault is None,
    {
        let numutc = parse_i64(utc_value).unwrap_or(-99);
        let sdir = String::from_str("--");
        proof {
            reveal_strlit("--");
            assert(sdir@ =~= unset_dir());
        }
        MegaScan { numutc, numrows: rows_num, linenum: 0, sdir, topdir: String::new(), fault: None }
    }

    /// The piece of a heading that names a directory, where it can be cut.
    fn heading_piece<'a>(&self, line: &'a str) -> (r: Option<&'a str>)
        requires
            line_kind(line.spec_bytes()) == LineKind::Directory,
        ensures
            r is Some <==> dir_ok(self.sdir@, self.topdir@, line.spec_bytes()),
            r matches Some(p) ==> p@ == (if self.sdir@ == unset_dir() {
                dir_update(self.sdir@, self.topdir@, line.spec_bytes()).1
            } else {
                dir_update(self.sdir@, self.topdir@, line.spec_bytes()).0
            }),
    {
        let b = line.as_bytes();
        let bn = b.len();
        let colon_byte: [u8; 1] = [58u8];
        proof {
            assert(colon_byte@ =~= colon());
        }
        let c = match find_bytes(b, colon_byte.as_slice()) {
            Some(c) => c,
            None => return None,
        };
        proof {
            lemma_find_from_found(b@, colon(), 0);
        }
        if is_unset_dir(self.sdir.as_str()) {
            cut(line, 0, c)
        } else {
            let t = self.topdir.as_str();
            let tb = t.as_bytes();
            match find_bytes(b, tb) {
                Some(k) => {
                    proof {
                        lemma_find_from_found(b@, tb@, 0);
                    }
                    let tl = tb.len();
                    if k + tl < c {
                        cut(line, k + tl + 1, c)
                    } else {
                        None
                    }
                },
                None => None,
            }
        }
    }

    /// Whether a line can be read in the current state (see `scan_ok`).
    pub fn line_accepted(&self, line: &str) -> (r: bool)
        ensures
            r == scan_ok(self.sdir@, self.topdir@, line.spec_bytes()),
    {
        match kind_of(line) {
            LineKind::Skip => true,
            LineKind::Entry => {
                let n = line.as_bytes().len();
                n >= 44 && cut(line, 10, 22).is_some() && cut(line, 23, 33).is_some() && cut(
                    line,
                    34,
                    42,
                ).is_some() && cut(line, 43, n - 1).is_some()
            },
            LineKind::Directory => self.heading_piece(line).is_some(),
        }
    }

    /// Reads the columns of a file entry and checks its time stamp, when
    /// time stamps are to be moved.
    pub fn read_entry(&self, line: &str) -> (r: EntryFields)
        requires
            line_kind(line.spec_bytes()) == LineKind::Entry,
            entry_ok(line.spec_bytes()),
        ensures
            r.file@ == piece(line.spec_bytes(), 43, line.spec_bytes().len() - 1),
            r.size@ == size_text(piece(line.spec_bytes(), 10, 22)),
            self.numutc == 0 ==> {
                &&& r.fault == self.fault
                &&& r.stamp is None
                &&& r.date@ == piece(line.spec_bytes(), 23, 33)
                &&& r.time@ == piece(line.spec_bytes(), 34, 42)
            },
            self.numutc != 0 ==> {
                &&& (r.fault, r.stamp) == date_check(
                    self.fault,
                    piece(line.spec_bytes(), 23, 33),
                    piece(line.spec_bytes(), 34, 42),
                )
                &&& (r.date@, r.time@) == raw_columns(
                    r.stamp is Some,
                    piece(line.spec_bytes(), 23, 33),
                    piece(line.spec_bytes(), 34, 42),
                )
            },
    {
        let n = line.as_bytes().len();
        let sizval = match cut(line, 10, 22) {
            Some(p) => p,
            None => line,
        };
        let sdate = match cut(line, 23, 33) {
            Some(p) => p,
            None => line,
        };
        let stime = match cut(line, 34, 42) {
            Some(p) => p,
            None => line,
        };
        let sfile = match cut(line, 43, n - 1) {
            Some(p) => p,
            None => line,
        };
        let size = size_column(sizval);
        if self.numutc == 0 {
            EntryFields {
                file: String::from_str(sfile),
                size,
                date: String::from_str(sdate),
                time: String::from_str(stime),
                fault: self.fault,
                stamp: None,
            }
        } else {
            let (fault, stamp) = check_date(self.fault, sdate, stime);
            let date = if stamp.is_some() {
                String::from_str(sdate)
            } else {
                let mut d = String::from_str("invalid date or time: ");
                d.append(sdate);
                d
            };
            EntryFields {
                file: String::from_str(sfile),
                size,
                date,
                time: String::from_str(stime),
                fault,
                stamp,
            }
        }
    }

    /// Writes the two CSV lines of a file entry, given the moved time stamp
    /// where the entry has one to move.
    pub fn finish_entry(&self, fields: &EntryFields, shifted: Option<(String, String)>) -> (r: (
        String,
        String,
    ))
        requires
            fields.stamp is Some ==> shifted is Some,
        ensures
            fields.stamp is None ==> (r.0@, r.1@) == entry_lines(
                self.sdir@,
                fields.file@,
                fields.size@,
                fields.date@,
                fields.time@,
            ),
            fields.stamp is Some ==> (r.0@, r.1@) == entry_lines(
                self.sdir@,
                fields.file@,
                fields.size@,
                shifted.unwrap().0@,
                shifted.unwrap().1@,
            ),
    {
        match (&fields.stamp, &shifted) {
            (Some(_), Some(p)) => entry_columns(
                self.sdir.as_str(),
                fields.file.as_str(),
                fields.size.as_str(),
                p.0.as_str(),
                p.1.as_str(),
            ),
            _ => entry_columns(
                self.sdir.as_str(),
                fields.file.as_str(),
                fields.size.as_str(),
                fields.date.as_str(),
                fields.time.as_str(),
            ),
        }
    }

    /// Takes in a directory heading.
    pub fn enter_directory(&mut self, line: &str)
        requires
            line_kind(line.spec_bytes()) == LineKind::Directory,
            dir_ok(old(self).sdir@, old(self).topdir@, line.spec_bytes()),
        ensures
            (final(self).sdir@, final(self).topdir@) == dir_update(
                old(self).sdir@,
                old(self).topdir@,
                line.spec_bytes(),
            ),
            final(self).numutc == old(self).numutc,
            final(self).numrows == old(self).numrows,
            final(self).linenum == old(self).linenum,
            final(self).fault == old(self).fault,
    {
        let p = match self.heading_piece(line) {
            Some(p) => p,
            None => line,
        };
        if is_unset_dir(self.sdir.as_str()) {
            self.topdir = String::from_str(p);
            self.sdir = String::new();
        } else {
            self.sdir = String::from_str(p);
        }
    }

    /// Reads one line of the listing. Returns `None`, and changes nothing,
    /// where the line is a file entry whose time stamp cannot be moved.
    pub fn scan_line(&mut self, line: &str) -> (res: Option<ScanOutput>)
        requires
            old(self).linenum < u64::MAX,
            scan_ok(old(self).sdir@, old(self).topdir@, line.spec_bytes()),
        ensures
            line_moveable(old(self).fault, old(self).numutc, line.spec_bytes()) ==> res is Some,
            match scan_effect(
                old(self).sdir@,
                old(self).topdir@,
                old(self).fault,
                old(self).numutc,
                line.spec_bytes(),
            ) {
                None => res is None && *final(self) == *old(self),
                Some((s, t, f, lines)) => {
                    &&& res matches Some(out)
                    &&& out.lines() == lines
                    &&& out.stop == (old(self).linenum + 1 > old(self).numrows)
                    &&& final(self).sdir@ == s
                    &&& final(self).topdir@ == t
                    &&& final(self).fault == f
                    &&& final(self).linenum == old(self).linenum + 1
                    &&& final(self).numutc == old(self).numutc
                    &&& final(self).numrows == old(self).numrows
                },
            },
    {
        let kind = kind_of(line);
        match kind {
            LineKind::Skip => {},
            LineKind::Directory => {
                self.enter_directory(line);
            },
            LineKind::Entry => {
                let fields = self.read_entry(line);
                let shifted = match fields.stamp {
                    Some(s) => {
                        if s.hour < 0 || s.minute < 0 || s.second < 0 {
                            return None;
                        }
                        match shift_utc(
                            s.year,
                            s.month as u32,
                            s.day as u32,
                            s.hour as u32,
                            s.minute as u32,
                            s.second as u32,
                            self.numutc,
                        ) {
                            Some(p) => Some(p),
                            None => return None,
                        }
                    },
                    None => None,
                };
                let lines = self.finish_entry(&fields, shifted);
                self.fault = fields.fault;
                self.linenum = self.linenum + 1;
                return Some(ScanOutput { entry: Some(lines), stop: self.linenum > self.numrows });
            },
        }
        self.linenum = self.linenum + 1;
        Some(ScanOutput { entry: None, stop: self.linenum > self.numrows })
    }

    /// The fault code and text reported at the end of the conversion.
    pub fn outcome(&self, mega_read_ok: bool, rclone_read_ok: bool) -> (r: (u32, String))
        ensures
            (r.0, r.1@) == run_outcome(self.fault, mega_read_ok, rclone_read_ok),
    {
        if !mega_read_ok {
            (1, String::from_str("error reading mega-ls file: do file i and iconv"))
        } else if !rclone_read_ok {
            (1, String::from_str("error reading rclone file: do file i and iconv"))
        } else {
            let code = match &self.fault {
                Some(f) => f.code(),
                None => 0,
            };
            (code, String::from_str("source file exists and read"))
        }
    }
}

/// The files a conversion writes, named after the listings.
pub struct OutputNames {
    /// The CSV lines with time stamps: the `mega-ls` listing's path and `T.csv`.
    pub with_time: String,
    /// The CSV lines without time stamps: the listing's path and `nT.csv`.
    pub without_time: String,
    /// The sorted lines without time stamps: that name and `__sort`.
    pub sorted: String,
    /// The converted `rclone lsf` listing: its path and `nT.csv`.
    pub rclone: String,
}

/// Names the files a conversion writes.
pub fn output_names(mega_value: &str, rclone_value: &str) -> (r: OutputNames)
    ensures
        r.with_time@ == mega_value@ + "T.csv"@,
        r.without_time@ == mega_value@ + "nT.csv"@,
        r.sorted@ == mega_value@ + "nT.csv"@ + "__sort"@,
        r.rclone@ == rclone_value@ + "nT.csv"@,
{
    let mut with_time = String::from_str(mega_value);
    with_time.append("T.csv");
    let mut without_time = String::from_str(mega_value);
    without_time.append("nT.csv");
    let mut sorted = without_time.clone();
    sorted.append("__sort");
    let mut rclone = String::from_str(rclone_value);
    rclone.append("nT.csv");
    OutputNames { with_time, without_time, sorted, rclone }
}

/// Once a time-stamp fault is recorded, no later line clears it.
pub proof fn law_fault_persists(
    sdir: Seq<char>,
    topdir: Seq<char>,
    fault: Option<DateFault>,
    hours: i64,
    bytes: Seq<u8>,
)
    requires
        fault is Some,
        scan_effect(sdir, topdir, fault, hours, bytes) is Some,
    ensures
        scan_effect(sdir, topdir, fault, hours, bytes).unwrap().2 is Some,
{
}

/// The line of a file without its time stamp is the start of the line with
/// it: the line with it adds the date and the time.
pub proof fn law_plain_line_is_prefix(
    sdir: Seq<char>,
    file: Seq<char>,
    size: Seq<char>,
    date: Seq<char>,
    time: Seq<char>,
)
    ensures
        entry_lines(sdir, file, size, date, time).0 == entry_lines(sdir, file, size, date, time).1
            + ","@ + date + " "@ + time,
{
}

/// Lines of other kinds than headings leave the current and the top
/// directory as they are, and only file entries touch the recorded fault.
pub proof fn law_kinds_touch_their_state(
    sdir: Seq<char>,
    topdir: Seq<char>,
    fault: Option<DateFault>,
    hours: i64,
    bytes: Seq<u8>,
)
    requires
        scan_effect(sdir, topdir, fault, hours, bytes) is Some,
    ensures
        line_kind(bytes) != LineKind::Directory ==> scan_effect(sdir, topdir, fault, hours, bytes).unwrap().0 == sdir
            && scan_effect(sdir, topdir, fault, hours, bytes).unwrap().1 == topdir,
        line_kind(bytes) != LineKind::Entry ==> scan_effect(sdir, topdir, fault, hours, bytes).unwrap().2 == fault
            && scan_effect(sdir, topdir, fault, hours, bytes).unwrap().3 is None,
{
}

/// Spaces.
pub open spec fn spaces(n: nat) -> Seq<char> {
    Seq::new(n, |i: int| ' ')
}

/// Trimming a text padded with spaces gives the text, when it neither
/// begins nor ends with white space.
pub proof fn lemma_trim_padded(pad: nat, t: Seq<char>)
    requires
        t.len() > 0,
        !is_white_space(t[0]),
        !is_white_space(t.last()),
    ensures
        trim_spec(spaces(pad) + t) == t,
    decreases pad,
{
    if pad == 0 {
        assert(spaces(pad) + t =~= t);
        assert(trim_start_spec(t) == t);
    } else {
        lemma_trim_padded((pad - 1) as nat, t);
        assert((spaces(pad) + t)[0] == ' ');
        assert((spaces(pad) + t).drop_first() =~= spaces((pad - 1) as nat) + t);
        assert(trim_start_spec(spaces(pad) + t) == trim_start_spec(spaces((pad - 1) as nat) + t));
    }
    assert(trim_end_spec(t) == t);
}

/// A size field holding a non-negative number, padded with spaces, is
/// written out as that number: any size that fits an `i64`, also those
/// beyond `i32`.
pub proof fn law_size_column_number(pad: nat, v: nat)
    requires
        v <= i64::MAX,
    ensures
        size_text(spaces(pad) + decimal_text(v)) == decimal_text(v),
{
    lemma_decimal_text(v);
    let t = decimal_text(v);
    assert(is_digit_char(t[0]));
    assert(is_digit_char(t[t.len() - 1]));
    lemma_trim_padded(pad, t);
    assert(decimal_number(t) == Some(v as int));
    assert(parsed_i64(t) == Some(v as i64));
}

/// The decimal text of a number holds no character other than digits.
pub proof fn lemma_decimal_lacks(n: nat, c: char)
    requires
        !is_digit_char(c),
    ensures
        forall|i: int| 0 <= i < decimal_text(n).len() ==> decimal_text(n)[i] != c,
{
    lemma_decimal_text(n);
    assert forall|i: int| 0 <= i < decimal_text(n).len() implies decimal_text(n)[i] != c by {
        assert(is_digit_char(decimal_text(n)[i]));
    }
}

/// The three numbers of a date `y-m-d` or a time `h:m:s`, written in decimal,
/// are its three fields.
pub proof fn lemma_three_fields(a: nat, b: nat, c: nat, sep: char)
    requires
        !is_digit_char(sep),
    ensures
        fields_of(decimal_text(a) + seq![sep] + decimal_text(b) + seq![sep] + decimal_text(c), sep)
            == seq![decimal_text(a), decimal_text(b), decimal_text(c)],
{
    let (x, y, z) = (decimal_text(a), decimal_text(b), decimal_text(c));
    lemma_decimal_lacks(a, sep);
    lemma_decimal_lacks(b, sep);
    lemma_decimal_lacks(c, sep);
    lemma_fields_concat(x + seq![sep] + y, sep, z);
    lemma_fields_concat(x, sep, y);
    lemma_fields_single(x, sep);
    lemma_fields_single(y, sep);
    lemma_fields_single(z, sep);
    assert(fields_of(x + seq![sep] + y + seq![sep] + z, sep) =~= seq![x, y, z]);
}

/// With no fault recorded, a date and a time written as numbers give the
/// time stamp holding exactly those numbers, field for field: year, month
/// and day in the order of the date, hour, minute and second in the order of
/// the time.
pub proof fn law_stamp_holds_written_fields(y: nat, mo: nat, d: nat, h: nat, mi: nat, s: nat)
    requires
        y <= i32::MAX,
        mo <= i32::MAX,
        d <= i32::MAX,
        h <= i32::MAX,
        mi <= i32::MAX,
        s <= i32::MAX,
    ensures
        date_check(
            None,
            decimal_text(y) + seq!['-'] + decimal_text(mo) + seq!['-'] + decimal_text(d),
            decimal_text(h) + seq![':'] + decimal_text(mi) + seq![':'] + decimal_text(s),
        ) == (
            None::<DateFault>,
            Some(
                Stamp {
                    year: y as i32,
                    month: mo as i32,
                    day: d as i32,
                    hour: h as i32,
                    minute: mi as i32,
                    second: s as i32,
                },
            ),
        ),
{
    lemma_three_fields(y, mo, d, '-');
    lemma_three_fields(h, mi, s, ':');
    lemma_decimal_reads_back(y);
    lemma_decimal_reads_back(mo);
    lemma_decimal_reads_back(d);
    lemma_decimal_reads_back(h);
    lemma_decimal_reads_back(mi);
    lemma_decimal_reads_back(s);
}

/// A later heading made of the top directory, `/`, a path and `:` names that
/// path, with all its levels, as the current directory (when neither the
/// top directory nor the path holds a `:`).
pub proof fn law_heading_names_full_path(sdir: Seq<char>, topdir: Seq<char>, r: Seq<char>)
    requires
        sdir != unset_dir(),
        forall|i: int| 0 <= i < topdir.len() ==> topdir[i] != ':',
        forall|i: int| 0 <= i < r.len() ==> r[i] != ':',
    ensures
        dir_update(sdir, topdir, encode_utf8(topdir + seq!['/'] + r + seq![':', '\n'])).0 == r,
{
    let et = encode_utf8(topdir);
    let er = encode_utf8(r);
    lemma_encode_concat(topdir + seq!['/'] + r, seq![':', '\n']);
    lemma_encode_concat(topdir + seq!['/'], r);
    lemma_encode_concat(topdir, seq!['/']);
    lemma_encode_ascii_char('/');
    assert(seq![':', '\n'] =~= seq![':'] + seq!['\n']);
    lemma_encode_concat(seq![':'], seq!['\n']);
    lemma_encode_ascii_char(':');
    lemma_encode_ascii_char('\n');
    let bytes = encode_utf8(topdir + seq!['/'] + r + seq![':', '\n']);
    assert(bytes =~= et + seq![47u8] + er + seq![58u8, 10u8]);
    assert(bytes.subrange(0, et.len() as int) =~= et);
    lemma_first_index_prefix(bytes, et);
    assert(':' as u32 == 58);
    assert forall|i: int| 0 <= i < topdir.len() implies (topdir[i] as u32) != (58u8 as u32) by {
        lemma_char_codes_differ(topdir[i], ':');
    }
    assert forall|i: int| 0 <= i < r.len() implies (r[i] as u32) != (58u8 as u32) by {
        lemma_char_codes_differ(r[i], ':');
    }
    lemma_encode_ascii_absent(topdir, 58u8);
    lemma_encode_ascii_absent(r, 58u8);
    let c: int = (et.len() + 1 + er.len()) as int;
    assert forall|i: int| 0 <= i < c implies bytes[i] != 58u8 by {
        if i < et.len() {
            assert(bytes[i] == et[i]);
        } else if i == et.len() {
        } else {
            assert(bytes[i] == er[i - et.len() - 1]);
        }
    }
    lemma_first_index_byte(bytes, 58u8, c, 0);
    assert(colon() == seq![58u8]);
    assert(dir_start(topdir, bytes) == Some((et.len() + 1) as int));
    assert(bytes.subrange((et.len() + 1) as int, c) =~= er);
    broadcast use encode_utf8_decode_utf8;

    assert(decode_utf8(er) == r);
}

} // verus!
