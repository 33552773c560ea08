use megaparse::scan::{
    check_date, output_names, size_column, DateFault, LineKind, MegaScan, Stamp,
};
use megaparse::scan::kind_of;

fn entry(size: &str, date: &str, time: &str, name: &str) -> String {
    // flags (5 bytes) + links (5 bytes) + size (12 bytes) + ' ' + date + ' ' + time + ' ' + name
    format!("----    1 {:>12} {} {} {}\n", size, date, time, name)
}

#[test]
fn entry_columns_are_at_fixed_positions() {
    let line = entry("1234", "2023-01-15", "10:20:30", "file.txt");
    assert_eq!(&line[10..22], "        1234");
    assert_eq!(&line[23..33], "2023-01-15");
    assert_eq!(&line[34..42], "10:20:30");
    assert_eq!(&line[43..line.len() - 1], "file.txt");
}

#[test]
fn kinds_of_lines() {
    assert_eq!(kind_of("drwx ... dir\n"), LineKind::Skip);
    assert_eq!(kind_of(&entry("1", "2023-01-15", "10:20:30", "a")), LineKind::Entry);
    assert_eq!(kind_of("-ep-    1            1 2023-01-15 10:20:30 a\n"), LineKind::Entry);
    assert_eq!(kind_of("/top/dir:\n"), LineKind::Directory);
    assert_eq!(kind_of("dir:\n"), LineKind::Skip);
    assert_eq!(kind_of("\n"), LineKind::Skip);
}

#[test]
fn scan_without_time_shift() {
    let mut s = MegaScan::new("0", 100);
    assert_eq!(s.numutc, 0);
    let h = "/top:\n";
    assert!(s.line_accepted(h));
    let out = s.scan_line(h).unwrap();
    assert!(out.entry.is_none());
    assert_eq!(s.sdir, "");
    assert_eq!(s.topdir, "/top");
    let line = entry("1234", "2023-01-15", "10:20:30", "file.txt");
    assert!(s.line_accepted(&line));
    let out = s.scan_line(&line).unwrap();
    let (t, nt) = out.entry.unwrap();
    assert_eq!(t, "file.txt,1234,2023-01-15 10:20:30");
    assert_eq!(nt, "file.txt,1234");
    assert!(t.starts_with(&nt));
    assert!(!out.stop);
    let h2 = "/top/sub:\n";
    s.scan_line(h2).unwrap();
    assert_eq!(s.sdir, "sub");
    assert_eq!(s.topdir, "/top");
    let out = s.scan_line(&line).unwrap();
    let (t, nt) = out.entry.unwrap();
    assert_eq!(t, "sub/file.txt,1234,2023-01-15 10:20:30");
    assert_eq!(nt, "sub/file.txt,1234");
    assert_eq!(s.linenum, 4);
    assert!(s.fault.is_none());
}

#[test]
fn scan_moves_time_stamps() {
    let mut s = MegaScan::new("2", 100);
    assert_eq!(s.numutc, 2);
    s.scan_line("/top:\n").unwrap();
    let line = entry("7", "2023-01-15", "23:20:30", "a b.txt");
    let (t, nt) = s.scan_line(&line).unwrap().entry.unwrap();
    assert_eq!(t, "a b.txt,7,2023-01-16 01:20:30");
    assert_eq!(nt, "a b.txt,7");
    let mut s = MegaScan::new("-11", 100);
    s.scan_line("/top:\n").unwrap();
    let line = entry("7", "2024-03-01", "05:00:00", "x");
    let (t, _) = s.scan_line(&line).unwrap().entry.unwrap();
    assert_eq!(t, "x,7,2024-02-29 18:00:00");
}

#[test]
fn scan_offset_not_numeric_is_minus_99() {
    let s = MegaScan::new("abc", 5);
    assert_eq!(s.numutc, -99);
    assert_eq!(s.numrows, 5);
    assert_eq!(s.sdir, "--");
}

#[test]
fn scan_fault_persists() {
    let mut s = MegaScan::new("1", 100);
    s.scan_line("/top:\n").unwrap();
    let bad = entry("1", "2023/01/15", "10:20:30", "bad");
    let (t, _) = s.scan_line(&bad).unwrap().entry.unwrap();
    assert_eq!(t, "bad,1,invalid date or time: 2023/01/15 10:20:30");
    assert_eq!(s.fault, Some(DateFault::DateShape));
    let good = entry("1", "2023-01-15", "10:20:30", "good");
    let (t, _) = s.scan_line(&good).unwrap().entry.unwrap();
    assert_eq!(t, "good,1,invalid date or time: 2023-01-15 10:20:30");
    assert_eq!(s.fault, Some(DateFault::DateShape));
    assert_eq!(s.outcome(true, true), (1, "source file exists and read".to_string()));
}

#[test]
fn scan_refuses_impossible_date() {
    let mut s = MegaScan::new("1", 100);
    s.scan_line("/top:\n").unwrap();
    let line = entry("1", "2023-13-15", "10:20:30", "f");
    assert!(s.line_accepted(&line));
    let before = s.linenum;
    assert!(s.scan_line(&line).is_none());
    assert_eq!(s.linenum, before);
}

#[test]
fn scan_stops_after_counted_rows() {
    let mut s = MegaScan::new("0", 2);
    assert!(!s.scan_line("x\n").unwrap().stop);
    assert!(!s.scan_line("x\n").unwrap().stop);
    assert!(s.scan_line("x\n").unwrap().stop);
}

#[test]
fn scan_refuses_short_entries_and_unknown_top() {
    let s = MegaScan::new("0", 2);
    assert!(!s.line_accepted("---- short\n"));
    let mut s = MegaScan::new("0", 2);
    s.scan_line("/top:\n").unwrap();
    assert!(!s.line_accepted("/other:\n"));
    assert!(!s.line_accepted("/top:\n"));
    assert!(s.line_accepted("/top/:\n"));
}

#[test]
fn size_columns() {
    assert_eq!(size_column("        1234"), "1234");
    assert_eq!(size_column("  abc  "), "invalid size value: -abc-");
    assert_eq!(size_column("    -5"), "invalid size value: --5-");
    assert_eq!(size_column("+0012"), "12");
}

#[test]
fn date_checks() {
    assert_eq!(check_date(None, "2023-01-15", "10:20:30"), (None, Some(Stamp { year: 2023, month: 1, day: 15, hour: 10, minute: 20, second: 30 })));
    assert_eq!(check_date(None, "2023-01", "10:20:30"), (Some(DateFault::DateShape), None));
    assert_eq!(check_date(None, "2023-01-15", "10:20"), (Some(DateFault::TimeShape), None));
    assert_eq!(check_date(None, "2023-xx-15", "10:20:30"), (Some(DateFault::DateNumber), None));
    assert_eq!(check_date(None, "2023-01-15", "10:2x:30"), (Some(DateFault::TimeNumber), None));
    assert_eq!(check_date(Some(DateFault::TimeShape), "2023-01-15", "10:20:30"), (Some(DateFault::TimeShape), None));
    assert_eq!(check_date(None, "-9999-01-15", "10:20:30"), (Some(DateFault::DateShape), None));
}

#[test]
fn fault_codes_and_messages() {
    assert_eq!(DateFault::DateShape.code(), 1);
    assert_eq!(DateFault::TimeShape.code(), 2);
    assert_eq!(DateFault::DateNumber.code(), 3);
    assert_eq!(DateFault::TimeNumber.code(), 5);
    assert_eq!(DateFault::DateShape.message(), "invalid date");
    assert_eq!(DateFault::TimeShape.message(), "invalid time");
    assert_eq!(DateFault::DateNumber.message(), "invalid time 2");
    assert_eq!(DateFault::TimeNumber.message(), "invalid time 3");
}

#[test]
fn outcomes() {
    let s = MegaScan::new("0", 2);
    assert_eq!(s.outcome(false, true), (1, "error reading mega-ls file: do file i and iconv".to_string()));
    assert_eq!(s.outcome(true, false), (1, "error reading rclone file: do file i and iconv".to_string()));
    assert_eq!(s.outcome(true, true), (0, "source file exists and read".to_string()));
}

#[test]
fn output_file_names() {
    let n = output_names("/m/list", "/r/list");
    assert_eq!(n.with_time, "/m/listT.csv");
    assert_eq!(n.without_time, "/m/listnT.csv");
    assert_eq!(n.sorted, "/m/listnT.csv__sort");
    assert_eq!(n.rclone, "/r/listnT.csv");
}

#[test]
fn unicode_names_are_cut_by_bytes() {
    let mut s = MegaScan::new("0", 100);
    s.scan_line("/top:\n").unwrap();
    let line = entry("3", "2023-01-15", "10:20:30", "été.txt");
    let (t, nt) = s.scan_line(&line).unwrap().entry.unwrap();
    assert_eq!(t, "été.txt,3,2023-01-15 10:20:30");
    assert_eq!(nt, "été.txt,3");
}

#[test]
fn valid_stamps_are_moved() {
    let mut s = MegaScan::new("1", 100);
    s.scan_line("/top:\n").unwrap();
    let line = entry("1", "2023-01-31", "23:30:00", "f");
    let (t, _) = s.scan_line(&line).unwrap().entry.unwrap();
    assert_eq!(t, "f,1,2023-02-01 00:30:00");
    let mut s = MegaScan::new("-23", 100);
    s.scan_line("/top:\n").unwrap();
    let line = entry("1", "2024-02-29", "00:00:00", "f");
    let (t, _) = s.scan_line(&line).unwrap().entry.unwrap();
    assert_eq!(t, "f,1,2024-02-28 01:00:00");
}

#[test]
fn stamps_in_the_last_year_of_the_calendar_range() {
    let mut s = MegaScan::new("-1", 100);
    s.scan_line("/top:\n").unwrap();
    let line = entry("1", "262142-1-1", "00:30:00", "f");
    let (t, _) = s.scan_line(&line).unwrap().entry.unwrap();
    assert_eq!(t, "f,1,+262141-12-31 23:30:00");
    let mut s = MegaScan::new("23", 100);
    s.scan_line("/top:\n").unwrap();
    let line = entry("1", "262142-1-1", "00:30:00", "f");
    let (t, _) = s.scan_line(&line).unwrap().entry.unwrap();
    assert_eq!(t, "f,1,+262142-01-01 23:30:00");
}
