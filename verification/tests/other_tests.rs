use megaparse::dialog::{dialog_outcome, dialog_seed, dialog_start, seed_choice, start_location};
use megaparse::gui::{window_title, Megaparse, MessColor};
use megaparse::launch::{execpress, execpress_outcome};
use megaparse::progress::{is_progress_shaped, parse_progress, progress_message, RowTally};
use megaparse::rclone::{convert_rclone_line, rclone_line_accepted};
use megaparse::scan::{size_column, MegaScan};
use megaparse::text::{cut, find_bytes, read_numeric_field, split_fields};

#[test]
fn rclone_plain_line() {
    assert!(rclone_line_accepted("file.txt,123\n"));
    assert_eq!(convert_rclone_line("file.txt,123\n"), "file.txt,123");
    assert_eq!(convert_rclone_line("\n"), "");
}

#[test]
fn rclone_quoted_line() {
    assert!(rclone_line_accepted("\"a,b.txt\",12\n"));
    assert_eq!(convert_rclone_line("\"a,b.txt\",12\n"), "a,b.txt,12");
    assert_eq!(convert_rclone_line("\"x\n"), "\"x");
    assert_eq!(convert_rclone_line("\"\"x\n"), "\"\"x");
}

#[test]
fn rclone_refused_lines() {
    assert!(!rclone_line_accepted(""));
    assert!(!rclone_line_accepted("\"ab\""));
    assert!(!rclone_line_accepted("é"));
}

#[test]
fn launch_checks() {
    assert_eq!(execpress_outcome(false, true, 20, "1"), (5, "the rclone file does not exist".to_string()));
    assert_eq!(execpress_outcome(true, false, 20, "1"), (4, "the mega ls file does not exist".to_string()));
    assert_eq!(execpress_outcome(true, true, 10, "1"), (3, "The number of rows is less than 11".to_string()));
    assert_eq!(execpress_outcome(true, true, 11, "x"), (1, "UTC value is not numeric".to_string()));
    assert_eq!(execpress_outcome(true, true, 11, "-9999"), (1, "UTC value is not numeric".to_string()));
    assert_eq!(execpress_outcome(true, true, 11, "24"), (2, "UTC value is either greater than 23 or less than -23".to_string()));
    assert_eq!(execpress_outcome(true, true, 11, "-24"), (2, "UTC value is either greater than 23 or less than -23".to_string()));
    assert_eq!(execpress_outcome(true, true, 11, "-23"), (0, "all good and now process execution".to_string()));
    assert_eq!(execpress_outcome(true, true, 11, "+23"), (0, "all good and now process execution".to_string()));
}

#[test]
fn execpress_looks_up_paths() {
    assert_eq!(execpress("/".to_string(), "/".to_string(), 11, "5".to_string()).0, 0);
    assert_eq!(execpress("/".to_string(), "/surely/not/here".to_string(), 11, "5".to_string()).0, 5);
    assert_eq!(execpress("/surely/not/here".to_string(), "/".to_string(), 11, "5".to_string()).0, 4);
}

#[test]
fn progress_messages() {
    assert_eq!(progress_message(5, 10), "Progress|5|10");
    assert_eq!(parse_progress("Progress|5|10"), Some((5, 10)));
    assert_eq!(parse_progress(&progress_message(2147483647, 0)), Some((2147483647, 0)));
    assert_eq!(parse_progress(&progress_message(2147483648, 1)), None);
    assert_eq!(parse_progress("Progress|-9999|3"), None);
    assert_eq!(parse_progress("Progress|1|2|3"), None);
    assert_eq!(parse_progress("progress|1|2"), None);
    assert_eq!(parse_progress("Progress|-4|+2"), Some((-4, 2)));
}

#[test]
fn row_tally() {
    let mut t = RowTally::new();
    for _ in 0..100000 {
        assert!(t.on_line().is_none());
    }
    assert_eq!(t.on_line(), Some("Progress|100001|100000000".to_string()));
    assert_eq!(t.next_report, 200000);
    assert_eq!(RowTally::finished(), "Progress|10|10");
    assert_eq!(t.outcome(true), (100001, 0, "number of rows has been set".to_string()));
    assert_eq!(t.outcome(false), (100001, 1, "error reading mega ".to_string()));
}

#[test]
fn text_primitives() {
    assert_eq!(MegaScan::new("-12", 0).numutc, -12);
    assert_eq!(MegaScan::new(" 12", 0).numutc, -99);
    assert_eq!(MegaScan::new("9223372036854775808", 0).numutc, -99);
    assert_eq!(read_numeric_field("2147483648"), None);
    assert_eq!(read_numeric_field("+"), None);
    assert_eq!(read_numeric_field("-9999"), None);
    assert_eq!(read_numeric_field("7"), Some(7));
    assert_eq!(read_numeric_field("-2147483648"), Some(-2147483648));
    assert_eq!(size_column("0"), "0");
    assert_eq!(size_column("1200"), "1200");
    assert_eq!(size_column("\u{3000} a b \t"), "invalid size value: -a b-");
    assert_eq!(cut("aé", 0, 2), None);
    assert_eq!(cut("aé", 1, 3), Some("é"));
    assert_eq!(cut("aé", 2, 1), None);
    assert_eq!(cut("aé", 0, 4), None);
    assert_eq!(find_bytes(b"a:b:c", b":"), Some(1));
    assert_eq!(find_bytes(b"abc", b""), Some(0));
    assert_eq!(find_bytes(b"abc", b"bd"), None);
    assert_eq!(split_fields("a--b", '-'), vec!["a", "", "b"]);
    assert_eq!(split_fields("", '-'), vec![""]);
}

#[test]
fn dialog_steps() {
    assert_eq!(start_location("/a/b", true), Some("/a".to_string()));
    assert_eq!(start_location("/", true), None);
    assert_eq!(start_location("/a/b", false), Some("/".to_string()));
    assert_eq!(dialog_start("/surely/not/here"), Some("/".to_string()));
    assert_eq!(dialog_start("/"), None);
    assert_eq!(dialog_outcome("/a".to_string(), None), (1, "error getting directory -- possible cancel key hit".to_string(), "/a".to_string()));
    assert_eq!(dialog_outcome("/a".to_string(), Some("/a/f".to_string())), (0, "got file".to_string(), "/a/f".to_string()));
    assert_eq!(seed_choice("m", false, "r", true), "r");
    assert_eq!(seed_choice("m", true, "r", true), "m");
    assert_eq!(seed_choice("m", false, "r", false), "m");
    assert_eq!(dialog_seed("/surely/not/here", "/"), "/");
}

#[test]
fn window_events() {
    let mut w = Megaparse::new();
    assert_eq!(w.mega_value, "--");
    assert_eq!(w.msg_value, "no message");
    assert_eq!(w.utc_value, "-1");
    assert_eq!(w.mess_color, MessColor::Blue);
    w.on_utc_changed("3".to_string());
    assert_eq!(w.utc_value, "3");
    w.on_mega_picked(1, "cancel".to_string(), "/x".to_string(), false, None);
    assert_eq!(w.msg_value, "cancel");
    assert_eq!(w.mess_color, MessColor::Red);
    w.on_mega_picked(0, "got file".to_string(), "/x".to_string(), false, None);
    assert_eq!(w.msg_value, "mega ls file does not exist: /x");
    w.on_mega_picked(0, "got file".to_string(), "/x".to_string(), true, Some(42));
    assert_eq!(w.mega_value, "/x");
    assert_eq!(w.rows_num, 42);
    assert_eq!(w.mess_color, MessColor::Green);
    assert_eq!(w.msg_value, "got mega ls file and retrieved its number of rows");
    w.on_mega_picked(0, "got file".to_string(), "/y".to_string(), true, None);
    assert_eq!(w.rows_num, 0);
    assert_eq!(w.msg_value, "error reading mega ");
    w.on_rclone_picked(0, "got file".to_string(), "/r".to_string());
    assert_eq!(w.rclone_value, "/r");
    assert!(!w.on_exec_checked(3, "The number of rows is less than 11".to_string()));
    assert_eq!(w.mess_color, MessColor::Red);
    assert!(w.on_exec_checked(0, "all good".to_string()));
    w.on_exec_finished(0, "source file exists and read".to_string());
    assert_eq!(w.mess_color, MessColor::Green);
    let tick = w.on_progress_tick(Some("Progress|1|2"));
    assert!(!tick.reschedule);
    assert!(tick.fraction.is_none());
    w.on_progress_pressed();
    let tick = w.on_progress_tick(Some("Progress|1|2"));
    assert!(tick.reschedule);
    assert_eq!(tick.fraction, Some((1, 2)));
    assert_eq!(w.mess_color, MessColor::Blue);
    let tick = w.on_progress_tick(None);
    assert!(tick.reschedule && tick.fraction.is_none());
}

#[test]
fn checked_offset_is_the_scan_offset() {
    assert_eq!(execpress_outcome(true, true, 11, "+07").0, 0);
    assert_eq!(MegaScan::new("+07", 11).numutc, 7);
    assert_eq!(execpress_outcome(true, true, 11, "-0").0, 0);
    assert_eq!(MegaScan::new("-0", 11).numutc, 0);
}

#[test]
fn progress_shapes() {
    assert!(is_progress_shaped("Progress|x|y"));
    assert!(is_progress_shaped("Progress|1|2"));
    assert!(!is_progress_shaped("Progress|1"));
    assert!(!is_progress_shaped("Progres|1|2"));
}

#[test]
fn title_of_window() {
    assert_eq!(window_title(), "Mega parse of file list for just name and size, but creates another with time -- iced");
}
