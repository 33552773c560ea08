//! The checks made before a conversion is started.

use crate::text::{decimal_number, numeric_field, parsed_i32, parsed_i64, read_numeric_field};
use vstd::prelude::*;
use vstd::string::*;

verus! {

/// Calls `std::path::Path::exists` on the path. Whether the path exists
/// depends on the file system at the time of the call, so nothing is
/// promised of the result.
#[verifier::external_body]
pub(crate) fn path_exists(path: &str) -> (r: bool) {
    std::path::Path::new(path).exists()
}

/// The code and text of the check before a conversion, given whether the
/// two listings exist: both listings must exist, the `mega-ls` listing must
/// have more than 10 lines, and the time-zone offset must be a number of
/// hours from -23 to 23.
pub open spec fn launch_check(rclone_exists: bool, mega_exists: bool, rows_num: u64, utc: Seq<char>) -> (
    u32,
    Seq<char>,
) {
    if !rclone_exists {
        (5, "the rclone file does not exist"@)
    } else if !mega_exists {
        (4, "the mega ls file does not exist"@)
    } else if rows_num <= 10 {
        (3, "The number of rows is less than 11"@)
    } else {
        match numeric_field(utc) {
            None => (1, "UTC value is not numeric"@),
            Some(v) => if v > 23 || v < -23 {
                (2, "UTC value is either greater than 23 or less than -23"@)
            } else {
                (0, "all good and now process execution"@)
            },
        }
    }
}

/// The check before a conversion, given whether the two listings exist.
pub fn execpress_outcome(rclone_exists: bool, mega_exists: bool, rows_num: u64, utc_value: &str) -> (r: (
    u32,
    String,
))
    ensures
        (r.0, r.1@) == launch_check(rclone_exists, mega_exists, rows_num, utc_value@),
{
    if !rclone_exists {
        (5, String::from_str("the rclone file does not exist"))
    } else if !mega_exists {
        (4, String::from_str("the mega ls file does not exist"))
    } else if rows_num <= 10 {
        (3, String::from_str("The number of rows is less than 11"))
    } else {
        match read_numeric_field(utc_value) {
            None => (1, String::from_str("UTC value is not numeric")),
            Some(v) => if v > 23 || v < -23 {
                (2, String::from_str("UTC value is either greater than 23 or less than -23"))
            } else {
                (0, String::from_str("all good and now process execution"))
            },
        }
    }
}

/// The check before a conversion: looks up the `rclone` listing's path
/// first and, only when it exists, the `mega-ls` listing's path, then checks
/// as `launch_check` says. The answers of the file system are not tied to
/// the paths by the contract, which says only that the result is the check's
/// for some pair of answers; `execpress_outcome` is the exact check.
pub fn execpress(mega_value: String, rclone_value: String, rows_num: u64, utc_value: String) -> (r: (
    u32,
    String,
))
    ensures
        exists|rclone_exists: bool, mega_exists: bool|
            (r.0, r.1@) == launch_check(rclone_exists, mega_exists, rows_num, utc_value@),
{
    let rclone_exists = path_exists(rclone_value.as_str());
    let mega_exists = if rclone_exists {
        path_exists(mega_value.as_str())
    } else {
        false
    };
    execpress_outcome(rclone_exists, mega_exists, rows_num, utc_value.as_str())
}

/// A check that passes lets the conversion start with the typed offset: the
/// conversion reads the same text as a number of hours from -23 to 23.
pub proof fn law_checked_offset(rclone_exists: bool, mega_exists: bool, rows_num: u64, utc: Seq<char>)
    requires
        launch_check(rclone_exists, mega_exists, rows_num, utc).0 == 0,
    ensures
        parsed_i64(utc) is Some,
        -23 <= parsed_i64(utc).unwrap() <= 23,
        parsed_i64(utc).unwrap() == numeric_field(utc).unwrap(),
{
    let v = decimal_number(utc).unwrap();
    assert(parsed_i32(utc) == Some(v as i32));
}

/// With both listings present, a listing of 11 lines or more and an offset
/// from -23 to 23 pass the check; and the check refuses for the number of
/// lines exactly when there are 10 or fewer.
pub proof fn law_check_passes(rows_num: u64, utc: Seq<char>)
    ensures
        rows_num >= 11 && numeric_field(utc) is Some && -23 <= numeric_field(utc).unwrap() <= 23
            ==> launch_check(true, true, rows_num, utc) == (0u32, "all good and now process execution"@),
        launch_check(true, true, rows_num, utc).0 == 3 <==> rows_num <= 10,
{
}

} // verus!
