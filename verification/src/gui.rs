//! What the window shows and how each of its events changes it. Drawing the
//! window, and the progress bar's fraction, are left to the caller.

use crate::progress::{parse_progress, progress_fields};
use vstd::prelude::*;
use vstd::string::*;

verus! {

/// The colour of the message line.
#[derive(Clone, Copy, PartialEq, Eq, Structural, Debug)]
pub enum MessColor {
    Blue,
    Green,
    Red,
}

/// The state of the window, without its progress fraction.
pub struct Megaparse {
    /// The path of the `mega-ls` listing.
    pub mega_value: String,
    /// The colour of the message line.
    pub mess_color: MessColor,
    /// The message line.
    pub msg_value: String,
    /// The time-zone offset as typed.
    pub utc_value: String,
    /// The number of lines of the `mega-ls` listing.
    pub rows_num: u64,
    /// The path of the `rclone lsf` listing.
    pub rclone_value: String,
    /// Whether progress is being followed.
    pub do_progress: bool,
}

/// What a tick of the progress timer gives.
pub struct ProgressTick {
    /// The timer is to run again.
    pub reschedule: bool,
    /// The numbers of the last progress message, when it could be read.
    pub fraction: Option<(i32, i32)>,
}

/// The title of the window.
pub fn window_title() -> (t: String)
    ensures
        t@ == "Mega parse of file list for just name and size, but creates another with time -- iced"@,
{
    String::from_str(
        "Mega parse of file list for just name and size, but creates another with time -- iced",
    )
}

impl Megaparse {
    /// The window as it opens.
    pub fn new() -> (s: Self)
        ensures
            s.mega_value@ == "--"@,
            s.msg_value@ == "no message"@,
            s.rows_num == 0,
            s.mess_color == MessColor::Blue,
            s.rclone_value@ == "--"@,
            s.utc_value@ == "-1"@,
            !s.do_progress,
    {
        Megaparse {
            mega_value: String::from_str("--"),
            mess_color: MessColor::Blue,
            msg_value: String::from_str("no message"),
            utc_value: String::from_str("-1"),
            rows_num: 0,
            rclone_value: String::from_str("--"),
            do_progress: false,
        }
    }

    /// The time-zone offset was edited.
    pub fn on_utc_changed(&mut self, value: String)
        ensures
            final(self).utc_value == value,
            final(self).mega_value == old(self).mega_value,
            final(self).mess_color == old(self).mess_color,
            final(self).msg_value == old(self).msg_value,
            final(self).rows_num == old(self).rows_num,
            final(self).rclone_value == old(self).rclone_value,
            final(self).do_progress == old(self).do_progress,
    {
        self.utc_value = value;
    }

    /// A `mega-ls` listing was chosen: the chooser's code, text and path,
    /// whether that path exists, and the number of its lines, or `None`
    /// where they could not be read.
    pub fn on_mega_picked(
        &mut self,
        errcode: u32,
        errstr: String,
        newinput: String,
        newinput_exists: bool,
        rows: Option<u64>,
    )
        ensures
            final(self).utc_value == old(self).utc_value,
            final(self).rclone_value == old(self).rclone_value,
            final(self).do_progress == old(self).do_progress,
            errcode != 0 ==> {
                &&& final(self).msg_value == errstr
                &&& final(self).mess_color == MessColor::Red
                &&& final(self).mega_value == old(self).mega_value
                &&& final(self).rows_num == old(self).rows_num
            },
            errcode == 0 && !newinput_exists ==> {
                &&& final(self).msg_value@ == "mega ls file does not exist: "@ + newinput@
                &&& final(self).mess_color == MessColor::Red
                &&& final(self).mega_value == old(self).mega_value
                &&& final(self).rows_num == old(self).rows_num
            },
            errcode == 0 && newinput_exists ==> {
                &&& final(self).mega_value == newinput
                &&& match rows {
                    Some(n) => {
                        &&& final(self).rows_num == n
                        &&& final(self).mess_color == MessColor::Green
                        &&& final(self).msg_value@
                            == "got mega ls file and retrieved its number of rows"@
                    },
                    None => {
                        &&& final(self).rows_num == 0
                        &&& final(self).mess_color == MessColor::Red
                        &&& final(self).msg_value@ == "error reading mega "@
                    },
                }
            },
    {
        if errcode != 0 {
            self.msg_value = errstr;
            self.mess_color = MessColor::Red;
        } else if !newinput_exists {
            let mut m = String::from_str("mega ls file does not exist: ");
            m.append(newinput.as_str());
            self.msg_value = m;
            self.mess_color = MessColor::Red;
        } else {
            self.mega_value = newinput;
            match rows {
                Some(n) => {
                    self.rows_num = n;
                    self.mess_color = MessColor::Green;
                    self.msg_value = String::from_str(
                        "got mega ls file and retrieved its number of rows",
                    );
                },
                None => {
                    self.rows_num = 0;
                    self.mess_color = MessColor::Red;
                    self.msg_value = String::from_str("error reading mega ");
                },
            }
        }
    }

    /// An `rclone lsf` listing was chosen: the chooser's code, text and path.
    pub fn on_rclone_picked(&mut self, errcode: u32, errstr: String, newinput: String)
        ensures
            final(self).msg_value == errstr,
            final(self).mega_value == old(self).mega_value,
            final(self).utc_value == old(self).utc_value,
            final(self).rows_num == old(self).rows_num,
            final(self).do_progress == old(self).do_progress,
            errcode == 0 ==> final(self).rclone_value == newinput && final(self).mess_color
                == MessColor::Green,
            errcode != 0 ==> final(self).rclone_value == old(self).rclone_value
                && final(self).mess_color == MessColor::Red,
    {
        self.msg_value = errstr;
        if errcode == 0 {
            self.rclone_value = newinput;
            self.mess_color = MessColor::Green;
        } else {
            self.mess_color = MessColor::Red;
        }
    }

    /// The check before a conversion answered with a code and a text.
    /// Returns whether the conversion is to start: when the code is 0.
    pub fn on_exec_checked(&mut self, errcode: u32, errstr: String) -> (start: bool)
        ensures
            start == (errcode == 0),
            final(self).msg_value == errstr,
            final(self).mess_color == (if errcode == 0 {
                MessColor::Green
            } else {
                MessColor::Red
            }),
            final(self).mega_value == old(self).mega_value,
            final(self).utc_value == old(self).utc_value,
            final(self).rows_num == old(self).rows_num,
            final(self).rclone_value == old(self).rclone_value,
            final(self).do_progress == old(self).do_progress,
    {
        self.msg_value = errstr;
        if errcode == 0 {
            self.mess_color = MessColor::Green;
            true
        } else {
            self.mess_color = MessColor::Red;
            false
        }
    }

    /// A conversion ended with a code and a text.
    pub fn on_exec_finished(&mut self, errcd: u32, errval: String)
        ensures
            final(self).msg_value == errval,
            final(self).mess_color == (if errcd == 0 {
                MessColor::Green
            } else {
                MessColor::Red
            }),
            final(self).mega_value == old(self).mega_value,
            final(self).utc_value == old(self).utc_value,
            final(self).rows_num == old(self).rows_num,
            final(self).rclone_value == old(self).rclone_value,
            final(self).do_progress == old(self).do_progress,
    {
        self.msg_value = errval;
        if errcd == 0 {
            self.mess_color = MessColor::Green;
        } else {
            self.mess_color = MessColor::Red;
        }
    }

    /// Progress is to be followed from now on.
    pub fn on_progress_pressed(&mut self)
        ensures
            final(self).do_progress,
            final(self).mega_value == old(self).mega_value,
            final(self).mess_color == old(self).mess_color,
            final(self).msg_value == old(self).msg_value,
            final(self).utc_value == old(self).utc_value,
            final(self).rows_num == old(self).rows_num,
            final(self).rclone_value == old(self).rclone_value,
    {
        self.do_progress = true;
    }

    /// The progress timer ticked, with the last progress message received
    /// since the last tick, if any. While progress is followed the timer
    /// runs again, and a readable message turns the message line blue.
    pub fn on_progress_tick(&mut self, last: Option<&str>) -> (r: ProgressTick)
        ensures
            r.reschedule == old(self).do_progress,
            r.fraction == (if old(self).do_progress {
                match last {
                    Some(m) => progress_fields(m@),
                    None => None,
                }
            } else {
                None
            }),
            final(self).mess_color == (if r.fraction is Some {
                MessColor::Blue
            } else {
                old(self).mess_color
            }),
            final(self).mega_value == old(self).mega_value,
            final(self).msg_value == old(self).msg_value,
            final(self).utc_value == old(self).utc_value,
            final(self).rows_num == old(self).rows_num,
            final(self).rclone_value == old(self).rclone_value,
            final(self).do_progress == old(self).do_progress,
    {
        if !self.do_progress {
            return ProgressTick { reschedule: false, fraction: None };
        }
        let fraction = match last {
            Some(m) => parse_progress(m),
            None => None,
        };
        if fraction.is_some() {
            self.mess_color = MessColor::Blue;
        }
        ProgressTick { reschedule: true, fraction }
    }
}

} // verus!
