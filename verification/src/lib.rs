//! Conversion of `mega-ls -l -r` listings and `rclone lsf` listings into
//! comparable CSV lines, together with the checks and the state model of
//! the window that drives the conversion.

pub mod text;
pub mod clock;
pub mod scan;
pub mod rclone;
pub mod launch;
pub mod progress;
pub mod dialog;
pub mod gui;
