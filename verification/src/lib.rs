//! A status bar for the root window of an X11 display.
//!
//! Sources are asked for their values, each at its own pace; what they show
//! is kept in one slot each, joined, and written to the display and to
//! standard output. The library decides and computes; timers, files,
//! processes, the clock, the display and the signals belong to the program
//! around it, which tells the [`status::Bar`] what happened and does what the
//! bar hands out.

pub mod config;
pub mod error;
pub mod status;
pub mod text;
pub mod x11;
