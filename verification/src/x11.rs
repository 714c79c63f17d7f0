//! The sink of the status bar as the bar sees it: where the name of the root
//! window is written, how often writing has failed, and the request that
//! writes a name.

use crate::error::{Error, ErrorView};
use crate::text::{decimal, decimal_string};
use vstd::prelude::*;
use vstd::string::StrSliceExecFns;
use vstd::string::StringExecFns;
use vstd::utf8::encode_utf8;

verus! {

/// How many failed writes in a row make the bar connect anew, unless it is
/// told otherwise.
pub const DEFAULT_RECONNECT_THRESHOLD: u32 = 3;

/// A connection to the display, without the connection itself: the window
/// and the property that a name is written to, the failures since the last
/// success, and the number of failures at which to connect anew.
#[derive(Debug, Clone, Copy, PartialEq, Eq, Structural)]
pub struct X11rb {
    pub root_window: u32,
    pub name_atom: u32,
    pub failures: u32,
    pub threshold: u32,
}

/// The request that replaces a property of a window by a text.
#[derive(Debug, Clone, PartialEq, Eq)]
pub struct PropertyWrite {
    /// The window whose property is written.
    pub window: u32,
    /// The property that is written.
    pub property: u32,
    /// The number of bits of one unit of `data`.
    pub format: u8,
    /// The number of units of `data`.
    pub data_len: u32,
    /// The text, in UTF-8.
    pub data: Vec<u8>,
}

/// A [`PropertyWrite`] as plain values.
pub struct PropertyWriteView {
    pub window: u32,
    pub property: u32,
    pub format: u8,
    pub data_len: u32,
    pub data: Seq<u8>,
}

impl View for PropertyWrite {
    type V = PropertyWriteView;

    open spec fn view(&self) -> PropertyWriteView {
        PropertyWriteView {
            window: self.window,
            property: self.property,
            format: self.format,
            data_len: self.data_len,
            data: self.data@,
        }
    }
}

/// What is wrong with a name of more bytes than a `u32` counts.
pub open spec fn too_long() -> Seq<char> {
    "out of range integral type conversion attempted"@
}

impl X11rb {
    /// The connection whose screen `screen_num` has its root window in
    /// `roots`, with `name_atom` standing for the property to write; no such
    /// connection where the display has no such screen.
    pub fn new(roots: &[u32], screen_num: usize, name_atom: u32) -> (r: Result<X11rb, Error>)
        ensures
            match r {
                Ok(sink) => screen_num < roots@.len() && sink == (X11rb {
                    root_window: roots@[screen_num as int],
                    name_atom,
                    failures: 0,
                    threshold: DEFAULT_RECONNECT_THRESHOLD,
                }),
                Err(e) => screen_num >= roots@.len() && e@ == (ErrorView::X11 {
                    message: "no screen "@ + decimal(screen_num as nat),
                }),
            },
    {
        if screen_num < roots.len() {
            Ok(
                X11rb {
                    root_window: roots[screen_num],
                    name_atom,
                    failures: 0,
                    threshold: DEFAULT_RECONNECT_THRESHOLD,
                },
            )
        } else {
            let mut message = String::from_str("no screen ");
            message.append(decimal_string(screen_num as u64).as_str());
            Err(Error::x11(message.as_str()))
        }
    }

    /// The same connection, connecting anew after `threshold` failed writes
    /// in a row.
    pub fn with_threshold(self, threshold: u32) -> (sink: X11rb)
        ensures
            sink == (X11rb { threshold, ..self }),
    {
        X11rb { threshold, ..self }
    }

    /// The connection after a write that succeeded: no failures in a row.
    pub open spec fn cleared(self) -> X11rb {
        X11rb { failures: 0, ..self }
    }

    /// The connection after a write that failed: one more failure in a row,
    /// as far as the counter goes.
    pub open spec fn counted(self) -> X11rb {
        X11rb {
            failures: if self.failures < u32::MAX {
                (self.failures + 1) as u32
            } else {
                self.failures
            },
            ..self
        }
    }

    /// Whether the failures in a row have reached the number at which to
    /// connect anew.
    pub open spec fn exhausted(self) -> bool {
        self.failures >= self.threshold
    }

    /// The connection that takes the place of this one when `fresh` has been
    /// made: the window and property of `fresh`, no failures, and the
    /// threshold as it was.
    pub open spec fn renewed(self, fresh: X11rb) -> X11rb {
        X11rb { failures: 0, threshold: self.threshold, ..fresh }
    }

    /// Notes that a write succeeded.
    pub fn succeed(&mut self)
        ensures
            *final(self) == old(self).cleared(),
    {
        self.failures = 0;
    }

    /// Notes that a write failed, and says whether it is time to connect
    /// anew.
    pub fn fail(&mut self) -> (reconnect: bool)
        ensures
            *final(self) == old(self).counted(),
            reconnect == old(self).counted().exhausted(),
    {
        self.failures = self.failures.saturating_add(1);
        self.failures >= self.threshold
    }

    /// The request that makes `name` the name of the root window: its bytes
    /// in UTF-8, counted in units of eight bits; or the failure of a name of
    /// more bytes than a `u32` counts.
    pub open spec fn request(self, name: Seq<char>) -> Result<PropertyWriteView, ErrorView> {
        if encode_utf8(name).len() <= u32::MAX {
            Ok(
                PropertyWriteView {
                    window: self.root_window,
                    property: self.name_atom,
                    format: 8,
                    data_len: encode_utf8(name).len() as u32,
                    data: encode_utf8(name),
                },
            )
        } else {
            Err(ErrorView::X11 { message: too_long() })
        }
    }

    /// The request that makes `name` the name of the root window. A name of
    /// more bytes than a `u32` counts cannot be written.
    pub fn set_root_win_name(&self, name: &str) -> (r: Result<PropertyWrite, Error>)
        ensures
            match r {
                Ok(write) => self.request(name@) == Ok::<PropertyWriteView, ErrorView>(write@),
                Err(e) => self.request(name@) == Err::<PropertyWriteView, ErrorView>(e@),
            },
    {
        let data = name.as_bytes_vec();
        if data.len() > u32::MAX as usize {
            return Err(Error::x11("out of range integral type conversion attempted"));
        }
        Ok(
            PropertyWrite {
                window: self.root_window,
                property: self.name_atom,
                format: 8,
                data_len: data.len() as u32,
                data,
            },
        )
    }
}

} // verus!
