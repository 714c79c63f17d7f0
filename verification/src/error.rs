//! What can go wrong between configuration, sources and sink, and how each
//! failure reads in the log.

use crate::text::{decimal, decimal_string};
use vstd::prelude::*;
use vstd::string::StringExecFns;

verus! {

/// A failure of the status bar.
#[derive(Clone, Debug, PartialEq, Eq)]
pub enum Error {
    /// A file could not be opened or read, or a command could not be started.
    Io { path: String, message: String },
    /// What was read does not have the expected form.
    Parse { context: String, message: String },
    /// A command ran and ended with a status other than success.
    CommandFailed { command: String, status: String, stderr: String },
    /// A command, or another source, did not answer within its time limit.
    CommandTimeout { command: String, timeout_secs: u64 },
    /// Bytes that should be text are not UTF-8.
    Utf8Decode { context: String },
    /// A value could not be computed from what was read.
    Calculation { message: String },
    /// The configuration breaks a rule.
    Config { message: String },
    /// The display could not be reached or written to.
    X11 { message: String },
}

/// An [`Error`] as plain values: its kind, and its texts character by character.
pub enum ErrorView {
    Io { path: Seq<char>, message: Seq<char> },
    Parse { context: Seq<char>, message: Seq<char> },
    CommandFailed { command: Seq<char>, status: Seq<char>, stderr: Seq<char> },
    CommandTimeout { command: Seq<char>, timeout_secs: u64 },
    Utf8Decode { context: Seq<char> },
    Calculation { message: Seq<char> },
    Config { message: Seq<char> },
    X11 { message: Seq<char> },
}

impl ErrorView {
    /// The line that describes the failure.
    pub open spec fn text(self) -> Seq<char> {
        match self {
            ErrorView::Io { path, message } => "i/o; '"@ + path + "': "@ + message,
            ErrorView::Parse { context, message } => "parse: "@ + context + ": "@ + message,
            ErrorView::CommandFailed { command, status, stderr } => "`"@ + command
                + "` failed with status "@ + status + ": "@ + stderr,
            ErrorView::CommandTimeout { command, timeout_secs } => "`"@ + command
                + "` timed out after "@ + decimal(timeout_secs as nat) + "s"@,
            ErrorView::Utf8Decode { context } => "utf-8 decode: "@ + context,
            ErrorView::Calculation { message } => "calculation: "@ + message,
            ErrorView::Config { message } => "config: "@ + message,
            ErrorView::X11 { message } => "X11: "@ + message,
        }
    }
}

impl View for Error {
    type V = ErrorView;

    open spec fn view(&self) -> ErrorView {
        match self {
            Error::Io { path, message } => ErrorView::Io { path: path@, message: message@ },
            Error::Parse { context, message } => ErrorView::Parse {
                context: context@,
                message: message@,
            },
            Error::CommandFailed { command, status, stderr } => ErrorView::CommandFailed {
                command: command@,
                status: status@,
                stderr: stderr@,
            },
            Error::CommandTimeout { command, timeout_secs } => ErrorView::CommandTimeout {
                command: command@,
                timeout_secs: *timeout_secs,
            },
            Error::Utf8Decode { context } => ErrorView::Utf8Decode { context: context@ },
            Error::Calculation { message } => ErrorView::Calculation { message: message@ },
            Error::Config { message } => ErrorView::Config { message: message@ },
            Error::X11 { message } => ErrorView::X11 { message: message@ },
        }
    }
}

impl Error {
    /// A file at `path` could not be opened or read; `message` says why.
    pub fn io(path: &str, message: &str) -> (e: Error)
        ensures
            e@ == (ErrorView::Io { path: path@, message: message@ }),
    {
        Error::Io { path: String::from_str(path), message: String::from_str(message) }
    }

    /// What was read in `context` does not have the expected form; `message`
    /// says where it departs from it.
    pub fn parse(context: &str, message: &str) -> (e: Error)
        ensures
            e@ == (ErrorView::Parse { context: context@, message: message@ }),
    {
        Error::Parse { context: String::from_str(context), message: String::from_str(message) }
    }

    /// A value could not be computed; `message` says why.
    pub fn calculation(message: &str) -> (e: Error)
        ensures
            e@ == (ErrorView::Calculation { message: message@ }),
    {
        Error::Calculation { message: String::from_str(message) }
    }

    /// The display could not be reached or written to; `message` says why.
    pub fn x11(message: &str) -> (e: Error)
        ensures
            e@ == (ErrorView::X11 { message: message@ }),
    {
        Error::X11 { message: String::from_str(message) }
    }

    /// The configuration breaks a rule; `message` says which.
    pub fn config(message: &str) -> (e: Error)
        ensures
            e@ == (ErrorView::Config { message: message@ }),
    {
        Error::Config { message: String::from_str(message) }
    }

    /// The line that describes the failure.
    pub fn to_string(&self) -> (s: String)
        ensures
            s@ == self@.text(),
    {
        match self {
            Error::Io { path, message } => {
                let mut s = String::from_str("i/o; '");
                s.append(path.as_str());
                s.append("': ");
                s.append(message.as_str());
                s
            },
            Error::Parse { context, message } => {
                let mut s = String::from_str("parse: ");
                s.append(context.as_str());
                s.append(": ");
                s.append(message.as_str());
                s
            },
            Error::CommandFailed { command, status, stderr } => {
                let mut s = String::from_str("`");
                s.append(command.as_str());
                s.append("` failed with status ");
                s.append(status.as_str());
                s.append(": ");
                s.append(stderr.as_str());
                s
            },
            Error::CommandTimeout { command, timeout_secs } => {
                let mut s = String::from_str("`");
                s.append(command.as_str());
                s.append("` timed out after ");
                let secs = decimal_string(*timeout_secs);
                s.append(secs.as_str());
                s.append("s");
                s
            },
            Error::Utf8Decode { context } => {
                let mut s = String::from_str("utf-8 decode: ");
                s.append(context.as_str());
                s
            },
            Error::Calculation { message } => {
                let mut s = String::from_str("calculation: ");
                s.append(message.as_str());
                s
            },
            Error::Config { message } => {
                let mut s = String::from_str("config: ");
                s.append(message.as_str());
                s
            },
            Error::X11 { message } => {
                let mut s = String::from_str("X11: ");
                s.append(message.as_str());
                s
            },
        }
    }
}

} // verus!
