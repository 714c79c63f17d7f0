//! The sources of the status bar: what each asks of the outside world, and
//! what it makes of the answer.

use crate::error::{Error, ErrorView};
use crate::status::utils::{line_read, outcome, read_line, FileRead};
use vstd::prelude::*;
use vstd::string::StringExecFns;

pub mod command;
pub mod cpu;
pub mod ram;

verus! {

/// Where a status gets its value from.
#[derive(Debug, PartialEq, Eq)]
pub enum Source {
    /// The output of a command.
    Command { cmd: &'static str, args: &'static [&'static str] },
    /// The processor load since the reading before.
    Cpu(cpu::Cpu),
    /// The charge of the battery called `name`, in percent.
    Battery { name: &'static str },
    /// The share of memory in use.
    Ram,
    /// The time in Vienna, written as `format` says.
    DateTime { format: &'static str },
}

/// What a source asks of the outside world before it can give its value.
#[derive(Debug, PartialEq, Eq)]
pub enum Request {
    /// Run `cmd` with `args` and collect what it writes.
    Spawn { cmd: &'static str, args: &'static [&'static str] },
    /// Read the first `lines` lines of the file at `path`.
    Read { path: String, lines: usize },
    /// Read the clock.
    Now,
}

/// What the outside world answered.
#[derive(Debug, Clone, PartialEq, Eq)]
pub enum Reading {
    /// A command was run.
    Ended(command::Ended),
    /// A file was read.
    File(FileRead),
    /// The clock was read: seconds and nanoseconds since the start of 1970, UTC.
    Clock { secs: i64, nanos: u32 },
    /// No answer came within the `secs` seconds that the source was given.
    TimedOut { secs: u64 },
}

/// Whether `secs` and `nanos` give an instant of the calendar: a second
/// between the first and the last that have a date with a year of four
/// digits, and a part of a second.
pub open spec fn in_calendar(secs: i64, nanos: u32) -> bool {
    -62_135_596_800 <= secs <= 253_402_300_799 && nanos < 1_000_000_000
}

/// The text that chrono writes for the instant `secs` seconds and `nanos`
/// nanoseconds after the start of 1970, UTC, as local time in Vienna and in
/// the form that `format` asks for; nothing where chrono has no such instant
/// or cannot read `format`.
pub uninterp spec fn vienna_text(secs: int, nanos: int, format: Seq<char>) -> Option<Seq<char>>;

/// `chrono::DateTime::format`, on the instant that `DateTime::from_timestamp`
/// makes of `secs` and `nanos`, moved to `chrono_tz::Europe::Vienna` by
/// `DateTime::with_timezone`, and written out by `DelayedFormat::write_to`:
/// the same text for the same instant and format, and none where
/// `from_timestamp` gives no instant or `write_to` fails.
#[verifier::external_body]
fn format_in_vienna(secs: i64, nanos: u32, format: &str) -> (text: Option<String>)
    requires
        in_calendar(secs, nanos),
    ensures
        text matches Some(t) ==> vienna_text(secs as int, nanos as int, format@) == Some(t@),
        text is None ==> vienna_text(secs as int, nanos as int, format@) is None,
{
    let utc = chrono::DateTime::from_timestamp(secs, nanos)?;
    let mut text = String::new();
    utc.with_timezone(&chrono_tz::Europe::Vienna).format(format).write_to(&mut text).ok()?;
    Some(text)
}

/// The file that holds the charge of the battery called `name`.
pub open spec fn battery_path(name: Seq<char>) -> Seq<char> {
    "/sys/class/power_supply/"@ + name + "/capacity"@
}

/// What a time source shows, given the text that its format made of the time.
pub open spec fn time_shown(format: Seq<char>, text: Option<Seq<char>>) -> Result<
    Seq<char>,
    ErrorView,
> {
    match text {
        Some(t) => Ok(t),
        None => Err(ErrorView::Parse { context: "datetime format"@, message: format }),
    }
}

/// What a time source shows at the given instant.
pub open spec fn time_read(format: Seq<char>, secs: i64, nanos: u32) -> Result<
    Seq<char>,
    ErrorView,
> {
    if in_calendar(secs, nanos) {
        time_shown(format, vienna_text(secs as int, nanos as int, format))
    } else {
        Err(ErrorView::Calculation { message: "time out of range"@ })
    }
}

/// What a time source with `format` shows, given the text that the format
/// made of the time: that text, or a failure where there is none.
pub fn datetime_output(format: &str, text: Option<String>) -> (r: Result<String, Error>)
    ensures
        outcome(r) == time_shown(
            format@,
            match text {
                Some(t) => Some(t@),
                None => None,
            },
        ),
{
    match text {
        Some(t) => Ok(t),
        None => Err(Error::parse("datetime format", format)),
    }
}

/// What a time source with `format` shows at the instant `secs` seconds and
/// `nanos` nanoseconds after the start of 1970, UTC: the local time in
/// Vienna.
pub fn datetime(format: &str, secs: i64, nanos: u32) -> (r: Result<String, Error>)
    ensures
        outcome(r) == time_read(format@, secs, nanos),
{
    if secs < -62_135_596_800 || secs > 253_402_300_799 || nanos >= 1_000_000_000 {
        return Err(Error::calculation("time out of range"));
    }
    datetime_output(format, format_in_vienna(secs, nanos, format))
}

impl Source {
    /// A source for the processor load that has not read anything yet.
    pub fn cpu() -> (source: Source)
        ensures
            source == Source::Cpu(cpu::Cpu { previous: None }),
    {
        Source::Cpu(cpu::Cpu::new())
    }

    /// The name of the source in the log.
    pub open spec fn label_text(&self) -> Seq<char> {
        match self {
            Source::Command { cmd, .. } => "command `"@ + cmd@ + "`"@,
            Source::Cpu(_) => "cpu"@,
            Source::Battery { name } => "battery `"@ + name@ + "`"@,
            Source::Ram => "ram"@,
            Source::DateTime { format } => "datetime `"@ + format@ + "`"@,
        }
    }

    /// The name of the source in the log.
    pub fn label(&self) -> (label: String)
        ensures
            label@ == self.label_text(),
    {
        match self {
            Source::Command { cmd, .. } => {
                let mut label = String::from_str("command `");
                label.append(cmd);
                label.append("`");
                label
            },
            Source::Cpu(_) => String::from_str("cpu"),
            Source::Battery { name } => {
                let mut label = String::from_str("battery `");
                label.append(name);
                label.append("`");
                label
            },
            Source::Ram => String::from_str("ram"),
            Source::DateTime { format } => {
                let mut label = String::from_str("datetime `");
                label.append(format);
                label.append("`");
                label
            },
        }
    }

    /// Whether `request` is what the source asks of the outside world: a
    /// command to be run, the time source the clock, the others the first
    /// lines of the file that holds what they show.
    pub open spec fn asks(&self, request: Request) -> bool {
        match *self {
            Source::Command { cmd, args } => request == (Request::Spawn { cmd, args }),
            Source::Cpu(_) => request matches Request::Read { path, lines } && path@
                == "/proc/stat"@ && lines == 1,
            Source::Battery { name } => request matches Request::Read { path, lines } && path@
                == battery_path(name@) && lines == 1,
            Source::Ram => request matches Request::Read { path, lines } && path@
                == "/proc/meminfo"@ && lines == 5,
            Source::DateTime { .. } => request == Request::Now,
        }
    }

    /// What the source asks of the outside world.
    pub fn request(&self) -> (request: Request)
        ensures
            self.asks(request),
    {
        match self {
            Source::Command { cmd, args } => Request::Spawn { cmd, args },
            Source::Cpu(_) => Request::Read { path: String::from_str("/proc/stat"), lines: 1 },
            Source::Battery { name } => Request::Read { path: battery_file(name), lines: 1 },
            Source::Ram => Request::Read { path: String::from_str("/proc/meminfo"), lines: 5 },
            Source::DateTime { .. } => Request::Now,
        }
    }

    /// What the report of a missed time limit calls the source: a command by
    /// its name, every other source by its label.
    pub open spec fn subject_text(&self) -> Seq<char> {
        match self {
            Source::Command { cmd, .. } => cmd@,
            _ => self.label_text(),
        }
    }

    /// What the report of a missed time limit calls the source.
    pub fn subject(&self) -> (subject: String)
        ensures
            subject@ == self.subject_text(),
    {
        match self {
            Source::Command { cmd, .. } => String::from_str(cmd),
            _ => self.label(),
        }
    }

    /// The failure of a source that did not answer within `secs` seconds.
    pub open spec fn timed_out(&self, secs: u64) -> ErrorView {
        ErrorView::CommandTimeout { command: self.subject_text(), timeout_secs: secs }
    }

    /// The failure of a source that was given an answer to a question it did
    /// not ask.
    pub open spec fn unexpected(&self) -> ErrorView {
        ErrorView::Parse { context: self.label_text(), message: "unexpected kind of reading"@ }
    }

    /// The source after `reading`, and what it shows for it.
    ///
    /// Each source takes the answer to its own request: a command the end of
    /// its run, the time source the clock, the others the file they asked
    /// for. A source that got no answer in time has failed by missing its
    /// time limit, whatever it is. Only the processor load keeps something
    /// from one reading to the next.
    pub open spec fn answered(self, reading: Reading) -> (Source, Result<Seq<char>, ErrorView>) {
        match (self, reading) {
            (_, Reading::TimedOut { secs }) => (self, Err(self.timed_out(secs))),
            (Source::Command { cmd, .. }, Reading::Ended(ended)) => (
                self,
                command::ran(cmd@, ended),
            ),
            (Source::Cpu(cpu), Reading::File(read)) => match line_read("/proc/stat"@, read) {
                Err(e) => (self, Err(e)),
                Ok(line) => (Source::Cpu(cpu.sampled(line).0), cpu.sampled(line).1),
            },
            (Source::Battery { name }, Reading::File(read)) => (
                self,
                line_read(battery_path(name@), read),
            ),
            (Source::Ram, Reading::File(read)) => (self, ram::measured(read)),
            (Source::DateTime { format }, Reading::Clock { secs, nanos }) => (
                self,
                time_read(format@, secs, nanos),
            ),
            _ => (self, Err(self.unexpected())),
        }
    }

    /// Takes the answer to the source's request and gives what the source
    /// shows for it.
    pub fn output(&mut self, reading: &Reading) -> (r: Result<String, Error>)
        ensures
            (*final(self), outcome(r)) == old(self).answered(*reading),
    {
        match (self, reading) {
            (source, Reading::TimedOut { secs }) => Err(
                Error::CommandTimeout { command: source.subject(), timeout_secs: *secs },
            ),
            (Source::Command { cmd, .. }, Reading::Ended(ended)) => command::run(cmd, ended),
            (Source::Cpu(cpu), Reading::File(read)) => match read_line("/proc/stat", read) {
                Err(e) => Err(e),
                Ok(line) => cpu.cpu_percent(line.as_str()),
            },
            (Source::Battery { name }, Reading::File(read)) => {
                let path = battery_file(name);
                read_line(path.as_str(), read)
            },
            (Source::Ram, Reading::File(read)) => ram::ram_percent(read),
            (Source::DateTime { format }, Reading::Clock { secs, nanos }) => datetime(
                format,
                *secs,
                *nanos,
            ),
            (source, _) => {
                let label = source.label();
                Err(Error::parse(label.as_str(), "unexpected kind of reading"))
            },
        }
    }
}

/// A source that got no answer in time has failed by missing its time limit,
/// and by nothing else: the failure names the source and the limit, and the
/// source is what it was.
pub proof fn lemma_timed_out_is_a_timeout(source: Source, secs: u64)
    ensures
        source.answered(Reading::TimedOut { secs }) == (
            source,
            Err::<Seq<char>, ErrorView>(
                ErrorView::CommandTimeout { command: source.subject_text(), timeout_secs: secs },
            ),
        ),
        source matches Source::Command { cmd, .. } ==> source.subject_text() == cmd@,
        !(source is Command) ==> source.subject_text() == source.label_text(),
{
}

/// The file that holds the charge of the battery called `name`.
fn battery_file(name: &str) -> (path: String)
    ensures
        path@ == battery_path(name@),
{
    let mut path = String::from_str("/sys/class/power_supply/");
    path.append(name);
    path.append("/capacity");
    path
}

} // verus!
