//! The status tasks, their output slots and the bar that joins and publishes
//! them.

use crate::error::ErrorView;
use crate::status::sources::{Reading, Request, Source};
use crate::text::{join, joined, replace, replaced, texts};
use crate::x11::{too_long, PropertyWrite, PropertyWriteView, X11rb};
use vstd::prelude::*;
use vstd::string::StringExecFns;

pub mod sources;
pub mod utils;

verus! {

/// A round of a status task that failed, as the line that goes to the log.
#[derive(Debug, Clone, PartialEq, Eq)]
pub struct Error(pub String);

impl View for Error {
    type V = Seq<char>;

    open spec fn view(&self) -> Seq<char> {
        self.0@
    }
}

/// One entry of the bar: where its value comes from, how it is shown, and how
/// often it is asked for.
#[derive(Debug, PartialEq, Eq)]
pub struct Status {
    pub source: Source,
    /// The template that the value is shown in; empty to show the value as it
    /// is.
    pub format: &'static str,
    /// What stands for the value where the source has none.
    pub default: &'static str,
    /// The seconds from one round to the next.
    pub interval: u64,
    /// The seconds that the source is given to answer, if it is given a limit.
    pub timeout: Option<u64>,
}

/// What stands for the value of a source that failed.
pub open spec fn sentinel() -> Seq<char> {
    "err"@
}

/// What a round of a status task gives as plain values: the status after it,
/// the new text of its slot, and the line for the log if the source failed.
pub struct Round {
    pub status: Status,
    pub slot: Seq<char>,
    pub report: Option<Seq<char>>,
}

impl Status {
    /// Whether the status can be run: rounds that follow each other with no
    /// time between them, and a source that is given no time, cannot.
    pub open spec fn valid(&self) -> bool {
        self.interval > 0 && self.timeout != Some(0u64)
    }

    /// What is wrong with a status that cannot be run.
    pub open spec fn fault(&self) -> ErrorView {
        ErrorView::Config {
            message: if self.interval == 0 {
                "interval of "@ + self.source.label_text() + " is zero"@
            } else {
                "timeout of "@ + self.source.label_text() + " is zero"@
            },
        }
    }

    /// Says what is wrong with the status, if anything is.
    pub fn validate(&self) -> (r: Result<(), crate::error::Error>)
        ensures
            match r {
                Ok(_) => self.valid(),
                Err(e) => !self.valid() && e@ == self.fault(),
            },
    {
        let zero_timeout = match self.timeout {
            Some(t) => t == 0,
            None => false,
        };
        if self.interval == 0 || zero_timeout {
            let mut message = String::from_str(
                if self.interval == 0 {
                    "interval of "
                } else {
                    "timeout of "
                },
            );
            message.append(self.source.label().as_str());
            message.append(" is zero");
            Err(crate::error::Error::config(message.as_str()))
        } else {
            Ok(())
        }
    }

    /// A status of these parts, if it can be run.
    pub fn new(
        source: Source,
        format: &'static str,
        default: &'static str,
        interval: u64,
        timeout: Option<u64>,
    ) -> (r: Result<Status, crate::error::Error>)
        ensures
            match r {
                Ok(status) => status.valid() && status == (Status {
                    source,
                    format,
                    default,
                    interval,
                    timeout,
                }),
                Err(e) => e@ == (Status { source, format, default, interval, timeout }).fault()
                    && !(Status { source, format, default, interval, timeout }).valid(),
            },
    {
        let status = Status { source, format, default, interval, timeout };
        match status.validate() {
            Ok(_) => Ok(status),
            Err(e) => Err(e),
        }
    }

    /// How `value` is shown: in place of every `marker` of the template, or as
    /// it is where the template is empty.
    pub open spec fn shown(&self, marker: Seq<char>, value: Seq<char>) -> Seq<char> {
        if self.format@.len() == 0 {
            value
        } else {
            replaced(self.format@, marker, value)
        }
    }

    /// How `value` is shown: in place of every `marker` of the template, or as
    /// it is where the template is empty.
    pub fn show(&self, marker: &str, value: &str) -> (text: String)
        ensures
            text@ == self.shown(marker@, value@),
    {
        if self.format.is_empty() {
            String::from_str(value)
        } else {
            replace(self.format, marker, value)
        }
    }

    /// One round of the status task: what `reading` makes of the status and
    /// of its slot.
    ///
    /// A source that has a value shows it; one that has none, its text being
    /// empty, shows the default; one that failed shows the sentinel, and the
    /// failure goes to the log under the label of the source. All three are
    /// shown the same way.
    pub open spec fn round(self, reading: Reading, marker: Seq<char>) -> Round {
        let status = Status { source: self.source.answered(reading).0, ..self };
        match self.source.answered(reading).1 {
            Ok(value) => Round {
                status,
                slot: self.shown(
                    marker,
                    if value.len() == 0 {
                        self.default@
                    } else {
                        value
                    },
                ),
                report: None,
            },
            Err(e) => Round {
                status,
                slot: self.shown(marker, sentinel()),
                report: Some(self.source.label_text() + ": "@ + e.text()),
            },
        }
    }

    /// One round of the status task: takes the answer to the request of the
    /// source and gives the new text of the slot, and the line for the log if
    /// the source failed.
    pub fn run(&mut self, reading: &Reading, replace_marker: &str) -> (r: (String, Option<Error>))
        ensures
            old(self).round(*reading, replace_marker@) == (Round {
                status: *final(self),
                slot: r.0@,
                report: match r.1 {
                    Some(e) => Some(e@),
                    None => None,
                },
            }),
    {
        let result = self.source.output(reading);
        match result {
            Ok(value) => {
                let slot = if value.as_str().is_empty() {
                    self.show(replace_marker, self.default)
                } else {
                    self.show(replace_marker, value.as_str())
                };
                (slot, None)
            },
            Err(e) => {
                let mut line = self.source.label();
                line.append(": ");
                line.append(e.to_string().as_str());
                (self.show(replace_marker, "err"), Some(Error(line)))
            },
        }
    }
}

/// Where the process stands between start and end.
#[derive(Debug, Clone, Copy, PartialEq, Eq, Structural)]
pub enum Supervisor {
    /// The tasks run.
    Running,
    /// A reason to stop has come; the tasks are given up.
    ShuttingDown,
    /// The process is over.
    Terminated,
}

/// A reason to stop.
#[derive(Debug, Clone, Copy, PartialEq, Eq, Structural)]
pub enum Stop {
    /// A task that should run for ever has ended.
    TaskExited,
    /// The interrupt signal has come.
    Interrupt,
    /// The terminate signal has come.
    Terminate,
}

impl Stop {
    /// The line that the log gets for this reason.
    pub open spec fn text(self) -> Seq<char> {
        match self {
            Stop::TaskExited => "status bar exited unexpectedly"@,
            Stop::Interrupt => "received SIGINT (Ctrl+C), shutting down gracefully"@,
            Stop::Terminate => "received SIGTERM, shutting down gracefully"@,
        }
    }

    /// The line that the log gets for this reason.
    pub fn message(self) -> (line: &'static str)
        ensures
            line@ == self.text(),
    {
        match self {
            Stop::TaskExited => "status bar exited unexpectedly",
            Stop::Interrupt => "received SIGINT (Ctrl+C), shutting down gracefully",
            Stop::Terminate => "received SIGTERM, shutting down gracefully",
        }
    }
}

/// Where the writer stands within one of its rounds.
#[derive(Debug, Clone, Copy, PartialEq, Eq, Structural)]
pub enum Phase {
    /// Between two rounds.
    Idle,
    /// The joined text has been handed out to be written.
    Publishing,
    /// Writing has failed too often; a new connection has been asked for.
    Reconnecting,
    /// The joined text has been handed out once more, for the new connection.
    Retrying,
}

/// What happened outside the bar.
#[derive(Debug, Clone, PartialEq, Eq)]
pub enum Event {
    /// The source of the status at `index` got the answer to its request.
    Reading { index: usize, reading: Reading },
    /// The interval of the writer has passed.
    Tick,
    /// The text handed out was written.
    Published,
    /// The text handed out could not be written; the text here says why.
    PublishFailed(String),
    /// The new connection asked for stands.
    Reconnected(X11rb),
    /// The new connection asked for could not be made; the text says why.
    ReconnectFailed(String),
    /// A reason to stop has come.
    Stop(Stop),
    /// The tasks have been given up.
    Abandoned,
}

/// What the bar wants done outside.
#[derive(Debug, Clone, PartialEq, Eq)]
pub enum Action {
    /// Nothing, until the next event.
    Wait,
    /// Send this request to the sink, and say how it went.
    Publish(PropertyWrite),
    /// Make a new connection to the sink, and say how it went.
    Reconnect,
    /// Give up the tasks, and say so.
    Exit,
}

/// What a step of the bar hands out.
#[derive(Debug, Clone, PartialEq, Eq)]
pub struct Step {
    /// What is to be done next.
    pub action: Action,
    /// The line for standard output, if there is one.
    pub stdout: Option<String>,
    /// The line for the log, if there is one.
    pub log: Option<String>,
}

/// An [`Action`] as plain values.
pub enum ActionView {
    Wait,
    Publish(PropertyWriteView),
    Reconnect,
    Exit,
}

/// A [`Step`] as plain values.
pub struct StepView {
    pub action: ActionView,
    pub stdout: Option<Seq<char>>,
    pub log: Option<Seq<char>>,
}

impl View for Action {
    type V = ActionView;

    open spec fn view(&self) -> ActionView {
        match self {
            Action::Wait => ActionView::Wait,
            Action::Publish(write) => ActionView::Publish(write@),
            Action::Reconnect => ActionView::Reconnect,
            Action::Exit => ActionView::Exit,
        }
    }
}

impl View for Step {
    type V = StepView;

    open spec fn view(&self) -> StepView {
        StepView {
            action: self.action@,
            stdout: match self.stdout {
                Some(line) => Some(line@),
                None => None,
            },
            log: match self.log {
                Some(line) => Some(line@),
                None => None,
            },
        }
    }
}

/// The step that hands out nothing.
pub open spec fn nothing() -> StepView {
    StepView { action: ActionView::Wait, stdout: None, log: None }
}

/// A [`Bar`] as plain values.
pub struct BarView {
    /// The entries of the bar, in the order in which they are shown.
    pub statuses: Seq<Status>,
    /// The text that each entry shows at present.
    pub slots: Seq<Seq<char>>,
    /// The connection to the sink.
    pub sink: X11rb,
    /// What stands in a template where the value goes.
    pub replace_marker: Seq<char>,
    /// What stands between two entries.
    pub separator: Seq<char>,
    /// The milliseconds from one round of the writer to the next.
    pub write_interval: u64,
    /// Whether each round of the writer gives a line to standard output.
    pub stdout: bool,
    /// Whether a text is kept back that is the one written last.
    pub change_only: bool,
    /// The text that was written last; empty before the first.
    pub last_push: Seq<char>,
    /// The text that has been handed out to be written.
    pub pending: Seq<char>,
    pub phase: Phase,
    pub supervisor: Supervisor,
}

impl BarView {
    /// The bar after the source of the status at `index` got `reading`: that
    /// status has made its round and its slot holds the new text. Nothing else
    /// has changed, and an index that no status with a slot has changes
    /// nothing.
    pub open spec fn read(self, index: usize, reading: Reading) -> (BarView, StepView) {
        if index < self.statuses.len() && index < self.slots.len() {
            let round = self.statuses[index as int].round(reading, self.replace_marker);
            (
                BarView {
                    statuses: self.statuses.update(index as int, round.status),
                    slots: self.slots.update(index as int, round.slot),
                    ..self
                },
                StepView { action: ActionView::Wait, stdout: None, log: round.report },
            )
        } else {
            (self, nothing())
        }
    }

    /// The text of all slots, joined.
    pub open spec fn text(self) -> Seq<char> {
        joined(self.slots, self.separator)
    }

    /// The bar after `text` was due to be written, at the first attempt of a
    /// round or after a new connection: the request for it is handed out; a
    /// text that no request can hold counts as a write that failed.
    pub open spec fn written(self, text: Seq<char>, phase: Phase) -> (BarView, StepView) {
        let started = BarView { phase, pending: text, ..self };
        match self.sink.request(text) {
            Ok(write) => (
                started,
                StepView { action: ActionView::Publish(write), stdout: None, log: None },
            ),
            Err(_) => started.publish_failed(too_long()),
        }
    }

    /// The bar after the interval of the writer has passed. Between two
    /// rounds, the slots are joined; the joined text goes to standard output
    /// if that is wanted, and is due to be written unless it is kept back as
    /// the one written last.
    pub open spec fn ticked(self) -> (BarView, StepView) {
        if self.phase != Phase::Idle {
            (self, nothing())
        } else {
            let stdout = if self.stdout {
                Some(self.text())
            } else {
                None
            };
            if self.change_only && self.text() == self.last_push {
                (self, StepView { action: ActionView::Wait, stdout, log: None })
            } else {
                let (bar, step) = self.written(self.text(), Phase::Publishing);
                (bar, StepView { stdout, ..step })
            }
        }
    }

    /// The bar after the text handed out was written: that text is the one
    /// written last, no failure is counted any more, and the round is over.
    pub open spec fn published(self) -> (BarView, StepView) {
        if self.phase == Phase::Publishing || self.phase == Phase::Retrying {
            (
                BarView {
                    phase: Phase::Idle,
                    last_push: self.pending,
                    sink: self.sink.cleared(),
                    ..self
                },
                nothing(),
            )
        } else {
            (self, nothing())
        }
    }

    /// The line that the log gets for a text that could not be written.
    pub open spec fn write_failure(why: Seq<char>) -> Seq<char> {
        "error writing root window name: "@ + why
    }

    /// The line that the log gets for a connection that could not be made.
    pub open spec fn connect_failure(why: Seq<char>) -> Seq<char> {
        "error connecting to the display: "@ + why
    }

    /// The bar after the text handed out could not be written. The failure is
    /// counted and logged. At the first attempt of a round, a count that has
    /// reached the threshold asks for a new connection; in every other case
    /// the round is over.
    pub open spec fn publish_failed(self, why: Seq<char>) -> (BarView, StepView) {
        if self.phase == Phase::Publishing && self.sink.counted().exhausted() {
            (
                BarView { phase: Phase::Reconnecting, sink: self.sink.counted(), ..self },
                StepView {
                    action: ActionView::Reconnect,
                    stdout: None,
                    log: Some(Self::write_failure(why)),
                },
            )
        } else if self.phase == Phase::Publishing || self.phase == Phase::Retrying {
            (
                BarView { phase: Phase::Idle, sink: self.sink.counted(), ..self },
                StepView {
                    action: ActionView::Wait,
                    stdout: None,
                    log: Some(Self::write_failure(why)),
                },
            )
        } else {
            (self, nothing())
        }
    }

    /// The bar after the new connection asked for stands: it takes the place
    /// of the old one, and the text is due to be written once more.
    pub open spec fn reconnected(self, fresh: X11rb) -> (BarView, StepView) {
        if self.phase == Phase::Reconnecting {
            (BarView { sink: self.sink.renewed(fresh), ..self }).written(
                self.pending,
                Phase::Retrying,
            )
        } else {
            (self, nothing())
        }
    }

    /// The bar after the new connection asked for could not be made: the
    /// failure is logged and the round is over.
    pub open spec fn reconnect_failed(self, why: Seq<char>) -> (BarView, StepView) {
        if self.phase == Phase::Reconnecting {
            (
                BarView { phase: Phase::Idle, ..self },
                StepView {
                    action: ActionView::Wait,
                    stdout: None,
                    log: Some(Self::connect_failure(why)),
                },
            )
        } else {
            (self, nothing())
        }
    }

    /// The bar after `event`, and what it hands out.
    ///
    /// While the process runs, each event is taken as its kind says, and the
    /// first reason to stop is logged and ends the running. After that
    /// nothing is handed out any more: the tasks are given up, and once that
    /// is said the process is over.
    pub open spec fn next(self, event: Event) -> (BarView, StepView) {
        match self.supervisor {
            Supervisor::Running => match event {
                Event::Reading { index, reading } => self.read(index, reading),
                Event::Tick => self.ticked(),
                Event::Published => self.published(),
                Event::PublishFailed(why) => self.publish_failed(why@),
                Event::Reconnected(fresh) => self.reconnected(fresh),
                Event::ReconnectFailed(why) => self.reconnect_failed(why@),
                Event::Stop(cause) => (
                    BarView { supervisor: Supervisor::ShuttingDown, ..self },
                    StepView { action: ActionView::Exit, stdout: None, log: Some(cause.text()) },
                ),
                Event::Abandoned => (self, nothing()),
            },
            Supervisor::ShuttingDown => match event {
                Event::Abandoned => (
                    BarView { supervisor: Supervisor::Terminated, ..self },
                    nothing(),
                ),
                _ => (self, nothing()),
            },
            Supervisor::Terminated => (self, nothing()),
        }
    }
}

/// The text that each of `statuses` shows before its first round: its
/// default, shown as its template says.
pub open spec fn initial_slots(statuses: Seq<Status>, marker: Seq<char>) -> Seq<Seq<char>> {
    Seq::new(statuses.len(), |i: int| statuses[i].shown(marker, statuses[i].default@))
}

impl BarView {
    /// Whether the bar can be run: every status can, each has its slot, and
    /// the rounds of the writer have time between them.
    pub open spec fn wf(self) -> bool {
        &&& self.slots.len() == self.statuses.len()
        &&& self.write_interval > 0
        &&& forall|i: int| 0 <= i < self.statuses.len() ==> (#[trigger] self.statuses[i]).valid()
    }

    /// The bar of `statuses` and `sink` before anything was set or has
    /// happened: no marker and no separator, two rounds of the writer a
    /// second, nothing for standard output, a text that was written last kept
    /// back.
    pub open spec fn initial(statuses: Seq<Status>, sink: X11rb) -> BarView {
        BarView {
            statuses,
            slots: initial_slots(statuses, Seq::empty()),
            sink,
            replace_marker: Seq::empty(),
            separator: Seq::empty(),
            write_interval: 500,
            stdout: false,
            change_only: true,
            last_push: Seq::empty(),
            pending: Seq::empty(),
            phase: Phase::Idle,
            supervisor: Supervisor::Running,
        }
    }
}

/// The status bar: its entries with their slots, the settings of the writer,
/// the connection to the sink, and where the writer and the process stand.
#[derive(Debug)]
pub struct Bar {
    statuses: Vec<Status>,
    slots: Vec<String>,
    x11rb: X11rb,
    replace_marker: String,
    separator: String,
    write_interval: u64,
    stdout: bool,
    change_only: bool,
    last_push: String,
    pending: String,
    phase: Phase,
    supervisor: Supervisor,
}

impl View for Bar {
    type V = BarView;

    closed spec fn view(&self) -> BarView {
        BarView {
            statuses: self.statuses@,
            slots: texts(self.slots@),
            sink: self.x11rb,
            replace_marker: self.replace_marker@,
            separator: self.separator@,
            write_interval: self.write_interval,
            stdout: self.stdout,
            change_only: self.change_only,
            last_push: self.last_push@,
            pending: self.pending@,
            phase: self.phase,
            supervisor: self.supervisor,
        }
    }
}

/// The text that each of `statuses` shows before its first round.
fn fill_slots(statuses: &Vec<Status>, marker: &str) -> (slots: Vec<String>)
    ensures
        texts(slots@) == initial_slots(statuses@, marker@),
{
    let mut slots: Vec<String> = Vec::new();
    let mut i: usize = 0;
    while i < statuses.len()
        invariant
            i <= statuses.len(),
            slots.len() == i,
            forall|j: int| 0 <= j < i ==> (#[trigger] slots@[j])@ == statuses@[j].shown(
                marker@,
                statuses@[j].default@,
            ),
        decreases statuses.len() - i,
    {
        let slot = statuses[i].show(marker, statuses[i].default);
        slots.push(slot);
        i = i + 1;
    }
    proof {
        assert(texts(slots@) =~= initial_slots(statuses@, marker@));
    }
    slots
}

impl Bar {
    /// The bar of `statuses`, which writes to `x11rb`, if every status can be
    /// run; else what is wrong with the first that cannot.
    pub fn new(statuses: Vec<Status>, x11rb: X11rb) -> (r: Result<Bar, crate::error::Error>)
        ensures
            match r {
                Ok(bar) => bar@ == BarView::initial(statuses@, x11rb) && bar@.wf(),
                Err(e) => exists|i: int|
                    {
                        &&& 0 <= i < statuses@.len()
                        &&& !(#[trigger] statuses@[i]).valid()
                        &&& forall|j: int| 0 <= j < i ==> (#[trigger] statuses@[j]).valid()
                        &&& e@ == statuses@[i].fault()
                    },
            },
    {
        let mut i: usize = 0;
        while i < statuses.len()
            invariant
                i <= statuses.len(),
                forall|j: int| 0 <= j < i ==> (#[trigger] statuses@[j]).valid(),
            decreases statuses.len() - i,
        {
            match statuses[i].validate() {
                Ok(_) => {},
                Err(e) => {
                    return Err(e);
                },
            }
            i = i + 1;
        }
        let slots = fill_slots(&statuses, "");
        proof {
            reveal_strlit("");
            assert(""@ =~= Seq::<char>::empty());
        }
        Ok(
            Bar {
                statuses,
                slots,
                x11rb,
                replace_marker: String::new(),
                separator: String::new(),
                write_interval: 500,
                stdout: false,
                change_only: true,
                last_push: String::new(),
                pending: String::new(),
                phase: Phase::Idle,
                supervisor: Supervisor::Running,
            },
        )
    }

    /// The same bar with `marker` standing in the templates where the value
    /// goes; every slot shows its default anew.
    pub fn with_replace_marker(self, marker: &str) -> (bar: Bar)
        ensures
            bar@ == (BarView {
                replace_marker: marker@,
                slots: initial_slots(self@.statuses, marker@),
                ..self@
            }),
            self@.wf() ==> bar@.wf(),
    {
        let mut bar = self;
        let slots = fill_slots(&bar.statuses, marker);
        bar.slots = slots;
        bar.replace_marker = String::from_str(marker);
        bar
    }

    /// The same bar with `separator` between its entries.
    pub fn with_separator(self, separator: &str) -> (bar: Bar)
        ensures
            bar@ == (BarView { separator: separator@, ..self@ }),
            self@.wf() ==> bar@.wf(),
    {
        let mut bar = self;
        bar.separator = String::from_str(separator);
        bar
    }

    /// The same bar with `write_interval` milliseconds from one round of the
    /// writer to the next, which must be some.
    pub fn with_write_interval(self, write_interval: u64) -> (r: Result<Bar, crate::error::Error>)
        ensures
            match r {
                Ok(bar) => write_interval > 0 && bar@ == (BarView { write_interval, ..self@ }) && (
                self@.wf() ==> bar@.wf()),
                Err(e) => write_interval == 0 && e@ == (ErrorView::Config {
                    message: "write interval is zero"@,
                }),
            },
    {
        if write_interval == 0 {
            return Err(crate::error::Error::config("write interval is zero"));
        }
        let mut bar = self;
        bar.write_interval = write_interval;
        Ok(bar)
    }

    /// The same bar, giving each joined text to standard output or not.
    pub fn with_stdout(self, stdout: bool) -> (bar: Bar)
        ensures
            bar@ == (BarView { stdout, ..self@ }),
            self@.wf() ==> bar@.wf(),
    {
        let mut bar = self;
        bar.stdout = stdout;
        bar
    }

    /// The same bar, keeping back a text that is the one written last, or
    /// writing every text.
    pub fn with_change_only(self, change_only: bool) -> (bar: Bar)
        ensures
            bar@ == (BarView { change_only, ..self@ }),
            self@.wf() ==> bar@.wf(),
    {
        let mut bar = self;
        bar.change_only = change_only;
        bar
    }
}

impl Bar {
    fn read(&mut self, index: usize, reading: &Reading) -> (step: Step)
        ensures
            (final(self)@, step@) == old(self)@.read(index, *reading),
    {
        if index < self.statuses.len() && index < self.slots.len() {
            let ghost before = texts(self.slots@);
            let (slot, report) = self.statuses[index].run(reading, self.replace_marker.as_str());
            proof {
                assert(texts(self.slots@.update(index as int, slot)) =~= before.update(
                    index as int,
                    slot@,
                ));
            }
            self.slots[index] = slot;
            Step {
                action: Action::Wait,
                stdout: None,
                log: match report {
                    Some(e) => Some(e.0),
                    None => None,
                },
            }
        } else {
            Step { action: Action::Wait, stdout: None, log: None }
        }
    }

    fn write(&mut self, text: String, phase: Phase) -> (step: Step)
        requires
            phase == Phase::Publishing || phase == Phase::Retrying,
        ensures
            (final(self)@, step@) == old(self)@.written(text@, phase),
    {
        self.phase = phase;
        self.pending = text;
        match self.x11rb.set_root_win_name(self.pending.as_str()) {
            Ok(write) => Step { action: Action::Publish(write), stdout: None, log: None },
            Err(_) => self.publish_failed("out of range integral type conversion attempted"),
        }
    }

    fn tick(&mut self) -> (step: Step)
        ensures
            (final(self)@, step@) == old(self)@.ticked(),
    {
        match self.phase {
            Phase::Idle => {},
            _ => {
                return Step { action: Action::Wait, stdout: None, log: None };
            },
        }
        let text = join(&self.slots, self.separator.as_str());
        let stdout = if self.stdout {
            Some(text.clone())
        } else {
            None
        };
        if self.change_only && text == self.last_push {
            Step { action: Action::Wait, stdout, log: None }
        } else {
            let step = self.write(text, Phase::Publishing);
            Step { action: step.action, stdout, log: step.log }
        }
    }

    fn publish_done(&mut self) -> (step: Step)
        ensures
            (final(self)@, step@) == old(self)@.published(),
    {
        match self.phase {
            Phase::Publishing | Phase::Retrying => {
                self.phase = Phase::Idle;
                self.last_push = self.pending.clone();
                self.x11rb.succeed();
            },
            _ => {},
        }
        Step { action: Action::Wait, stdout: None, log: None }
    }

    fn publish_failed(&mut self, why: &str) -> (step: Step)
        ensures
            (final(self)@, step@) == old(self)@.publish_failed(why@),
    {
        match self.phase {
            Phase::Publishing | Phase::Retrying => {
                let mut line = String::from_str("error writing root window name: ");
                line.append(why);
                let first = match self.phase {
                    Phase::Publishing => true,
                    _ => false,
                };
                let exhausted = self.x11rb.fail();
                if first && exhausted {
                    self.phase = Phase::Reconnecting;
                    Step { action: Action::Reconnect, stdout: None, log: Some(line) }
                } else {
                    self.phase = Phase::Idle;
                    Step { action: Action::Wait, stdout: None, log: Some(line) }
                }
            },
            _ => Step { action: Action::Wait, stdout: None, log: None },
        }
    }

    fn reconnect_done(&mut self, fresh: X11rb) -> (step: Step)
        ensures
            (final(self)@, step@) == old(self)@.reconnected(fresh),
    {
        match self.phase {
            Phase::Reconnecting => {
                self.x11rb = X11rb { failures: 0, threshold: self.x11rb.threshold, ..fresh };
                let text = self.pending.clone();
                self.write(text, Phase::Retrying)
            },
            _ => Step { action: Action::Wait, stdout: None, log: None },
        }
    }

    fn reconnect_failed(&mut self, why: &str) -> (step: Step)
        ensures
            (final(self)@, step@) == old(self)@.reconnect_failed(why@),
    {
        match self.phase {
            Phase::Reconnecting => {
                let mut line = String::from_str("error connecting to the display: ");
                line.append(why);
                self.phase = Phase::Idle;
                Step { action: Action::Wait, stdout: None, log: Some(line) }
            },
            _ => Step { action: Action::Wait, stdout: None, log: None },
        }
    }

    /// One step of the bar: takes what happened outside, and hands out what
    /// is to be done about it, with the lines for standard output and for the
    /// log.
    pub fn run(&mut self, event: Event) -> (step: Step)
        ensures
            (final(self)@, step@) == old(self)@.next(event),
            old(self)@.wf() ==> final(self)@.wf(),
    {
        proof {
            if self@.wf() {
                lemma_next_keeps_settings(self@, event);
            }
        }
        let step = match self.supervisor {
            Supervisor::Running => match event {
                Event::Reading { index, reading } => self.read(index, &reading),
                Event::Tick => self.tick(),
                Event::Published => self.publish_done(),
                Event::PublishFailed(why) => self.publish_failed(why.as_str()),
                Event::Reconnected(fresh) => self.reconnect_done(fresh),
                Event::ReconnectFailed(why) => self.reconnect_failed(why.as_str()),
                Event::Stop(cause) => {
                    self.supervisor = Supervisor::ShuttingDown;
                    Step {
                        action: Action::Exit,
                        stdout: None,
                        log: Some(String::from_str(cause.message())),
                    }
                },
                Event::Abandoned => Step { action: Action::Wait, stdout: None, log: None },
            },
            Supervisor::ShuttingDown => {
                match event {
                    Event::Abandoned => {
                        self.supervisor = Supervisor::Terminated;
                    },
                    _ => {},
                }
                Step { action: Action::Wait, stdout: None, log: None }
            },
            Supervisor::Terminated => Step { action: Action::Wait, stdout: None, log: None },
        };
        step
    }
}

impl Bar {
    /// The entries of the bar, in the order in which they are shown.
    pub fn statuses(&self) -> (statuses: &Vec<Status>)
        ensures
            statuses@ == self@.statuses,
    {
        &self.statuses
    }

    /// The text that each entry shows at present.
    pub fn slots(&self) -> (slots: &Vec<String>)
        ensures
            texts(slots@) == self@.slots,
    {
        &self.slots
    }

    /// The connection to the sink.
    pub fn x11rb(&self) -> (sink: X11rb)
        ensures
            sink == self@.sink,
    {
        self.x11rb
    }

    /// What stands in a template where the value goes.
    pub fn replace_marker(&self) -> (marker: &str)
        ensures
            marker@ == self@.replace_marker,
    {
        self.replace_marker.as_str()
    }

    /// What stands between two entries.
    pub fn separator(&self) -> (separator: &str)
        ensures
            separator@ == self@.separator,
    {
        self.separator.as_str()
    }

    /// The milliseconds from one round of the writer to the next.
    pub fn write_interval(&self) -> (millis: u64)
        ensures
            millis == self@.write_interval,
    {
        self.write_interval
    }

    /// Whether each round of the writer gives a line to standard output.
    pub fn stdout(&self) -> (stdout: bool)
        ensures
            stdout == self@.stdout,
    {
        self.stdout
    }

    /// Whether a text is kept back that is the one written last.
    pub fn change_only(&self) -> (change_only: bool)
        ensures
            change_only == self@.change_only,
    {
        self.change_only
    }

    /// The text that was written last; empty before the first.
    pub fn last_push(&self) -> (text: &str)
        ensures
            text@ == self@.last_push,
    {
        self.last_push.as_str()
    }

    /// Where the writer stands within its round.
    pub fn phase(&self) -> (phase: Phase)
        ensures
            phase == self@.phase,
    {
        self.phase
    }

    /// Where the process stands between start and end.
    pub fn supervisor(&self) -> (supervisor: Supervisor)
        ensures
            supervisor == self@.supervisor,
    {
        self.supervisor
    }

    /// What the source of the status at `index` asks of the outside world, if
    /// there is such a status.
    pub fn request(&self, index: usize) -> (request: Option<Request>)
        ensures
            request is Some <==> index < self@.statuses.len(),
            request matches Some(asked) ==> self@.statuses[index as int].source.asks(asked),
    {
        if index < self.statuses.len() {
            Some(self.statuses[index].source.request())
        } else {
            None
        }
    }
}

/// A value put into a template that is not empty gives a text that is not
/// empty, if the value is not.
pub proof fn lemma_replaced_not_empty(template: Seq<char>, marker: Seq<char>, value: Seq<char>)
    requires
        template.len() > 0,
        value.len() > 0,
    ensures
        replaced(template, marker, value).len() > 0,
{
}

/// A source that has no value shows the default of its status, the way the
/// status shows any value, and nothing goes to the log. Where the default is
/// not empty, neither is what is shown.
pub proof fn lemma_no_value_shows_default(status: Status, reading: Reading, marker: Seq<char>)
    requires
        status.source.answered(reading).1 == Ok::<Seq<char>, ErrorView>(Seq::empty()),
    ensures
        status.round(reading, marker).slot == status.shown(marker, status.default@),
        status.round(reading, marker).report is None,
        status.default@.len() > 0 ==> status.round(reading, marker).slot.len() > 0,
{
    if status.default@.len() > 0 && status.format@.len() > 0 {
        lemma_replaced_not_empty(status.format@, marker, status.default@);
    }
}

/// A source that has a value shows it the way its status says, and nothing
/// goes to the log.
pub proof fn lemma_value_is_shown(status: Status, reading: Reading, marker: Seq<char>)
    requires
        status.source.answered(reading).1 is Ok,
        status.source.answered(reading).1->Ok_0.len() > 0,
    ensures
        status.round(reading, marker).slot == status.shown(
            marker,
            status.source.answered(reading).1->Ok_0,
        ),
        status.round(reading, marker).report is None,
{
}

/// A source that failed shows the sentinel, the way the status shows any
/// value, and the log gets a line that begins with the label of the source
/// and goes on with the failure.
pub proof fn lemma_failure_shows_sentinel(status: Status, reading: Reading, marker: Seq<char>)
    requires
        status.source.answered(reading).1 is Err,
    ensures
        status.round(reading, marker).slot == status.shown(marker, sentinel()),
        status.round(reading, marker).report == Some(
            status.source.label_text() + ": "@ + status.source.answered(reading).1->Err_0.text(),
        ),
        status.source.label_text().is_prefix_of(status.round(reading, marker).report->Some_0),
{
    let line = status.round(reading, marker).report->Some_0;
    let label = status.source.label_text();
    assert(line.subrange(0, label.len() as int) =~= label);
}

/// A status whose source misses its time limit shows the sentinel, and the
/// log gets the failure that names the limit; what the source keeps from
/// earlier rounds stays as it is.
pub proof fn lemma_time_limit_missed(status: Status, secs: u64, marker: Seq<char>)
    ensures
        status.round(Reading::TimedOut { secs }, marker).status == status,
        status.round(Reading::TimedOut { secs }, marker).slot == status.shown(marker, sentinel()),
        status.round(Reading::TimedOut { secs }, marker).report == Some(
            status.source.label_text() + ": "@ + status.source.timed_out(secs).text(),
        ),
{
}

/// A round leaves the settings of a status as they are; only its source may
/// have taken something in.
pub proof fn lemma_round_keeps_settings(status: Status, reading: Reading, marker: Seq<char>)
    ensures
        status.round(reading, marker).status.format == status.format,
        status.round(reading, marker).status.default == status.default,
        status.round(reading, marker).status.interval == status.interval,
        status.round(reading, marker).status.timeout == status.timeout,
        status.round(reading, marker).status.source.label_text() == status.source.label_text(),
        status.valid() ==> status.round(reading, marker).status.valid(),
{
}

/// A bar that can be run can still be run after any event, and its settings
/// are what they were.
pub proof fn lemma_next_keeps_settings(bar: BarView, event: Event)
    requires
        bar.wf(),
    ensures
        bar.next(event).0.wf(),
        bar.next(event).0.statuses.len() == bar.statuses.len(),
        bar.next(event).0.replace_marker == bar.replace_marker,
        bar.next(event).0.separator == bar.separator,
        bar.next(event).0.write_interval == bar.write_interval,
        bar.next(event).0.stdout == bar.stdout,
        bar.next(event).0.change_only == bar.change_only,
        bar.next(event).0.sink.threshold == bar.sink.threshold,
{
    match event {
        Event::Reading { index, reading } => {
            if bar.supervisor == Supervisor::Running && index < bar.statuses.len() {
                lemma_round_keeps_settings(
                    bar.statuses[index as int],
                    reading,
                    bar.replace_marker,
                );
            }
        },
        _ => {},
    }
}

/// Each slot has one writer: no event changes a slot but the reading of its
/// own status. The writer of the bar reads the slots and changes none.
pub proof fn lemma_one_writer_per_slot(bar: BarView, event: Event, i: int)
    requires
        0 <= i < bar.slots.len(),
        !(event matches Event::Reading { index, .. } && index == i),
    ensures
        bar.next(event).0.slots.len() == bar.slots.len(),
        bar.next(event).0.slots[i] == bar.slots[i],
{
}

/// The reading of a status changes nothing but that status and its slot: the
/// writer and the sink stand where they stood, and nothing is handed out but
/// a line for the log.
pub proof fn lemma_reading_stays_local(bar: BarView, index: usize, reading: Reading)
    ensures
        bar.next(Event::Reading { index, reading }).0.phase == bar.phase,
        bar.next(Event::Reading { index, reading }).0.sink == bar.sink,
        bar.next(Event::Reading { index, reading }).0.last_push == bar.last_push,
        bar.next(Event::Reading { index, reading }).0.pending == bar.pending,
        bar.next(Event::Reading { index, reading }).0.supervisor == bar.supervisor,
        bar.next(Event::Reading { index, reading }).1.action == ActionView::Wait,
        bar.next(Event::Reading { index, reading }).1.stdout is None,
{
}

/// What the writer hands out at its interval is the text of the slots in
/// their order, joined by the separator, and nothing else.
pub proof fn lemma_tick_joins_slots(bar: BarView)
    requires
        bar.supervisor == Supervisor::Running,
        bar.phase == Phase::Idle,
    ensures
        bar.stdout ==> bar.next(Event::Tick).1.stdout == Some(joined(bar.slots, bar.separator)),
        !bar.stdout ==> bar.next(Event::Tick).1.stdout is None,
        bar.next(Event::Tick).1.action matches ActionView::Publish(write) ==> bar.sink.request(
            joined(bar.slots, bar.separator),
        ) == Ok::<PropertyWriteView, ErrorView>(write),
        !bar.change_only && bar.sink.request(bar.text()) is Ok ==> bar.next(
            Event::Tick,
        ).1.action == ActionView::Publish(bar.sink.request(bar.text())->Ok_0),
{
}

/// With texts kept back that were written last, a joined text that stays the
/// same over two rounds of the writer is handed out once: in the first round
/// if it is new, and not again once it was written.
pub proof fn lemma_same_text_written_once(bar: BarView)
    requires
        bar.supervisor == Supervisor::Running,
        bar.phase == Phase::Idle,
        bar.change_only,
    ensures
        bar.text() == bar.last_push ==> bar.next(Event::Tick).1.action == ActionView::Wait,
        bar.text() != bar.last_push && bar.sink.request(bar.text()) is Ok ==> ({
            let first = bar.next(Event::Tick);
            let written = first.0.next(Event::Published);
            let second = written.0.next(Event::Tick);
            &&& first.1.action == ActionView::Publish(bar.sink.request(bar.text())->Ok_0)
            &&& written.1.action == ActionView::Wait
            &&& written.0.last_push == bar.text()
            &&& written.0.slots == bar.slots
            &&& second.1.action == ActionView::Wait
            &&& second.0 == written.0
        }),
{
}

/// A joined text that no request can hold counts as a write that failed: the
/// failure is counted and logged, the text is not taken for written, and a
/// new connection is asked for if the count has reached the threshold.
pub proof fn lemma_unwritable_text_fails(bar: BarView)
    requires
        bar.supervisor == Supervisor::Running,
        bar.phase == Phase::Idle,
        !(bar.change_only && bar.text() == bar.last_push),
        bar.sink.request(bar.text()) is Err,
    ensures
        bar.next(Event::Tick).0.sink == bar.sink.counted(),
        bar.next(Event::Tick).0.last_push == bar.last_push,
        bar.next(Event::Tick).1.log == Some(BarView::write_failure(too_long())),
        bar.next(Event::Tick).1.action == if bar.sink.counted().exhausted() {
            ActionView::Reconnect
        } else {
            ActionView::Wait
        },
{
}

/// A text that could not be written is not taken for written: the text
/// written last is what it was.
pub proof fn lemma_failure_keeps_last_text(bar: BarView, why: String)
    ensures
        bar.next(Event::PublishFailed(why)).0.last_push == bar.last_push,
        bar.next(Event::ReconnectFailed(why)).0.last_push == bar.last_push,
{
}

/// Below the threshold a failed write is counted and logged, and the round is
/// over.
pub proof fn lemma_failure_below_threshold(bar: BarView, why: String)
    requires
        bar.supervisor == Supervisor::Running,
        bar.phase == Phase::Publishing,
        !bar.sink.counted().exhausted(),
    ensures
        bar.next(Event::PublishFailed(why)).0.sink == bar.sink.counted(),
        bar.next(Event::PublishFailed(why)).0.phase == Phase::Idle,
        bar.next(Event::PublishFailed(why)).1.action == ActionView::Wait,
        bar.next(Event::PublishFailed(why)).1.log == Some(BarView::write_failure(why@)),
{
}

/// When the failed writes in a row reach the threshold, one new connection is
/// asked for. Once it stands the text is handed out once more. If that write
/// succeeds the text is the one written last and no failure is counted any
/// more; if it fails the round is over without another connection.
pub proof fn lemma_one_reconnect_one_retry(bar: BarView, why: String, fresh: X11rb, again: String)
    requires
        bar.supervisor == Supervisor::Running,
        bar.phase == Phase::Publishing,
        bar.sink.counted().exhausted(),
        bar.sink.request(bar.pending) is Ok,
    ensures
        ({
            let failed = bar.next(Event::PublishFailed(why));
            let connected = failed.0.next(Event::Reconnected(fresh));
            let written = connected.0.next(Event::Published);
            let lost = connected.0.next(Event::PublishFailed(again));
            &&& failed.1.action == ActionView::Reconnect
            &&& failed.0.phase == Phase::Reconnecting
            &&& connected.1.action == ActionView::Publish(
                bar.sink.renewed(fresh).request(bar.pending)->Ok_0,
            )
            &&& connected.0.phase == Phase::Retrying
            &&& connected.0.sink == bar.sink.renewed(fresh)
            &&& written.1.action == ActionView::Wait
            &&& written.0.phase == Phase::Idle
            &&& written.0.sink.failures == 0
            &&& written.0.last_push == bar.pending
            &&& lost.1.action == ActionView::Wait
            &&& lost.0.phase == Phase::Idle
            &&& lost.0.last_push == bar.last_push
        }),
{
}

/// A new connection that could not be made is logged and left for a later
/// round: the round is over, the count of failures stays, and the process
/// goes on.
pub proof fn lemma_reconnect_is_deferred(bar: BarView, why: String)
    requires
        bar.supervisor == Supervisor::Running,
        bar.phase == Phase::Reconnecting,
    ensures
        bar.next(Event::ReconnectFailed(why)).0.phase == Phase::Idle,
        bar.next(Event::ReconnectFailed(why)).0.sink == bar.sink,
        bar.next(Event::ReconnectFailed(why)).0.supervisor == Supervisor::Running,
        bar.next(Event::ReconnectFailed(why)).1.action == ActionView::Wait,
        bar.next(Event::ReconnectFailed(why)).1.log == Some(BarView::connect_failure(why@)),
{
}

/// Nothing but a reason to stop ends the running of the process: no reading,
/// and no failure of the sink.
pub proof fn lemma_only_a_stop_ends_running(bar: BarView, event: Event)
    requires
        bar.supervisor == Supervisor::Running,
        !(event is Stop),
    ensures
        bar.next(event).0.supervisor == Supervisor::Running,
        bar.next(event).1.action != ActionView::Exit,
{
}

/// The first reason to stop is logged and ends the running of the process;
/// from then on nothing is handed out, and once the tasks are given up the
/// process is over and stays so.
pub proof fn lemma_shutdown(bar: BarView, cause: Stop, event: Event)
    requires
        bar.supervisor == Supervisor::Running,
    ensures
        ({
            let stopping = bar.next(Event::Stop(cause));
            let over = stopping.0.next(Event::Abandoned);
            &&& stopping.0.supervisor == Supervisor::ShuttingDown
            &&& stopping.1.action == ActionView::Exit
            &&& stopping.1.log == Some(cause.text())
            &&& stopping.0.next(event).1 == nothing()
            &&& !(event is Abandoned) ==> stopping.0.next(event).0 == stopping.0
            &&& over.0.supervisor == Supervisor::Terminated
            &&& over.0.next(event) == (over.0, nothing())
        }),
{
}

} // verus!
