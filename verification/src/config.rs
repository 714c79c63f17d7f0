//! The entries of the status bar.

use crate::status::sources::cpu::Cpu;
use crate::status::sources::Source;
use crate::status::Status;
use vstd::prelude::*;

verus! {

/// The entries of the bar, from left to right: processor load, memory in use,
/// battery charge, weather, date, time of day.
pub fn statuses() -> (list: Vec<Status>)
    ensures
        list@.len() == 6,
        forall|i: int| 0 <= i < 6 ==> (#[trigger] list@[i]).valid(),
        forall|i: int| 0 <= i < 6 ==> (#[trigger] list@[i]).timeout is None,
        list@[0].source == Source::Cpu(Cpu { previous: None }),
        list@[0].format@ == "\u{f2db} {}%"@,
        list@[0].default@ == "\u{f2db} n/a%"@,
        list@[0].interval == 1,
        list@[1].source == Source::Ram,
        list@[1].format@ == "\u{f538} {}%"@,
        list@[1].default@ == "\u{f538} n/a%"@,
        list@[1].interval == 2,
        list@[2].source matches Source::Battery { name } && name@ == "BAT0"@,
        list@[2].format@ == "\u{f241} {}%"@,
        list@[2].default@ == "\u{f241} 0%"@,
        list@[2].interval == 60,
        list@[3].source matches Source::Command { cmd, args } && cmd@ == "curl"@ && args@.len() == 1
            && args@[0]@ == "wttr.in?format=%c%t"@,
        list@[3].format@ == ""@,
        list@[3].default@ == "n/a"@,
        list@[3].interval == 600,
        list@[4].source matches Source::DateTime { format } && format@ == "%d/%m %a"@,
        list@[4].format@ == "\u{f073} {}"@,
        list@[4].default@ == "\u{f073} n/a"@,
        list@[4].interval == 1,
        list@[5].source matches Source::DateTime { format } && format@ == "%H:%M"@,
        list@[5].format@ == "\u{f017} {}"@,
        list@[5].default@ == "\u{f017} n/a"@,
        list@[5].interval == 1,
{
    let mut list: Vec<Status> = Vec::new();
    list.push(
        Status {
            source: Source::cpu(),
            format: "\u{f2db} {}%",
            default: "\u{f2db} n/a%",
            interval: 1,
            timeout: None,
        },
    );
    list.push(
        Status {
            source: Source::Ram,
            format: "\u{f538} {}%",
            default: "\u{f538} n/a%",
            interval: 2,
            timeout: None,
        },
    );
    list.push(
        Status {
            source: Source::Battery { name: "BAT0" },
            format: "\u{f241} {}%",
            default: "\u{f241} 0%",
            interval: 60,
            timeout: None,
        },
    );
    list.push(
        Status {
            source: Source::Command { cmd: "curl", args: &["wttr.in?format=%c%t"] },
            format: "",
            default: "n/a",
            interval: 600,
            timeout: None,
        },
    );
    list.push(
        Status {
            source: Source::DateTime { format: "%d/%m %a" },
            format: "\u{f073} {}",
            default: "\u{f073} n/a",
            interval: 1,
            timeout: None,
        },
    );
    list.push(
        Status {
            source: Source::DateTime { format: "%H:%M" },
            format: "\u{f017} {}",
            default: "\u{f017} n/a",
            interval: 1,
            timeout: None,
        },
    );
    list
}

} // verus!
