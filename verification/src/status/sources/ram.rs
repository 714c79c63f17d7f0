//! The share of memory in use, from the first lines of `/proc/meminfo`.

use crate::error::{Error, ErrorView};
use crate::status::utils::{lines_read, outcome, percent, read_n_lines, rounded_percent, FileRead};
use crate::text::{
    after_first_line, before, chars, decimal, find, first_line, first_word, next_word, number,
    parse_u64_in, range_is, skip_spaces, skip_spaces_back, trim_start, trimmed,
};
use vstd::prelude::*;
use vstd::string::StrSliceExecFns;
use vstd::string::StringExecFns;

verus! {

/// The two sizes of `/proc/meminfo` that the share in use is computed from.
#[derive(Default, Debug, Clone, Copy, PartialEq, Eq, Structural)]
pub struct RamStat {
    /// All memory.
    pub total: u64,
    /// The memory that can be had without swapping.
    pub available: u64,
}

/// The name that a line gives a size: what stands before its first colon,
/// without the white space around it.
pub open spec fn line_key(line: Seq<char>) -> Seq<char> {
    trimmed(line.take(before(line, ':') as int))
}

/// The word of a line that should be its size: the first after its first
/// colon.
pub open spec fn line_value(line: Seq<char>) -> Seq<char> {
    first_word(line.skip(before(line, ':') as int + 1))
}

/// The sizes after one more line. A line without a colon leaves them as they
/// are. Any other line must hold a number after its colon, which is taken for
/// the size that the line names, if it names one of the two.
pub open spec fn with_line(stat: RamStat, line: Seq<char>) -> Result<RamStat, Seq<char>> {
    if before(line, ':') >= line.len() {
        Ok(stat)
    } else {
        match number(line_value(line)) {
            Err(e) => Err("invalid value for `"@ + line_key(line) + "`: "@ + e.text()),
            Ok(value) => if line_key(line) == "MemTotal"@ {
                Ok(RamStat { total: value, available: stat.available })
            } else if line_key(line) == "MemAvailable"@ {
                Ok(RamStat { total: stat.total, available: value })
            } else {
                Ok(stat)
            },
        }
    }
}

/// The sizes after all lines of `text`, taken one after the other from the
/// first on, up to the first line that is at fault.
pub open spec fn with_lines(stat: RamStat, text: Seq<char>) -> Result<RamStat, Seq<char>>
    decreases text.len(),
{
    if text.len() == 0 {
        Ok(stat)
    } else {
        match with_line(stat, first_line(text)) {
            Err(m) => Err(m),
            Ok(next) => with_lines(next, after_first_line(text)),
        }
    }
}

impl RamStat {
    /// The sizes that `text` holds, or what is wrong with it: a line at
    /// fault, or a size that no line gives, or gives as zero.
    pub open spec fn parsed(text: Seq<char>) -> Result<RamStat, Seq<char>> {
        match with_lines(RamStat { total: 0, available: 0 }, text) {
            Err(m) => Err(m),
            Ok(stat) => if stat.total == 0 {
                Err("missing `MemTotal` in /proc/meminfo"@)
            } else if stat.available == 0 {
                Err("missing `MemAvailable` in /proc/meminfo"@)
            } else {
                Ok(stat)
            },
        }
    }

    /// The share of memory in use, in percent.
    pub open spec fn used_percent(&self) -> nat {
        percent(
            if self.total > self.available {
                (self.total - self.available) as u64
            } else {
                0
            },
            self.total,
        )
    }

    /// Reads the sizes from the first lines of `/proc/meminfo`.
    pub fn from_str(s: &str) -> (r: Result<RamStat, String>)
        ensures
            match r {
                Ok(stat) => RamStat::parsed(s@) == Ok::<RamStat, Seq<char>>(stat),
                Err(m) => RamStat::parsed(s@) == Err::<RamStat, Seq<char>>(m@),
            },
    {
        let v = chars(s);
        let n = v.len();
        let mut stat = RamStat { total: 0, available: 0 };
        let mut at: usize = 0;
        proof {
            assert(s@.skip(0) =~= s@);
        }
        while at < n
            invariant
                at <= n == v.len(),
                v@ == s@,
                with_lines(RamStat { total: 0, available: 0 }, s@) == with_lines(
                    stat,
                    s@.skip(at as int),
                ),
            decreases n - at,
        {
            let ghost text = s@.skip(at as int);
            let end = find(&v, at, n, '\n');
            let colon = find(&v, at, end, ':');
            proof {
                assert(v@.subrange(at as int, n as int) =~= text);
                assert(first_line(text) =~= v@.subrange(at as int, end as int));
            }
            let ghost line = first_line(text);
            if colon < end {
                let lo = skip_spaces(&v, at, colon);
                let hi = skip_spaces_back(&v, lo, colon);
                let (from, to) = next_word(&v, colon + 1, end);
                proof {
                    assert(line.take(colon - at) =~= v@.subrange(at as int, colon as int));
                    let named = v@.subrange(at as int, colon as int);
                    assert(trim_start(named) =~= v@.subrange(lo as int, colon as int));
                    assert(trimmed(named) =~= v@.subrange(lo as int, hi as int));
                    assert(line_key(line) == v@.subrange(lo as int, hi as int));
                    assert(line.skip(colon - at + 1) =~= v@.subrange(colon + 1, end as int));
                }
                match parse_u64_in(&v, from, to) {
                    Err(e) => {
                        let mut m = String::from_str("invalid value for `");
                        m.append(s.substring_char(lo, hi));
                        m.append("`: ");
                        m.append(e.message());
                        return Err(m);
                    },
                    Ok(value) => {
                        if range_is(&v, lo, hi, "MemTotal") {
                            stat.total = value;
                        } else if range_is(&v, lo, hi, "MemAvailable") {
                            stat.available = value;
                        }
                    },
                }
            }
            if end < n {
                proof {
                    assert(before(text, '\n') == end - at);
                    assert(text.skip(end - at + 1) =~= s@.skip(end + 1));
                    assert(after_first_line(text) =~= s@.skip(end + 1));
                }
                at = end + 1;
            } else {
                proof {
                    assert(before(text, '\n') == end - at);
                    assert(after_first_line(text) =~= s@.skip(n as int));
                }
                at = n;
            }
        }
        if stat.total == 0 {
            return Err(String::from_str("missing `MemTotal` in /proc/meminfo"));
        }
        if stat.available == 0 {
            return Err(String::from_str("missing `MemAvailable` in /proc/meminfo"));
        }
        Ok(stat)
    }
}

/// The share of memory in use that the reading of `/proc/meminfo` shows.
pub open spec fn measured(read: FileRead) -> Result<Seq<char>, ErrorView> {
    match lines_read("/proc/meminfo"@, 5, read) {
        Err(e) => Err(e),
        Ok(text) => match RamStat::parsed(text) {
            Err(m) => Err(ErrorView::Parse { context: "/proc/meminfo"@, message: m }),
            Ok(stat) => Ok(decimal(stat.used_percent())),
        },
    }
}

/// The share of memory in use, in percent, given what came of reading
/// `/proc/meminfo`: what is not available, of all there is.
pub fn ram_percent(read: &FileRead) -> (r: Result<String, Error>)
    ensures
        outcome(r) == measured(*read),
{
    let text = match read_n_lines("/proc/meminfo", 5, read) {
        Ok(text) => text,
        Err(e) => {
            return Err(e);
        },
    };
    let stat = match RamStat::from_str(text.as_str()) {
        Ok(stat) => stat,
        Err(m) => {
            return Err(Error::parse("/proc/meminfo", m.as_str()));
        },
    };
    let used = stat.total.saturating_sub(stat.available);
    rounded_percent(used, stat.total)
}

} // verus!
