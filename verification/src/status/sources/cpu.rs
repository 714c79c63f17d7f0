//! The share of time the processors were busy between two readings of
//! `/proc/stat`.

use crate::error::{Error, ErrorView};
use crate::status::utils::{outcome, percent, rounded_percent};
use crate::text::{
    after_first_word, after_words, chars, decimal, decimal_string, first_word, next_word,
    nth_word, number, parse_u64_in, skip_prefixes, without_prefixes,
};
use vstd::prelude::*;
use vstd::string::StringExecFns;

verus! {

/// The counters of the first line of `/proc/stat`: time spent in each state
/// since the machine started.
#[derive(Default, Debug, Clone, Copy, PartialEq, Eq, Structural)]
pub struct CpuStat {
    pub user: u64,
    pub nice: u64,
    pub system: u64,
    pub idle: u64,
    pub iowait: u64,
    pub irq: u64,
    pub softirq: u64,
}

/// The sum of two counters, at most what a `u64` holds.
pub open spec fn capped(sum: int) -> u64 {
    if sum > u64::MAX {
        u64::MAX
    } else {
        sum as u64
    }
}

/// The difference of two counters, nothing where the second is the larger.
pub open spec fn gained(now: u64, then: u64) -> u64 {
    if now > then {
        (now - then) as u64
    } else {
        0
    }
}

/// The name of the counter that stands in place `k` of the line.
pub open spec fn field_name(k: nat) -> Seq<char> {
    if k == 0 {
        "user"@
    } else if k == 1 {
        "nice"@
    } else if k == 2 {
        "system"@
    } else if k == 3 {
        "idle"@
    } else if k == 4 {
        "iowait"@
    } else if k == 5 {
        "irq"@
    } else {
        "softirq"@
    }
}

/// The counters of a line: what follows the `cpu` that it begins with.
pub open spec fn counters(line: Seq<char>) -> Seq<char> {
    without_prefixes(line, "cpu"@)
}

/// What is wrong with a word that should be the counter called `name`, if
/// anything is.
pub open spec fn word_fault(word: Seq<char>, name: Seq<char>) -> Option<Seq<char>> {
    if word.len() == 0 {
        Some("missing `"@ + name + "` field in /proc/stat"@)
    } else {
        match number(word) {
            Err(e) => Some("invalid `"@ + name + "` value in /proc/stat: "@ + e.text()),
            Ok(_) => None,
        }
    }
}

/// The number that a word stands for; zero where it stands for none.
pub open spec fn word_value(word: Seq<char>) -> u64 {
    match number(word) {
        Ok(value) => value,
        Err(_) => 0,
    }
}

/// What is wrong with the first of the first `k` counters of `line` that has a
/// fault, if one has.
pub open spec fn first_fault(line: Seq<char>, k: nat) -> Option<Seq<char>>
    decreases k,
{
    if k == 0 {
        None
    } else {
        match first_fault(line, (k - 1) as nat) {
            Some(m) => Some(m),
            None => word_fault(
                nth_word(counters(line), (k - 1) as nat),
                field_name((k - 1) as nat),
            ),
        }
    }
}

/// A fault among the first counters is the fault of the line.
pub proof fn lemma_fault_stays(line: Seq<char>, k: nat, j: nat)
    requires
        k <= j,
        first_fault(line, k) is Some,
    ensures
        first_fault(line, j) == first_fault(line, k),
    decreases j,
{
    if k < j {
        lemma_fault_stays(line, k, (j - 1) as nat);
    }
}

impl CpuStat {
    /// The time in all states.
    pub open spec fn total(&self) -> int {
        self.user + self.nice + self.system + self.idle + self.iowait + self.irq + self.softirq
    }

    /// The time in the states in which a processor works.
    pub open spec fn busy(&self) -> int {
        self.user + self.nice + self.system + self.irq + self.softirq
    }

    /// The counters that `line` holds: seven numbers after `cpu`, with white
    /// space between them; or what is wrong with the first that is missing or
    /// no number.
    pub open spec fn parsed(line: Seq<char>) -> Result<CpuStat, Seq<char>> {
        match first_fault(line, 7) {
            Some(m) => Err(m),
            None => Ok(
                CpuStat {
                    user: word_value(nth_word(counters(line), 0)),
                    nice: word_value(nth_word(counters(line), 1)),
                    system: word_value(nth_word(counters(line), 2)),
                    idle: word_value(nth_word(counters(line), 3)),
                    iowait: word_value(nth_word(counters(line), 4)),
                    irq: word_value(nth_word(counters(line), 5)),
                    softirq: word_value(nth_word(counters(line), 6)),
                },
            ),
        }
    }

    /// The time in all states, at most what a `u64` holds.
    pub fn sum_all(&self) -> (sum: u64)
        ensures
            sum == capped(self.total()),
    {
        self.user.saturating_add(self.nice).saturating_add(self.system).saturating_add(
            self.idle,
        ).saturating_add(self.iowait).saturating_add(self.irq).saturating_add(self.softirq)
    }

    /// The time in the states in which a processor works, at most what a `u64`
    /// holds.
    pub fn sum(&self) -> (sum: u64)
        ensures
            sum == capped(self.busy()),
    {
        self.user.saturating_add(self.nice).saturating_add(self.system).saturating_add(
            self.irq,
        ).saturating_add(self.softirq)
    }

    /// Reads the counters from the first line of `/proc/stat`.
    pub fn from_str(s: &str) -> (r: Result<CpuStat, String>)
        ensures
            match r {
                Ok(stat) => CpuStat::parsed(s@) == Ok::<CpuStat, Seq<char>>(stat),
                Err(m) => CpuStat::parsed(s@) == Err::<CpuStat, Seq<char>>(m@),
            },
    {
        let v = chars(s);
        let n = v.len();
        let prefix = chars("cpu");
        let mut at = skip_prefixes(&v, 0, n, &prefix);
        let mut values: Vec<u64> = Vec::new();
        let mut k: usize = 0;
        proof {
            assert(v@.subrange(0, n as int) =~= s@);
            assert(first_fault(s@, 0) is None);
        }
        while k < 7
            invariant
                k <= 7,
                at <= n == v.len(),
                values.len() == k,
                first_fault(s@, k as nat) is None,
                v@.subrange(at as int, n as int) == after_words(counters(s@), k as nat),
                forall|j: int|
                    0 <= j < k ==> #[trigger] values@[j] == word_value(
                        nth_word(counters(s@), j as nat),
                    ),
            decreases 7 - k,
        {
            match next_value(&v, at, field_label(k)) {
                Ok((value, end)) => {
                    values.push(value);
                    at = end;
                },
                Err(m) => {
                    proof {
                        assert(first_fault(s@, (k + 1) as nat) == Some(m@));
                        lemma_fault_stays(s@, (k + 1) as nat, 7);
                    }
                    return Err(m);
                },
            }
            k = k + 1;
        }
        Ok(
            CpuStat {
                user: values[0],
                nice: values[1],
                system: values[2],
                idle: values[3],
                iowait: values[4],
                irq: values[5],
                softirq: values[6],
            },
        )
    }
}

/// The name of the counter that stands in place `k` of the line.
fn field_label(k: usize) -> (name: &'static str)
    requires
        k < 7,
    ensures
        name@ == field_name(k as nat),
{
    if k == 0 {
        "user"
    } else if k == 1 {
        "nice"
    } else if k == 2 {
        "system"
    } else if k == 3 {
        "idle"
    } else if k == 4 {
        "iowait"
    } else if k == 5 {
        "irq"
    } else {
        "softirq"
    }
}

/// The counter called `name` that stands next in `v` from `from` on, and where
/// it ends.
fn next_value(v: &Vec<char>, from: usize, name: &str) -> (r: Result<(u64, usize), String>)
    requires
        from <= v.len(),
    ensures
        match r {
            Ok((value, end)) => {
                &&& from <= end <= v.len()
                &&& word_fault(first_word(v@.subrange(from as int, v.len() as int)), name@) is None
                &&& value == word_value(first_word(v@.subrange(from as int, v.len() as int)))
                &&& v@.subrange(end as int, v.len() as int) == after_first_word(
                    v@.subrange(from as int, v.len() as int),
                )
            },
            Err(m) => word_fault(first_word(v@.subrange(from as int, v.len() as int)), name@)
                == Some(m@),
        },
{
    let (start, end) = next_word(v, from, v.len());
    if start == end {
        let mut m = String::from_str("missing `");
        m.append(name);
        m.append("` field in /proc/stat");
        return Err(m);
    }
    match parse_u64_in(v, start, end) {
        Ok(value) => Ok((value, end)),
        Err(e) => {
            let mut m = String::from_str("invalid `");
            m.append(name);
            m.append("` value in /proc/stat: ");
            m.append(e.message());
            Err(m)
        },
    }
}

/// The processor load, measured from one reading of `/proc/stat` to the next.
#[derive(Debug, PartialEq, Eq)]
pub struct Cpu {
    /// The counters of the reading before, if there was one.
    pub previous: Option<CpuStat>,
}

impl Default for Cpu {
    fn default() -> (cpu: Cpu)
        ensures
            cpu.previous is None,
    {
        Cpu::new()
    }
}

impl Cpu {
    /// A measurement that has not read anything yet.
    pub fn new() -> (cpu: Cpu)
        ensures
            cpu.previous is None,
    {
        Cpu { previous: None }
    }

    /// What a reading of `line` makes of the measurement, and what it shows.
    ///
    /// A line that cannot be read changes nothing and is a failure. The first
    /// line that can be read is kept and shows `0`. Every later one is kept in
    /// place of the one before it, and shows the share of the time gained since
    /// then that was busy time, in percent; where no time was gained no share
    /// exists, which is a failure.
    pub open spec fn sampled(self, line: Seq<char>) -> (Cpu, Result<Seq<char>, ErrorView>) {
        match CpuStat::parsed(line) {
            Err(m) => (self, Err(ErrorView::Parse { context: "/proc/stat"@, message: m })),
            Ok(stat) => (
                Cpu { previous: Some(stat) },
                match self.previous {
                    None => Ok("0"@),
                    Some(before) => {
                        let all = gained(capped(stat.total()), capped(before.total()));
                        let busy = gained(capped(stat.busy()), capped(before.busy()));
                        if all == 0 {
                            Err(
                                ErrorView::Calculation {
                                    message: "invalid cpu stat delta: total=0, active="@ + decimal(
                                        busy as nat,
                                    ),
                                },
                            )
                        } else {
                            Ok(decimal(percent(busy, all)))
                        }
                    },
                },
            ),
        }
    }

    /// Takes the first line of `/proc/stat` and gives the processor load since
    /// the line before it, in percent.
    pub fn cpu_percent(&mut self, line: &str) -> (r: Result<String, Error>)
        ensures
            (*final(self), outcome(r)) == old(self).sampled(line@),
    {
        let stat = match CpuStat::from_str(line) {
            Ok(stat) => stat,
            Err(m) => {
                return Err(Error::parse("/proc/stat", m.as_str()));
            },
        };
        let output = match &self.previous {
            None => Ok(String::from_str("0")),
            Some(before) => {
                let all = stat.sum_all().saturating_sub(before.sum_all());
                let busy = stat.sum().saturating_sub(before.sum());
                if all == 0 {
                    let mut m = String::from_str("invalid cpu stat delta: total=0, active=");
                    m.append(decimal_string(busy).as_str());
                    Err(Error::calculation(m.as_str()))
                } else {
                    rounded_percent(busy, all)
                }
            },
        };
        self.previous = Some(stat);
        output
    }
}

/// The first reading of a measurement shows the neutral `0`, and is kept.
pub proof fn lemma_first_reading(line: Seq<char>)
    requires
        CpuStat::parsed(line) is Ok,
    ensures
        (Cpu { previous: None }).sampled(line).1 == Ok::<Seq<char>, ErrorView>("0"@),
        (Cpu { previous: None }).sampled(line).0.previous == Some(CpuStat::parsed(line)->Ok_0),
{
}

/// A reading after another, with time gained between the two, shows a whole
/// number from 0 to 100 in decimal.
pub proof fn lemma_later_reading(cpu: Cpu, line: Seq<char>)
    requires
        cpu.previous is Some,
        CpuStat::parsed(line) is Ok,
        capped(CpuStat::parsed(line)->Ok_0.total()) > capped(cpu.previous->Some_0.total()),
    ensures
        cpu.sampled(line).1 is Ok,
        exists|p: u64| p <= 100 && #[trigger] decimal(p as nat) == cpu.sampled(line).1->Ok_0,
        number(cpu.sampled(line).1->Ok_0) is Ok,
        number(cpu.sampled(line).1->Ok_0)->Ok_0 <= 100,
{
    let stat = CpuStat::parsed(line)->Ok_0;
    let before = cpu.previous->Some_0;
    let all = gained(capped(stat.total()), capped(before.total()));
    let busy = gained(capped(stat.busy()), capped(before.busy()));
    crate::status::utils::lemma_percent_range(busy, all);
    let p = percent(busy, all) as u64;
    assert(decimal(p as nat) == cpu.sampled(line).1->Ok_0);
    crate::text::lemma_number_of_decimal(p);
}

} // verus!
