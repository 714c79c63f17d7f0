use statusbar::status::sources::cpu::CpuStat;
use statusbar::status::sources::ram::RamStat;
use statusbar::text::{join, parse_u64, replace, take_lines, trim};

/// A small generator of numbers that gives the same run each time.
struct Numbers(u64);

impl Numbers {
    fn next(&mut self) -> u64 {
        self.0 = self.0.wrapping_mul(6364136223846793005).wrapping_add(1442695040888963407);
        self.0 >> 33
    }

    fn below(&mut self, n: usize) -> usize {
        (self.next() % n as u64) as usize
    }

    fn text(&mut self, alphabet: &[&str], longest: usize) -> String {
        let len = self.below(longest + 1);
        let mut text = String::new();
        for _ in 0..len {
            text.push_str(alphabet[self.below(alphabet.len())]);
        }
        text
    }
}

fn cpu_with_std(s: &str) -> Result<CpuStat, String> {
    let mut parts = s.trim_start_matches("cpu").split_whitespace();
    let mut next_value = |name: &str| -> Result<u64, String> {
        let value = parts.next().ok_or_else(|| format!("missing `{name}` field in /proc/stat"))?;
        value.parse::<u64>().map_err(|err| format!("invalid `{name}` value in /proc/stat: {err}"))
    };
    Ok(CpuStat {
        user: next_value("user")?,
        nice: next_value("nice")?,
        system: next_value("system")?,
        idle: next_value("idle")?,
        iowait: next_value("iowait")?,
        irq: next_value("irq")?,
        softirq: next_value("softirq")?,
    })
}

fn ram_with_std(s: &str) -> Result<RamStat, String> {
    let mut stat = RamStat { total: 0, available: 0 };
    for line in s.lines() {
        if let Some((key, value_part)) = line.split_once(':') {
            let key = key.trim();
            let value_str = value_part.split_whitespace().next().unwrap_or("");
            let value = value_str
                .parse::<u64>()
                .map_err(|err| format!("invalid value for `{key}`: {err}"))?;
            match key {
                "MemTotal" => stat.total = value,
                "MemAvailable" => stat.available = value,
                _ => {}
            }
        }
    }
    if stat.total == 0 {
        return Err("missing `MemTotal` in /proc/meminfo".to_string());
    }
    if stat.available == 0 {
        return Err("missing `MemAvailable` in /proc/meminfo".to_string());
    }
    Ok(stat)
}

fn lines_with_std(s: &str, n: usize) -> String {
    s.split_inclusive('\n').take(n).collect()
}

#[test]
fn cpu_lines_are_read_as_std_reads_them() {
    let alphabet = [
        "cpu", "c", "p", " ", "  ", "\t", "0", "1", "7", "42", "+", "-", "x", "\n", "\u{a0}",
        "18446744073709551615", "18446744073709551616", "9",
    ];
    let mut numbers = Numbers(1);
    for _ in 0..20000 {
        let line = numbers.text(&alphabet, 24);
        assert_eq!(CpuStat::from_str(&line), cpu_with_std(&line), "{line:?}");
    }
}

#[test]
fn well_formed_cpu_lines_are_read_as_std_reads_them() {
    let mut numbers = Numbers(2);
    for _ in 0..2000 {
        let mut line = String::from("cpu ");
        let fields = 5 + numbers.below(6);
        for _ in 0..fields {
            line.push_str(&(numbers.next() % 100000).to_string());
            line.push(' ');
        }
        assert_eq!(CpuStat::from_str(&line), cpu_with_std(&line), "{line:?}");
    }
}

#[test]
fn meminfo_is_read_as_std_reads_it() {
    let alphabet = [
        "MemTotal", "MemAvailable", "MemFree", ":", ":", " ", "  ", "\t", "\n", "\n", "\r\n", "\r",
        "0", "1", "16", "kB", "+", "x", "\u{2003}", "18446744073709551616",
    ];
    let mut numbers = Numbers(3);
    for _ in 0..20000 {
        let text = numbers.text(&alphabet, 30);
        assert_eq!(RamStat::from_str(&text), ram_with_std(&text), "{text:?}");
    }
}

#[test]
fn well_formed_meminfo_is_read_as_std_reads_it() {
    let keys = ["MemTotal", "MemFree", "MemAvailable", "Buffers", "Cached"];
    let mut numbers = Numbers(4);
    for _ in 0..2000 {
        let mut text = String::new();
        for _ in 0..numbers.below(8) {
            text.push_str(keys[numbers.below(keys.len())]);
            text.push_str(":   ");
            text.push_str(&(numbers.next() % 1000).to_string());
            text.push_str(" kB\n");
        }
        assert_eq!(RamStat::from_str(&text), ram_with_std(&text), "{text:?}");
    }
}

#[test]
fn replace_is_what_std_replaces() {
    let alphabet = ["{", "}", "{}", "a", "b", "%", " ", "\u{f2db}"];
    let mut numbers = Numbers(5);
    for _ in 0..20000 {
        let template = numbers.text(&alphabet, 10);
        let marker = numbers.text(&alphabet, 2);
        let value = numbers.text(&alphabet, 3);
        assert_eq!(
            replace(&template, &marker, &value),
            template.replace(marker.as_str(), &value),
            "{template:?} {marker:?} {value:?}"
        );
    }
}

#[test]
fn trim_is_what_std_trims() {
    let alphabet = [" ", "\t", "\n", "\r", "\u{a0}", "\u{3000}", "\u{200b}", "a", "\u{f017}", "0"];
    let mut numbers = Numbers(6);
    for _ in 0..20000 {
        let text = numbers.text(&alphabet, 8);
        assert_eq!(trim(&text), text.trim(), "{text:?}");
    }
}

#[test]
fn take_lines_is_what_std_takes() {
    let alphabet = ["\n", "\n", "a", "b", "\r", " ", "\u{f538}"];
    let mut numbers = Numbers(7);
    for _ in 0..20000 {
        let text = numbers.text(&alphabet, 10);
        let n = numbers.below(5);
        assert_eq!(take_lines(&text, n), lines_with_std(&text, n), "{text:?} {n}");
    }
}

#[test]
fn numbers_are_read_as_std_reads_them() {
    let alphabet = ["0", "1", "9", "+", "-", " ", "x", "18446744073709551615", "1844674407370955161"];
    let mut numbers = Numbers(8);
    for _ in 0..20000 {
        let text = numbers.text(&alphabet, 4);
        match (parse_u64(&text), text.parse::<u64>()) {
            (Ok(ours), Ok(theirs)) => assert_eq!(ours, theirs, "{text:?}"),
            (Err(ours), Err(theirs)) => assert_eq!(ours.message(), theirs.to_string(), "{text:?}"),
            (ours, theirs) => panic!("{text:?}: {ours:?} against {theirs:?}"),
        }
    }
}

#[test]
fn join_is_what_std_joins() {
    let alphabet = ["a", " ", "|", "\u{f241}"];
    let mut numbers = Numbers(9);
    for _ in 0..5000 {
        let count = numbers.below(5);
        let parts: Vec<String> = (0..count).map(|_| numbers.text(&alphabet, 3)).collect();
        let sep = numbers.text(&alphabet, 2);
        assert_eq!(join(&parts, &sep), parts.join(sep.as_str()));
    }
}
