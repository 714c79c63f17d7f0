use statusbar::config::statuses;
use statusbar::status::sources::Source;
use statusbar::status::{Bar, Status};
use statusbar::x11::X11rb;

#[test]
fn the_bar_has_six_entries() {
    let list = statuses();
    assert_eq!(
        list,
        vec![
            Status {
                source: Source::cpu(),
                format: "\u{f2db} {}%",
                default: "\u{f2db} n/a%",
                interval: 1,
                timeout: None,
            },
            Status {
                source: Source::Ram,
                format: "\u{f538} {}%",
                default: "\u{f538} n/a%",
                interval: 2,
                timeout: None,
            },
            Status {
                source: Source::Battery { name: "BAT0" },
                format: "\u{f241} {}%",
                default: "\u{f241} 0%",
                interval: 60,
                timeout: None,
            },
            Status {
                source: Source::Command { cmd: "curl", args: &["wttr.in?format=%c%t"] },
                format: "",
                default: "n/a",
                interval: 600,
                timeout: None,
            },
            Status {
                source: Source::DateTime { format: "%d/%m %a" },
                format: "\u{f073} {}",
                default: "\u{f073} n/a",
                interval: 1,
                timeout: None,
            },
            Status {
                source: Source::DateTime { format: "%H:%M" },
                format: "\u{f017} {}",
                default: "\u{f017} n/a",
                interval: 1,
                timeout: None,
            },
        ]
    );
}

#[test]
fn every_entry_can_be_run() {
    for status in statuses() {
        assert_eq!(status.validate(), Ok(()));
    }
    let sink = X11rb::new(&[1], 0, 2).unwrap();
    assert!(Bar::new(statuses(), sink).is_ok());
}
