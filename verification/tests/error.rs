use statusbar::error::Error;

#[test]
fn constructors_keep_their_texts() {
    assert_eq!(
        Error::io("/proc/stat", "denied"),
        Error::Io { path: "/proc/stat".to_string(), message: "denied".to_string() }
    );
    assert_eq!(
        Error::parse("/proc/meminfo", "no total"),
        Error::Parse { context: "/proc/meminfo".to_string(), message: "no total".to_string() }
    );
    assert_eq!(Error::calculation("zero"), Error::Calculation { message: "zero".to_string() });
    assert_eq!(Error::x11("gone"), Error::X11 { message: "gone".to_string() });
    assert_eq!(Error::config("bad"), Error::Config { message: "bad".to_string() });
}

#[test]
fn every_kind_has_its_line() {
    assert_eq!(Error::io("/proc/stat", "denied").to_string(), "i/o; '/proc/stat': denied");
    assert_eq!(Error::parse("ctx", "msg").to_string(), "parse: ctx: msg");
    assert_eq!(
        Error::CommandFailed {
            command: "curl".to_string(),
            status: "exit status: 6".to_string(),
            stderr: "could not resolve host".to_string(),
        }
        .to_string(),
        "`curl` failed with status exit status: 6: could not resolve host"
    );
    assert_eq!(
        Error::CommandTimeout { command: "curl".to_string(), timeout_secs: 120 }.to_string(),
        "`curl` timed out after 120s"
    );
    assert_eq!(
        Error::Utf8Decode { context: "stdout".to_string() }.to_string(),
        "utf-8 decode: stdout"
    );
    assert_eq!(Error::calculation("zero").to_string(), "calculation: zero");
    assert_eq!(Error::config("bad").to_string(), "config: bad");
    assert_eq!(Error::x11("gone").to_string(), "X11: gone");
}

#[test]
fn empty_texts_are_kept() {
    assert_eq!(Error::io("", "").to_string(), "i/o; '': ");
    assert_eq!(
        Error::CommandTimeout { command: String::new(), timeout_secs: 0 }.to_string(),
        "`` timed out after 0s"
    );
}
