use statusbar::error::Error;
use statusbar::status::sources::command::{failure, run, Ended};

fn exit(success: bool, status: &str, stdout: &[u8], stderr: &[u8]) -> Ended {
    Ended::Exit {
        success,
        status: status.to_string(),
        stdout: stdout.to_vec(),
        stderr: stderr.to_vec(),
    }
}

#[test]
fn success_shows_the_output_trimmed() {
    assert_eq!(
        run("curl", &exit(true, "exit status: 0", "  \u{2600} +21\u{b0}C\n".as_bytes(), b"")),
        Ok("\u{2600} +21\u{b0}C".to_string())
    );
    assert_eq!(run("true", &exit(true, "exit status: 0", b"", b"ignored")), Ok(String::new()));
}

#[test]
fn output_that_is_no_text_is_a_failure() {
    assert_eq!(
        run("curl", &exit(true, "exit status: 0", &[b'o', b'k', 0xff], b"")),
        Err(Error::Utf8Decode { context: "stdout of `curl`".to_string() })
    );
    assert_eq!(
        run("curl", &exit(true, "exit status: 0", &[0xe2, 0x98], b"")),
        Err(Error::Utf8Decode { context: "stdout of `curl`".to_string() })
    );
}

#[test]
fn another_status_than_success_is_a_failure() {
    assert_eq!(
        run("curl", &exit(false, "exit status: 6", b"partial", b" could not resolve host \n")),
        Err(Error::CommandFailed {
            command: "curl".to_string(),
            status: "exit status: 6".to_string(),
            stderr: "could not resolve host".to_string(),
        })
    );
}

#[test]
fn standard_error_is_read_with_replacement_characters() {
    assert_eq!(
        run("tool", &exit(false, "signal: 9", b"", &[b' ', b'b', b'a', b'd', 0xff, b'!', b'\n'])),
        Err(Error::CommandFailed {
            command: "tool".to_string(),
            status: "signal: 9".to_string(),
            stderr: "bad\u{fffd}!".to_string(),
        })
    );
}

#[test]
fn a_command_that_did_not_start_is_a_failure() {
    assert_eq!(
        run("nope", &Ended::NotRun("No such file or directory (os error 2)".to_string())),
        Err(Error::Io {
            path: "nope".to_string(),
            message: "run: No such file or directory (os error 2)".to_string()
        })
    );
}

#[test]
fn failure_trims_what_was_said() {
    assert_eq!(
        failure("make", "exit status: 2", "\n  no rule \t"),
        Error::CommandFailed {
            command: "make".to_string(),
            status: "exit status: 2".to_string(),
            stderr: "no rule".to_string(),
        }
    );
}
