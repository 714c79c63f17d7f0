//! What a command that has ended shows: its output, or how it failed.

use crate::error::{Error, ErrorView};
use crate::status::utils::outcome;
use crate::text::{trim, trimmed};
use vstd::prelude::*;
use vstd::string::StringExecFns;
use vstd::utf8::{decode_utf8, valid_utf8};

verus! {

/// How the run of a command ended.
#[derive(Debug, Clone, PartialEq, Eq)]
pub enum Ended {
    /// The command could not be started; the text says why.
    NotRun(String),
    /// The command ran to its end.
    Exit {
        /// Whether it ended with success.
        success: bool,
        /// Its exit status, as the system words it.
        status: String,
        /// What it wrote to standard output.
        stdout: Vec<u8>,
        /// What it wrote to standard error.
        stderr: Vec<u8>,
    },
}

/// The text that `String::from_utf8_lossy` makes of `bytes`: the text that
/// they encode, with a replacement character wherever they encode none.
pub uninterp spec fn lossy_text(bytes: Seq<u8>) -> Seq<char>;

/// `std::str::from_utf8`: the text that `bytes` encode, where they are valid
/// UTF-8, and nothing where they are not.
#[verifier::external_body]
fn utf8_text(bytes: &[u8]) -> (text: Option<&str>)
    ensures
        text is Some == valid_utf8(bytes@),
        text matches Some(t) ==> t@ == decode_utf8(bytes@),
{
    std::str::from_utf8(bytes).ok()
}

/// `String::from_utf8_lossy`: a text for any bytes, the same for the same
/// bytes, and the text that they encode where they are valid UTF-8.
#[verifier::external_body]
fn utf8_lossy(bytes: &[u8]) -> (text: String)
    ensures
        text@ == lossy_text(bytes@),
        valid_utf8(bytes@) ==> text@ == decode_utf8(bytes@),
{
    String::from_utf8_lossy(bytes).into_owned()
}

/// The failure of `cmd` that ended with `status` and said `stderr`.
pub open spec fn failed(cmd: Seq<char>, status: Seq<char>, stderr: Seq<char>) -> ErrorView {
    ErrorView::CommandFailed { command: cmd, status, stderr: trimmed(stderr) }
}

/// What the run of `cmd` shows. A command that could not be started, or did
/// not end with success, is a failure. One that did shows what it wrote to
/// standard output, without the white space around it, if that is UTF-8.
pub open spec fn ran(cmd: Seq<char>, ended: Ended) -> Result<Seq<char>, ErrorView> {
    match ended {
        Ended::NotRun(why) => Err(ErrorView::Io { path: cmd, message: "run: "@ + why@ }),
        Ended::Exit { success, status, stdout, stderr } => if !success {
            Err(failed(cmd, status@, lossy_text(stderr@)))
        } else if valid_utf8(stdout@) {
            Ok(trimmed(decode_utf8(stdout@)))
        } else {
            Err(ErrorView::Utf8Decode { context: "stdout of `"@ + cmd + "`"@ })
        },
    }
}

/// The failure of `cmd` that ended with `status` and wrote `stderr` to
/// standard error.
pub fn failure(cmd: &str, status: &str, stderr: &str) -> (e: Error)
    ensures
        e@ == failed(cmd@, status@, stderr@),
{
    Error::CommandFailed {
        command: String::from_str(cmd),
        status: String::from_str(status),
        stderr: String::from_str(trim(stderr)),
    }
}

/// What the run of `cmd` shows, given how it ended.
pub fn run(cmd: &str, ended: &Ended) -> (r: Result<String, Error>)
    ensures
        outcome(r) == ran(cmd@, *ended),
        match *ended {
            Ended::Exit { success, status, stderr, .. } => !success && valid_utf8(stderr@)
                ==> outcome(r) == Err::<Seq<char>, ErrorView>(
                failed(cmd@, status@, decode_utf8(stderr@)),
            ),
            Ended::NotRun(_) => true,
        },
{
    match ended {
        Ended::NotRun(why) => {
            let mut message = String::from_str("run: ");
            message.append(why.as_str());
            Err(Error::io(cmd, message.as_str()))
        },
        Ended::Exit { success, status, stdout, stderr } => {
            if !*success {
                let said = utf8_lossy(stderr.as_slice());
                return Err(failure(cmd, status.as_str(), said.as_str()));
            }
            match utf8_text(stdout.as_slice()) {
                Some(text) => Ok(String::from_str(trim(text))),
                None => {
                    let mut context = String::from_str("stdout of `");
                    context.append(cmd);
                    context.append("`");
                    Err(Error::Utf8Decode { context })
                },
            }
        },
    }
}

} // verus!
