//! What the sources share: the lines of a file that was read, and a share as
//! a percentage.

use crate::error::{Error, ErrorView};
use crate::text::{decimal, decimal_string, first_lines, take_lines, trim, trimmed};
use vstd::prelude::*;
use vstd::string::StringExecFns;

verus! {

/// What came of reading a file.
#[derive(Debug, Clone, PartialEq, Eq)]
pub enum FileRead {
    /// The file could not be opened; the text says why.
    OpenFailed(String),
    /// The file was opened and could not be read; the text says why.
    ReadFailed(String),
    /// What the file holds.
    Text(String),
}

/// The result of a source's work as plain values.
pub open spec fn outcome(r: Result<String, Error>) -> Result<Seq<char>, ErrorView> {
    match r {
        Ok(s) => Ok(s@),
        Err(e) => Err(e@),
    }
}

/// The first line of the file at `from`, without the white space around it.
pub open spec fn line_read(from: Seq<char>, read: FileRead) -> Result<Seq<char>, ErrorView> {
    match read {
        FileRead::OpenFailed(why) => Err(ErrorView::Io { path: from, message: "open: "@ + why@ }),
        FileRead::ReadFailed(why) => Err(
            ErrorView::Io { path: from, message: "read line: "@ + why@ },
        ),
        FileRead::Text(text) => Ok(trimmed(first_lines(text@, 1))),
    }
}

/// The first `num_lines` lines of the file at `from`, line feeds included.
pub open spec fn lines_read(from: Seq<char>, num_lines: nat, read: FileRead) -> Result<
    Seq<char>,
    ErrorView,
> {
    match read {
        FileRead::OpenFailed(why) => Err(ErrorView::Io { path: from, message: "open: "@ + why@ }),
        FileRead::ReadFailed(why) => Err(
            ErrorView::Io { path: from, message: "read file: "@ + why@ },
        ),
        FileRead::Text(text) => Ok(first_lines(text@, num_lines)),
    }
}

fn io_failure(from: &str, what: &str, why: &str) -> (e: Error)
    ensures
        e@ == (ErrorView::Io { path: from@, message: what@ + why@ }),
{
    let mut message = String::from_str(what);
    message.append(why);
    Error::io(from, message.as_str())
}

/// The first line of the file at `from`, without the white space around it,
/// given what came of reading that file.
pub fn read_line(from: &str, read: &FileRead) -> (r: Result<String, Error>)
    ensures
        outcome(r) == line_read(from@, *read),
{
    match read {
        FileRead::OpenFailed(why) => Err(io_failure(from, "open: ", why.as_str())),
        FileRead::ReadFailed(why) => Err(io_failure(from, "read line: ", why.as_str())),
        FileRead::Text(text) => Ok(String::from_str(trim(take_lines(text.as_str(), 1)))),
    }
}

/// The first `num_lines` lines of the file at `from`, line feeds included,
/// given what came of reading that file.
pub fn read_n_lines(from: &str, num_lines: usize, read: &FileRead) -> (r: Result<String, Error>)
    ensures
        outcome(r) == lines_read(from@, num_lines as nat, *read),
{
    match read {
        FileRead::OpenFailed(why) => Err(io_failure(from, "open: ", why.as_str())),
        FileRead::ReadFailed(why) => Err(io_failure(from, "read file: ", why.as_str())),
        FileRead::Text(text) => Ok(String::from_str(take_lines(text.as_str(), num_lines))),
    }
}

/// `numerator` of `denominator` in percent: scaled by a thousand, at most to
/// what a `u64` holds, divided, rounded half up to the next whole percent, and
/// never more than a hundred.
pub open spec fn percent(numerator: u64, denominator: u64) -> nat
    recommends
        denominator > 0,
{
    let scaled = if numerator * 1000 > u64::MAX {
        u64::MAX as int
    } else {
        numerator * 1000
    };
    let rounded = (scaled / denominator as int + 5) / 10;
    if rounded > 100 {
        100
    } else {
        rounded as nat
    }
}

/// A percentage lies between nothing and a hundred.
pub proof fn lemma_percent_range(numerator: u64, denominator: u64)
    requires
        denominator > 0,
    ensures
        percent(numerator, denominator) <= 100,
{
}

/// `numerator` of `denominator` in percent, rounded to the nearest whole
/// number and at most a hundred, in decimal.
pub fn rounded_percent(numerator: u64, denominator: u64) -> (r: Result<String, Error>)
    ensures
        denominator == 0 ==> outcome(r) == Err::<Seq<char>, ErrorView>(
            ErrorView::Calculation { message: "percent calculation with zero denominator"@ },
        ),
        denominator > 0 ==> outcome(r) == Ok::<Seq<char>, ErrorView>(
            decimal(percent(numerator, denominator)),
        ),
{
    if denominator == 0 {
        return Err(Error::calculation("percent calculation with zero denominator"));
    }
    let scaled: u64 = if numerator > u64::MAX / 1000 {
        u64::MAX
    } else {
        numerator * 1000
    };
    let per_mille: u64 = scaled / denominator;
    let percent: u64 = per_mille.saturating_add(5) / 10;
    let capped: u64 = if percent > 100 {
        100
    } else {
        percent
    };
    Ok(decimal_string(capped))
}

} // verus!
