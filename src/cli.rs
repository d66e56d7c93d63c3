//! Decisions of the benchmark's command line: modes, help flags, numeric
//! option values and the messages of rejected input.
use crate::numbers::{decimal_text_within, parse_decimal};
use vstd::prelude::*;
use vstd::string::*;

verus! {

/// Whether two strings hold the same characters.
pub fn same_text(a: &str, b: &str) -> (r: bool)
    ensures
        r == (a@ == b@),
{
    let n = a.unicode_len();
    if n != b.unicode_len() {
        return false;
    }
    let mut i: usize = 0;
    while i < n
        invariant
            n == a@.len(),
            n == b@.len(),
            i <= n,
            forall|k: int| 0 <= k < i ==> a@[k] == b@[k],
        decreases n - i,
    {
        if a.get_char(i) != b.get_char(i) {
            return false;
        }
        i = i + 1;
    }
    assert(a@ =~= b@);
    true
}

/// Whether `flag` asks for help.
pub open spec fn is_help_flag(flag: Seq<char>) -> bool {
    flag == "-h"@ || flag == "--help"@ || flag == "help"@
}

/// Whether `flag` asks for help: `-h`, `--help` or `help`.
pub fn matches_help(flag: &str) -> (r: bool)
    ensures
        r == is_help_flag(flag@),
{
    same_text(flag, "-h") || same_text(flag, "--help") || same_text(flag, "help")
}

/// The two ways the benchmark estimates π.
#[derive(Debug, Clone, Copy, PartialEq, Eq, Structural)]
pub enum Mode {
    /// The alternating series, on one thread.
    Single,
    /// Monte-Carlo sampling over worker threads.
    Monte,
}

/// The mode a command-line word names.
pub open spec fn mode_named(name: Seq<char>) -> Option<Mode> {
    if name == "single"@ || name == "leibniz"@ {
        Some(Mode::Single)
    } else if name == "monte"@ || name == "monte-carlo"@ || name == "multi"@ || name
        == "multi-thread"@ {
        Some(Mode::Monte)
    } else {
        None
    }
}

/// The mode `name` selects, if any.
pub fn mode_of(name: &str) -> (r: Option<Mode>)
    ensures
        r == mode_named(name@),
{
    if same_text(name, "single") || same_text(name, "leibniz") {
        Some(Mode::Single)
    } else if same_text(name, "monte") || same_text(name, "monte-carlo") || same_text(
        name,
        "multi",
    ) || same_text(name, "multi-thread") {
        Some(Mode::Monte)
    } else {
        None
    }
}

/// Input the command line rejects.
#[derive(Debug, PartialEq, Eq)]
pub enum CliError {
    /// An option that takes a value came last; holds the option's long name.
    MissingValue(String),
    /// An option's value is not a number of the right range; holds the
    /// option's long name and the value.
    InvalidNumber(String, String),
    /// A word that is no option of the mode; holds the mode's name and the word.
    UnknownFlag(String, String),
    /// The series was asked for no iterations.
    ZeroIterations,
    /// The sampling was asked for no samples.
    ZeroSamples,
    /// The sampling was asked for no threads.
    ZeroThreads,
}

/// The text of an error.
pub open spec fn error_text(e: CliError) -> Seq<char> {
    match e {
        CliError::MissingValue(flag) => "Missing value for "@ + flag@,
        CliError::InvalidNumber(flag, value) => "Could not parse value for "@ + flag@ + ": "@
            + value@,
        CliError::UnknownFlag(mode, flag) => "Unknown flag for "@ + mode@ + " mode: "@ + flag@,
        CliError::ZeroIterations => "Iterations must be greater than zero"@,
        CliError::ZeroSamples => "Samples must be greater than zero"@,
        CliError::ZeroThreads => "Thread count must be at least 1"@,
    }
}

impl CliError {
    /// The error as a sentence for the user.
    pub fn message(&self) -> (r: String)
        ensures
            r@ == error_text(*self),
    {
        match self {
            CliError::MissingValue(flag) => {
                let mut out = String::from_str("Missing value for ");
                out.append(flag.as_str());
                out
            },
            CliError::InvalidNumber(flag, value) => {
                let mut out = String::from_str("Could not parse value for ");
                out.append(flag.as_str());
                out.append(": ");
                out.append(value.as_str());
                out
            },
            CliError::UnknownFlag(mode, flag) => {
                let mut out = String::from_str("Unknown flag for ");
                out.append(mode.as_str());
                out.append(" mode: ");
                out.append(flag.as_str());
                out
            },
            CliError::ZeroIterations => String::from_str("Iterations must be greater than zero"),
            CliError::ZeroSamples => String::from_str("Samples must be greater than zero"),
            CliError::ZeroThreads => String::from_str("Thread count must be at least 1"),
        }
    }
}

/// Reads the value of option `flag` as a `u64`; underscores are ignored.
pub fn parse_u64(value: &str, flag: &str) -> (r: Result<u64, CliError>)
    ensures
        decimal_text_within(value@, u64::MAX as nat) matches Some(n) ==> r == Ok::<
            u64,
            CliError,
        >(n as u64),
        decimal_text_within(value@, u64::MAX as nat) is None ==> (r matches Err(
            CliError::InvalidNumber(f, v),
        ) && f@ == flag@ && v@ == value@),
{
    match parse_decimal(value) {
        Some(n) => Ok(n),
        None => Err(CliError::InvalidNumber(flag.to_owned(), value.to_owned())),
    }
}

/// Reads the value of option `flag` as a `usize`; underscores are ignored.
pub fn parse_usize(value: &str, flag: &str) -> (r: Result<usize, CliError>)
    ensures
        decimal_text_within(value@, usize::MAX as nat) matches Some(n) ==> r == Ok::<
            usize,
            CliError,
        >(n as usize),
        decimal_text_within(value@, usize::MAX as nat) is None ==> (r matches Err(
            CliError::InvalidNumber(f, v),
        ) && f@ == flag@ && v@ == value@),
{
    match parse_decimal(value) {
        Some(n) => {
            if n <= usize::MAX as u64 {
                Ok(n as usize)
            } else {
                Err(CliError::InvalidNumber(flag.to_owned(), value.to_owned()))
            }
        },
        None => Err(CliError::InvalidNumber(flag.to_owned(), value.to_owned())),
    }
}

} // verus!
