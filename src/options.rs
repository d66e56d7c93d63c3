//! The options of the two benchmark modes, read from the words that follow
//! the mode on the command line.
use crate::cli::{parse_u64, parse_usize, same_text, CliError, Mode};
use crate::numbers::decimal_text_within;
use vstd::prelude::*;
use vstd::string::*;

verus! {

/// Series iterations when none are given.
pub const DEFAULT_LEIBNIZ_ITERATIONS: u64 = 50_000_000;

/// Monte-Carlo samples when none are given.
pub const DEFAULT_MONTE_CARLO_SAMPLES: u64 = 200_000_000;

/// What an option word asks for.
#[derive(Debug, Clone, Copy, PartialEq, Eq, Structural)]
pub enum OptionKind {
    /// The work size: iterations of the series, or samples.
    Count,
    Threads,
    Seed,
    SaveJson,
    Notes,
    Help,
}

/// The option that `word` names in `mode`, if any.
pub open spec fn option_named(mode: Mode, word: Seq<char>) -> Option<OptionKind> {
    if mode == Mode::Single && (word == "--iterations"@ || word == "-n"@) {
        Some(OptionKind::Count)
    } else if mode == Mode::Monte && (word == "--samples"@ || word == "-s"@) {
        Some(OptionKind::Count)
    } else if mode == Mode::Monte && (word == "--threads"@ || word == "-t"@) {
        Some(OptionKind::Threads)
    } else if mode == Mode::Monte && word == "--seed"@ {
        Some(OptionKind::Seed)
    } else if word == "--save-json"@ || word == "--json"@ || word == "--output-json"@ {
        Some(OptionKind::SaveJson)
    } else if word == "--notes"@ {
        Some(OptionKind::Notes)
    } else if word == "--help"@ || word == "-h"@ {
        Some(OptionKind::Help)
    } else {
        None
    }
}

/// The option that `word` names in `mode`, if any.
pub fn option_of(mode: Mode, word: &str) -> (r: Option<OptionKind>)
    ensures
        r == option_named(mode, word@),
{
    let single = match mode {
        Mode::Single => true,
        Mode::Monte => false,
    };
    if single && (same_text(word, "--iterations") || same_text(word, "-n")) {
        Some(OptionKind::Count)
    } else if !single && (same_text(word, "--samples") || same_text(word, "-s")) {
        Some(OptionKind::Count)
    } else if !single && (same_text(word, "--threads") || same_text(word, "-t")) {
        Some(OptionKind::Threads)
    } else if !single && same_text(word, "--seed") {
        Some(OptionKind::Seed)
    } else if same_text(word, "--save-json") || same_text(word, "--json") || same_text(
        word,
        "--output-json",
    ) {
        Some(OptionKind::SaveJson)
    } else if same_text(word, "--notes") {
        Some(OptionKind::Notes)
    } else if same_text(word, "--help") || same_text(word, "-h") {
        Some(OptionKind::Help)
    } else {
        None
    }
}

/// The long name of an option, as messages give it.
pub open spec fn long_name(mode: Mode, kind: OptionKind) -> Seq<char> {
    match kind {
        OptionKind::Count => if mode == Mode::Single {
            "--iterations"@
        } else {
            "--samples"@
        },
        OptionKind::Threads => "--threads"@,
        OptionKind::Seed => "--seed"@,
        OptionKind::SaveJson => "--save-json"@,
        OptionKind::Notes => "--notes"@,
        OptionKind::Help => "--help"@,
    }
}

fn long_name_of(mode: Mode, kind: OptionKind) -> (r: &'static str)
    ensures
        r@ == long_name(mode, kind),
{
    match kind {
        OptionKind::Count => match mode {
            Mode::Single => "--iterations",
            Mode::Monte => "--samples",
        },
        OptionKind::Threads => "--threads",
        OptionKind::Seed => "--seed",
        OptionKind::SaveJson => "--save-json",
        OptionKind::Notes => "--notes",
        OptionKind::Help => "--help",
    }
}

/// The name of a mode in messages.
pub open spec fn mode_word(mode: Mode) -> Seq<char> {
    if mode == Mode::Single {
        "single"@
    } else {
        "monte"@
    }
}

fn mode_word_of(mode: Mode) -> (r: &'static str)
    ensures
        r@ == mode_word(mode),
{
    match mode {
        Mode::Single => "single",
        Mode::Monte => "monte",
    }
}

/// The options read so far; text values are kept as the position of the word
/// that holds them.
#[derive(Debug, Clone, Copy, PartialEq, Eq, Structural)]
pub struct Scan {
    pub count: Option<u64>,
    pub threads: Option<usize>,
    pub seed: Option<u64>,
    pub json_at: Option<usize>,
    pub notes_at: Option<usize>,
    pub help: bool,
}

/// Why reading the options stopped, with the position of the offending word.
#[derive(Debug, Clone, Copy, PartialEq, Eq, Structural)]
pub enum ScanFailure {
    MissingValue(OptionKind),
    InvalidNumber(OptionKind, usize),
    UnknownFlag(usize),
}

pub open spec fn empty_scan() -> Scan {
    Scan { count: None, threads: None, seed: None, json_at: None, notes_at: None, help: false }
}

/// Reads the options from word `i` on, each option followed by its value; a
/// help option ends the reading.
pub open spec fn scan_from(mode: Mode, args: Seq<String>, i: nat, st: Scan) -> Result<
    Scan,
    ScanFailure,
>
    decreases args.len() - i,
{
    if i >= args.len() {
        Ok(st)
    } else {
        match option_named(mode, args[i as int]@) {
            None => Err(ScanFailure::UnknownFlag(i as usize)),
            Some(OptionKind::Help) => Ok(Scan { help: true, ..st }),
            Some(kind) => if i + 1 >= args.len() {
                Err(ScanFailure::MissingValue(kind))
            } else {
                let v = args[i + 1 as int]@;
                let next = (i + 2) as nat;
                match kind {
                    OptionKind::Count => match decimal_text_within(v, u64::MAX as nat) {
                        Some(n) => scan_from(mode, args, next, Scan { count: Some(n as u64), ..st }),
                        None => Err(ScanFailure::InvalidNumber(kind, (i + 1) as usize)),
                    },
                    OptionKind::Threads => match decimal_text_within(v, usize::MAX as nat) {
                        Some(n) => scan_from(
                            mode,
                            args,
                            next,
                            Scan { threads: Some(n as usize), ..st },
                        ),
                        None => Err(ScanFailure::InvalidNumber(kind, (i + 1) as usize)),
                    },
                    OptionKind::Seed => match decimal_text_within(v, u64::MAX as nat) {
                        Some(n) => scan_from(mode, args, next, Scan { seed: Some(n as u64), ..st }),
                        None => Err(ScanFailure::InvalidNumber(kind, (i + 1) as usize)),
                    },
                    OptionKind::SaveJson => scan_from(
                        mode,
                        args,
                        next,
                        Scan { json_at: Some((i + 1) as usize), ..st },
                    ),
                    _ => scan_from(
                        mode,
                        args,
                        next,
                        Scan { notes_at: Some((i + 1) as usize), ..st },
                    ),
                }
            },
        }
    }
}

/// The options of a run of one mode.
#[derive(Debug, PartialEq, Eq)]
pub struct RunOptions {
    pub mode: Mode,
    /// Iterations of the series, or samples of the sampling.
    pub count: u64,
    /// Worker threads; the machine's parallelism when absent.
    pub threads: Option<usize>,
    /// Base seed; derived from the clock when absent.
    pub seed: Option<u64>,
    /// File to append the run's record to.
    pub json_output: Option<String>,
    /// Free text stored with the run's record.
    pub notes: Option<String>,
    /// Whether the mode's usage was asked for instead of a run.
    pub help: bool,
}

pub open spec fn default_count(mode: Mode) -> u64 {
    if mode == Mode::Single {
        DEFAULT_LEIBNIZ_ITERATIONS
    } else {
        DEFAULT_MONTE_CARLO_SAMPLES
    }
}

pub open spec fn text_at(args: Seq<String>, at: Option<usize>, t: Option<String>) -> bool {
    match at {
        Some(k) => t matches Some(s) && k < args.len() && s@ == args[k as int]@,
        None => t is None,
    }
}

/// Whether `o` holds what the reading `st` found, with the defaults filled in.
pub open spec fn options_agree(o: RunOptions, mode: Mode, args: Seq<String>, st: Scan) -> bool {
    &&& o.mode == mode
    &&& o.count == match st.count {
        Some(n) => n,
        None => default_count(mode),
    }
    &&& o.threads == st.threads
    &&& o.seed == st.seed
    &&& text_at(args, st.json_at, o.json_output)
    &&& text_at(args, st.notes_at, o.notes)
    &&& o.help == st.help
}

/// Whether `e` reports the failure `f`.
pub open spec fn error_reports(e: CliError, mode: Mode, args: Seq<String>, f: ScanFailure) -> bool {
    match f {
        ScanFailure::MissingValue(kind) => e matches CliError::MissingValue(n) && n@ == long_name(
            mode,
            kind,
        ),
        ScanFailure::InvalidNumber(kind, at) => e matches CliError::InvalidNumber(n, v) && n@
            == long_name(mode, kind) && at < args.len() && v@ == args[at as int]@,
        ScanFailure::UnknownFlag(at) => e matches CliError::UnknownFlag(m, w) && m@ == mode_word(
            mode,
        ) && at < args.len() && w@ == args[at as int]@,
    }
}

/// Whether `r` is what the words `args` ask of `mode`: the options read, or
/// the failure that stopped the reading, or a zero work size or thread count.
pub open spec fn parsed_as(r: Result<RunOptions, CliError>, mode: Mode, args: Seq<String>) -> bool {
    match scan_from(mode, args, 0, empty_scan()) {
        Err(f) => r matches Err(e) && error_reports(e, mode, args, f),
        Ok(st) => if !st.help && st.count == Some(0u64) {
            r == Err::<RunOptions, CliError>(if mode == Mode::Single {
                CliError::ZeroIterations
            } else {
                CliError::ZeroSamples
            })
        } else if !st.help && st.threads == Some(0usize) {
            r == Err::<RunOptions, CliError>(CliError::ZeroThreads)
        } else {
            r matches Ok(o) && options_agree(o, mode, args, st)
        },
    }
}

fn text_of(args: &Vec<String>, at: Option<usize>) -> (r: Option<String>)
    requires
        at matches Some(k) ==> k < args@.len(),
    ensures
        text_at(args@, at, r),
{
    match at {
        Some(k) => Some(args[k].clone()),
        None => None,
    }
}

/// Reads the options of `mode` from `args`, the words after the mode.
pub fn parse_options(mode: Mode, args: &Vec<String>) -> (r: Result<RunOptions, CliError>)
    ensures
        parsed_as(r, mode, args@),
{
    let mut st = Scan {
        count: None,
        threads: None,
        seed: None,
        json_at: None,
        notes_at: None,
        help: false,
    };
    let mut i: usize = 0;
    let n = args.len();
    while i < n
        invariant
            n == args@.len(),
            i <= n,
            scan_from(mode, args@, 0, empty_scan()) == scan_from(mode, args@, i as nat, st),
            st.json_at matches Some(k) ==> k < n,
            st.notes_at matches Some(k) ==> k < n,
        ensures
            scan_from(mode, args@, 0, empty_scan()) == Ok::<Scan, ScanFailure>(st),
            st.json_at matches Some(k) ==> k < n,
            st.notes_at matches Some(k) ==> k < n,
        decreases n - i,
    {
        let kind = match option_of(mode, args[i].as_str()) {
            Some(k) => k,
            None => {
                return Err(CliError::UnknownFlag(String::from_str(mode_word_of(mode)), args[i].clone()));
            },
        };
        if let OptionKind::Help = kind {
            st.help = true;
            break;
        }
        if i + 1 >= n {
            return Err(CliError::MissingValue(String::from_str(long_name_of(mode, kind))));
        }
        let value = args[i + 1].as_str();
        let name = long_name_of(mode, kind);
        match kind {
            OptionKind::Count => match parse_u64(value, name) {
                Ok(v) => {
                    st.count = Some(v);
                },
                Err(e) => {
                    return Err(e);
                },
            },
            OptionKind::Threads => match parse_usize(value, name) {
                Ok(v) => {
                    st.threads = Some(v);
                },
                Err(e) => {
                    return Err(e);
                },
            },
            OptionKind::Seed => match parse_u64(value, name) {
                Ok(v) => {
                    st.seed = Some(v);
                },
                Err(e) => {
                    return Err(e);
                },
            },
            OptionKind::SaveJson => {
                st.json_at = Some(i + 1);
            },
            _ => {
                st.notes_at = Some(i + 1);
            },
        }
        i = i + 2;
    }
    if !st.help {
        if let Some(0) = st.count {
            return Err(
                match mode {
                    Mode::Single => CliError::ZeroIterations,
                    Mode::Monte => CliError::ZeroSamples,
                },
            );
        }
        if let Some(0) = st.threads {
            return Err(CliError::ZeroThreads);
        }
    }
    let count = match st.count {
        Some(c) => c,
        None => match mode {
            Mode::Single => DEFAULT_LEIBNIZ_ITERATIONS,
            Mode::Monte => DEFAULT_MONTE_CARLO_SAMPLES,
        },
    };
    Ok(
        RunOptions {
            mode,
            count,
            threads: st.threads,
            seed: st.seed,
            json_output: text_of(args, st.json_at),
            notes: text_of(args, st.notes_at),
            help: st.help,
        },
    )
}

} // verus!
