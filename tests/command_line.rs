use pi_bench::cli::{matches_help, mode_of, parse_u64, parse_usize, CliError, Mode};
use pi_bench::numbers::{format_number, parse_decimal};
use pi_bench::options::{parse_options, RunOptions};

fn words(ws: &[&str]) -> Vec<String> {
    ws.iter().map(|w| w.to_string()).collect()
}

#[test]
fn numbers_ignore_underscores() {
    assert_eq!(parse_u64("1_000_000", "--samples"), Ok(1_000_000));
    assert_eq!(parse_u64("+42", "--seed"), Ok(42));
    assert_eq!(parse_u64("18_446_744_073_709_551_615", "--seed"), Ok(u64::MAX));
    assert_eq!(parse_usize("8", "--threads"), Ok(8));
    assert_eq!(parse_decimal("_7_"), Some(7));
}

#[test]
fn bad_numbers_are_rejected() {
    for bad in ["", "_", "+", "-1", "12a", "1.5", "18446744073709551616", " 1"] {
        assert_eq!(
            parse_u64(bad, "--samples"),
            Err(CliError::InvalidNumber("--samples".to_string(), bad.to_string())),
            "{bad:?}"
        );
        assert_eq!(bad.replace('_', "").parse::<u64>().is_ok(), false);
    }
    let e = parse_u64("x", "--iterations").unwrap_err();
    assert_eq!(e.message(), "Could not parse value for --iterations: x");
}

#[test]
fn thousands_are_grouped() {
    assert_eq!(format_number(0), "0");
    assert_eq!(format_number(999), "999");
    assert_eq!(format_number(1_000), "1,000");
    assert_eq!(format_number(200_000_000), "200,000,000");
    assert_eq!(format_number(1_234_567), "1,234,567");
    assert_eq!(format_number(u64::MAX), "18,446,744,073,709,551,615");
}

#[test]
fn help_words() {
    assert!(matches_help("-h"));
    assert!(matches_help("--help"));
    assert!(matches_help("help"));
    assert!(!matches_help("-help"));
    assert!(!matches_help(""));
}

#[test]
fn mode_words() {
    assert_eq!(mode_of("single"), Some(Mode::Single));
    assert_eq!(mode_of("leibniz"), Some(Mode::Single));
    for w in ["monte", "monte-carlo", "multi", "multi-thread"] {
        assert_eq!(mode_of(w), Some(Mode::Monte));
    }
    assert_eq!(mode_of("triple"), None);
}

#[test]
fn single_defaults() {
    let o = parse_options(Mode::Single, &vec![]).unwrap();
    assert_eq!(
        o,
        RunOptions {
            mode: Mode::Single,
            count: 50_000_000,
            threads: None,
            seed: None,
            json_output: None,
            notes: None,
            help: false,
        }
    );
}

#[test]
fn monte_options_are_read() {
    let args = words(&["-s", "1_000", "--threads", "4", "--seed", "42", "--json", "out.json", "--notes", "hi"]);
    let o = parse_options(Mode::Monte, &args).unwrap();
    assert_eq!(o.count, 1_000);
    assert_eq!(o.threads, Some(4));
    assert_eq!(o.seed, Some(42));
    assert_eq!(o.json_output.as_deref(), Some("out.json"));
    assert_eq!(o.notes.as_deref(), Some("hi"));
    assert!(!o.help);
}

#[test]
fn option_errors() {
    let e = parse_options(Mode::Single, &words(&["--threads", "4"])).unwrap_err();
    assert_eq!(e, CliError::UnknownFlag("single".to_string(), "--threads".to_string()));
    assert_eq!(e.message(), "Unknown flag for single mode: --threads");
    let e = parse_options(Mode::Monte, &words(&["--samples"])).unwrap_err();
    assert_eq!(e.message(), "Missing value for --samples");
    let e = parse_options(Mode::Single, &words(&["-n"])).unwrap_err();
    assert_eq!(e, CliError::MissingValue("--iterations".to_string()));
    let e = parse_options(Mode::Single, &words(&["-n", "0"])).unwrap_err();
    assert_eq!(e, CliError::ZeroIterations);
    assert_eq!(e.message(), "Iterations must be greater than zero");
    let e = parse_options(Mode::Monte, &words(&["-s", "0"])).unwrap_err();
    assert_eq!(e, CliError::ZeroSamples);
    let e = parse_options(Mode::Monte, &words(&["-t", "0"])).unwrap_err();
    assert_eq!(e, CliError::ZeroThreads);
    assert_eq!(e.message(), "Thread count must be at least 1");
    let e = parse_options(Mode::Monte, &words(&["-t", "x"])).unwrap_err();
    assert_eq!(e, CliError::InvalidNumber("--threads".to_string(), "x".to_string()));
}

#[test]
fn help_stops_reading() {
    let o = parse_options(Mode::Monte, &words(&["-s", "0", "--help", "--bogus"])).unwrap();
    assert!(o.help);
    let o = parse_options(Mode::Single, &words(&["-h"])).unwrap();
    assert!(o.help);
}
