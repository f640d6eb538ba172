use plonk::options::{parse_args, CliOutcome};

fn argv(tokens: &[&str]) -> Vec<Vec<u8>> {
    tokens.iter().map(|t| t.as_bytes().to_vec()).collect()
}

#[test]
fn run_with_flags_and_forward() {
    let r = parse_args(&argv(&["run", "-p", "pkg", "-s", "greet", "--", "a", "b"]));
    match r {
        CliOutcome::Run(o) => {
            assert_eq!(o.package, b"pkg".to_vec());
            assert_eq!(o.symbol, Some(b"greet".to_vec()));
            assert!(!o.verbose);
            assert!(!o.release);
            assert!(!o.watch);
            assert_eq!(o.bin, None);
            assert_eq!(o.forward, vec![b"a".to_vec(), b"b".to_vec()]);
        }
        _ => panic!("expected a run command"),
    }
}

#[test]
fn build_with_long_flags() {
    let r = parse_args(&argv(&["build", "--release", "--verbose", "--watch", "--bin", "x"]));
    match r {
        CliOutcome::Build(o) => {
            assert!(o.release);
            assert!(o.verbose);
            assert!(o.watch);
            assert_eq!(o.bin, Some(b"x".to_vec()));
            assert_eq!(o.package, b".".to_vec());
            assert!(o.forward.is_empty());
        }
        _ => panic!("expected a build command"),
    }
}

#[test]
fn help_anywhere_wins() {
    let r = parse_args(&argv(&["run", "-h", "-s", "greet"]));
    assert!(matches!(r, CliOutcome::Help));
}

#[test]
fn help_is_not_found_in_forwarded_tokens() {
    let r = parse_args(&argv(&["run", "-s", "g", "--", "-h"]));
    match r {
        CliOutcome::Run(o) => assert_eq!(o.forward, vec![b"-h".to_vec()]),
        _ => panic!("expected a run command"),
    }
}

#[test]
fn unknown_flag_is_an_error() {
    let r = parse_args(&argv(&["run", "--frobnicate"]));
    assert!(matches!(r, CliOutcome::Unknown));
}

#[test]
fn stray_positional_is_an_error() {
    let r = parse_args(&argv(&["run", "extra"]));
    assert!(matches!(r, CliOutcome::Unknown));
}

#[test]
fn own_name_as_first_positional_is_skipped() {
    // Invoked as a subcommand of the outer build tool.
    let r = parse_args(&argv(&["plonk", "run", "-s", "greet"]));
    match r {
        CliOutcome::Run(o) => assert_eq!(o.symbol, Some(b"greet".to_vec())),
        _ => panic!("expected a run command"),
    }
}

#[test]
fn no_subcommand_prints_help() {
    assert!(matches!(parse_args(&argv(&["-v"])), CliOutcome::NoCommand));
    assert!(matches!(parse_args(&argv(&[])), CliOutcome::NoCommand));
}
