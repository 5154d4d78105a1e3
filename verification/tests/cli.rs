use tilecap::cli::{Args, CliError, Mode, Output};

#[test]
fn parse_cli_defaults() {
    let args = Args::try_parse_from(&["tilecap"]).unwrap();
    assert!(matches!(args.mode, Mode::Full));
    assert!(matches!(args.output, Output::File));
    assert!(args.dir.is_none());
    assert!(args.name.is_none());
    assert!(args.geometry.is_none());
}

#[test]
fn parse_cli_mode() {
    let a = Args::try_parse_from(&["tilecap", "-m", "window"]).unwrap();
    assert!(matches!(a.mode, Mode::Window));
    let a = Args::try_parse_from(&["tilecap", "--mode", "region"]).unwrap();
    assert!(matches!(a.mode, Mode::Region));
}

#[test]
fn parse_cli_output() {
    let a = Args::try_parse_from(&["tilecap", "-o", "clipboard"]).unwrap();
    assert!(matches!(a.output, Output::Clipboard));
}

#[test]
fn parse_cli_geometry() {
    let a = Args::try_parse_from(&["tilecap", "-r", "800x600+100+50"]).unwrap();
    assert_eq!(a.geometry.as_deref(), Some("800x600+100+50"));
}

#[test]
fn parse_cli_dir() {
    let a = Args::try_parse_from(&["tilecap", "-d", "/tmp"]).unwrap();
    assert_eq!(a.dir.as_deref(), Some("/tmp"));
}

#[test]
fn parse_cli_name() {
    let a = Args::try_parse_from(&["tilecap", "-n", "myshot"]).unwrap();
    assert_eq!(a.name.as_deref(), Some("myshot"));
}

#[test]
fn parse_cli_config() {
    let a = Args::try_parse_from(&["tilecap", "-c", "/cfg/tilecap.toml"]).unwrap();
    assert_eq!(a.config.as_deref(), Some("/cfg/tilecap.toml"));
}

#[test]
fn parse_cli_unknown_option_fails() {
    assert!(Args::try_parse_from(&["tilecap", "--bogus"]).is_err());
}

#[test]
fn parse_cli_missing_value_fails() {
    assert!(Args::try_parse_from(&["tilecap", "-m"]).is_err());
    assert!(Args::try_parse_from(&["tilecap", "-o"]).is_err());
}

#[test]
fn cli_attached_values() {
    let a = Args::try_parse_from(&["tilecap", "-mregion", "-o=clipboard", "--dir=/x=y", "-n="]).unwrap();
    assert!(matches!(a.mode, Mode::Region));
    assert!(matches!(a.output, Output::Clipboard));
    assert_eq!(a.dir.as_deref(), Some("/x=y"));
    assert_eq!(a.name.as_deref(), Some(""));
    let a = Args::try_parse_from(&["tilecap", "--geometry", "-", "--config", ""]).unwrap();
    assert_eq!(a.geometry.as_deref(), Some("-"));
    assert_eq!(a.config.as_deref(), Some(""));
}

#[test]
fn cli_error_kinds() {
    let e = |v: &[&str]| Args::try_parse_from(v).unwrap_err();
    assert_eq!(e(&["tilecap", "--help"]), CliError::Help);
    assert_eq!(e(&["tilecap", "-h"]), CliError::Help);
    assert_eq!(e(&["tilecap", "--help=x"]), CliError::UnexpectedValue);
    assert_eq!(e(&["tilecap", "--bogus"]), CliError::UnknownArgument);
    assert_eq!(e(&["tilecap", "-x"]), CliError::UnknownArgument);
    assert_eq!(e(&["tilecap", "stray"]), CliError::UnexpectedArgument);
    assert_eq!(e(&["tilecap", "--", "x"]), CliError::UnexpectedArgument);
    assert_eq!(e(&["tilecap", "-m"]), CliError::MissingValue);
    assert_eq!(e(&["tilecap", "-d", "-m", "full"]), CliError::MissingValue);
    assert_eq!(e(&["tilecap", "-d", "--"]), CliError::MissingValue);
    assert_eq!(e(&["tilecap", "-m", "unknown"]), CliError::InvalidValue);
    assert_eq!(e(&["tilecap", "-m", "Full"]), CliError::InvalidValue);
    assert_eq!(e(&["tilecap", "-o", "x"]), CliError::InvalidValue);
    assert_eq!(e(&["tilecap", "-n", "a", "--name", "b"]), CliError::DuplicateArgument);
    assert_eq!(e(&["tilecap", "-r", "-5x5+0+0"]), CliError::UnknownArgument);
}

#[test]
fn cli_empty_and_escape() {
    let a = Args::try_parse_from(&[]).unwrap();
    assert!(matches!(a.mode, Mode::Full));
    let a = Args::try_parse_from(&["tilecap", "--"]).unwrap();
    assert!(matches!(a.output, Output::File));
}
