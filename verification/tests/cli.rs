use tuxctl::about::Package;
use tuxctl::app::health::SAMPLING_PRESETS;
use tuxctl::cli::{help_text, parse, parse_interval, version_text, Command, USAGE};
use tuxctl::shutdown::Shutdown;
use tuxctl::time::SECOND;

fn parse_args(args: &[&str]) -> Result<Command, String> {
    parse(&args.iter().map(|arg| (*arg).to_owned()).collect())
}

#[test]
fn no_arguments_run_with_the_default_interval() {
    assert_eq!(parse_args(&[]), Ok(Command::Run { interval: SECOND }));
}

#[test]
fn every_preset_is_accepted_in_both_forms() {
    for (name, interval) in SAMPLING_PRESETS {
        let expected = Ok(Command::Run { interval });
        assert_eq!(parse_args(&["--interval", name]), expected, "{name}");
        assert_eq!(
            parse_args(&[&format!("--interval={name}")]),
            expected,
            "{name}"
        );
    }
}

#[test]
fn invalid_intervals_are_rejected_with_the_accepted_values() {
    for value in ["100ms", "1", "1.5s", "0s", "2m", "", "-1s"] {
        let error = parse_args(&["--interval", value]).unwrap_err();
        assert!(
            error.contains("250ms 500ms 1s 2s 5s 10s 30s 60s"),
            "{value}: {error}"
        );
    }
    assert_eq!(
        parse_args(&["--interval"]),
        Err("--interval requires a value".to_owned())
    );
    assert_eq!(
        parse_interval("7s"),
        Err(
            "invalid interval '7s' (expected one of: 250ms 500ms 1s 2s 5s 10s 30s 60s)".to_owned()
        )
    );
}

#[test]
fn unknown_arguments_are_errors() {
    for arg in ["--intervals=1s", "-i", "run", "--verbose"] {
        assert!(parse_args(&[arg]).is_err(), "{arg}");
    }
    assert_eq!(
        parse_args(&["run", "--help"]),
        Err("unexpected argument 'run'".to_owned())
    );
}

#[test]
fn help_and_version_win_over_other_arguments() {
    assert_eq!(parse_args(&["--interval", "5s", "-h"]), Ok(Command::Help));
    assert_eq!(parse_args(&["--help", "--bogus"]), Ok(Command::Help));
    assert_eq!(parse_args(&["-V"]), Ok(Command::Version));
    assert_eq!(parse_args(&["--version"]), Ok(Command::Version));
}

#[test]
fn the_last_interval_counts() {
    assert_eq!(
        parse_args(&["--interval=2s", "--interval", "250ms"]),
        Ok(Command::Run {
            interval: 250_000_000
        })
    );
    assert!(USAGE.contains("--interval <DURATION>"));
}

fn package() -> Package {
    Package {
        name: "tuxctl".into(),
        version: "0.1.0".into(),
        description: "a control center for Linux".into(),
        license: "a license".into(),
        repository: "where its sources are".into(),
        rust_version: "1.74".into(),
    }
}

#[test]
fn version_and_help_come_from_the_package_metadata() {
    assert_eq!(version_text(&package()), format!("tuxctl {}", "0.1.0"));
    let help = help_text(&package());
    assert!(help.contains("--interval <DURATION>"));
    assert!(help.contains(&package().repository));
}

#[test]
fn the_help_is_written_out_in_full() {
    let expected = "tuxctl 0.1.0 - a control center for Linux

Usage: tuxctl [OPTIONS]

Options:
      --interval <DURATION>  Sampling interval for CPU, memory and network (default: 1s)
                             One of: 250ms 500ms 1s 2s 5s 10s 30s 60s
                             Processes refresh at most once per second, services every 5s.
                             Press + / - inside tuxctl to change it while running.
  -h, --help                 Print help
  -V, --version              Print version

Press ? inside tuxctl for key bindings.
License: a license   Source: where its sources are
";

    assert_eq!(help_text(&package()), expected);
}

/// SIGTERM, SIGHUP and SIGINT.
const SIGNALS: [i32; 3] = [libc::SIGTERM, libc::SIGHUP, libc::SIGINT];

#[test]
fn nothing_is_requested_until_a_signal_arrives() {
    assert_eq!(Shutdown::default().requested(), None);
}

#[test]
fn the_received_signal_is_reported() {
    for signal in SIGNALS {
        let shutdown = Shutdown {
            signal: signal as usize,
        };
        assert_eq!(shutdown.requested(), Some(signal));
    }
}

#[test]
fn a_number_that_is_no_signal_is_not_reported() {
    assert_eq!(Shutdown { signal: usize::MAX }.requested(), None);
    assert_eq!(
        Shutdown {
            signal: i32::MAX as usize
        }
        .requested(),
        Some(i32::MAX)
    );
}
