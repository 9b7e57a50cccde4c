use clap::builder::PathBufValueParser;
use clap::error::ErrorKind;
use clap::{Arg, ArgAction, ArgMatches, Command};
use std::path::PathBuf;
use warden_ctl::regulatory::{
    after_write, bad_ledger_url, check_window, export_failed, export_request, export_window,
    show_mebibytes, to_stdout, unreadable_readme, ExportArgs, FaultKind, FileFault, RegulatoryArgs,
    RegulatoryCommand,
};
use warden_ctl::report::{Answer, ExitCode, Failure, Printed};
use warden_ctl::time::Instant;

fn cli() -> Command {
    let path = PathBufValueParser::new;
    Command::new("wardenctl").subcommand(
        Command::new("regulatory").subcommand(
            Command::new("export")
                .arg(Arg::new("from").long("from").required(true))
                .arg(Arg::new("to").long("to").required(true))
                .arg(Arg::new("readme").long("readme").value_parser(path()))
                .arg(
                    Arg::new("include_exports")
                        .long("include-exports")
                        .action(ArgAction::SetTrue),
                )
                .arg(Arg::new("ledger_url").long("ledger-url"))
                .arg(Arg::new("output").long("output").required(true).value_parser(path())),
        ),
    )
}

fn text(m: &ArgMatches, name: &str) -> Option<String> {
    m.get_one::<String>(name).cloned()
}

fn parse(line: &[&str]) -> Result<RegulatoryArgs, clap::Error> {
    let matches = cli().try_get_matches_from(line)?;
    let (_, regulatory) = matches.subcommand().expect("regulatory");
    let (_, m) = regulatory.subcommand().expect("export");
    Ok(RegulatoryArgs {
        command: RegulatoryCommand::Export(ExportArgs {
            from: text(m, "from").unwrap(),
            to: text(m, "to").unwrap(),
            readme: m.get_one::<PathBuf>("readme").cloned(),
            include_exports: m.get_flag("include_exports"),
            ledger_url: text(m, "ledger_url"),
            output: m.get_one::<PathBuf>("output").cloned().unwrap(),
        }),
    })
}

#[test]
fn parses_minimal_export_invocation() {
    let reg = parse(&[
        "wardenctl",
        "regulatory",
        "export",
        "--from",
        "2026-04-01T00:00:00Z",
        "--to",
        "2026-05-01T00:00:00Z",
        "--output",
        "/tmp/bundle.tar.gz",
    ])
    .expect("minimal export must parse");
    match reg.command {
        RegulatoryCommand::Export(args) => {
            assert_eq!(args.from, "2026-04-01T00:00:00Z");
            assert_eq!(args.to, "2026-05-01T00:00:00Z");
            assert!(args.readme.is_none());
            assert!(!args.include_exports);
            assert_eq!(args.output, PathBuf::from("/tmp/bundle.tar.gz"));
            assert!(export_window(&args).is_ok());
        }
    }
}

#[test]
fn parses_full_export_invocation_with_readme_and_pointers() {
    let reg = parse(&[
        "wardenctl",
        "regulatory",
        "export",
        "--from",
        "2026-04-01T00:00:00Z",
        "--to",
        "2026-05-01T00:00:00Z",
        "--readme",
        "/tmp/prose.md",
        "--include-exports",
        "--ledger-url",
        "http://ledger.test:8083",
        "--output",
        "/tmp/bundle.tar.gz",
    ])
    .expect("full export must parse");
    match reg.command {
        RegulatoryCommand::Export(args) => {
            assert_eq!(args.readme, Some(PathBuf::from("/tmp/prose.md")));
            assert!(args.include_exports);
            assert_eq!(args.ledger_url.as_deref(), Some("http://ledger.test:8083"),);
        }
    }
}

#[test]
fn rejects_missing_required_args() {
    // --output is required.
    let err = parse(&[
        "wardenctl",
        "regulatory",
        "export",
        "--from",
        "2026-04-01T00:00:00Z",
        "--to",
        "2026-05-01T00:00:00Z",
    ])
    .expect_err("missing --output must error");
    assert_eq!(err.kind(), ErrorKind::MissingRequiredArgument);
}

fn fault(kind: FaultKind, message: &str) -> FileFault {
    FileFault { kind, message: message.into() }
}

#[test]
fn the_ledger_is_asked_as_the_arguments_say() {
    let mut args = window("2026-04-01T00:00:00Z", "2026-05-01T00:00:00Z");
    let bounds = export_window(&args).unwrap();
    let request = export_request(&args, bounds, vec![]);
    assert_eq!(request.from, bounds.from);
    assert_eq!(request.to, bounds.to);
    assert_eq!(request.readme, None);
    assert!(!request.include_exports);
    args.readme = Some(PathBuf::from("/tmp/prose.md"));
    args.include_exports = true;
    let request = export_request(&args, bounds, b"prose".to_vec());
    assert_eq!(request.readme, Some(b"prose".to_vec()));
    assert!(request.include_exports);
    args.readme = Some(PathBuf::from("empty.md"));
    assert_eq!(export_request(&args, bounds, vec![]).readme, Some(vec![]));
}

fn window(from: &str, to: &str) -> ExportArgs {
    ExportArgs {
        from: from.into(),
        to: to.into(),
        readme: None,
        include_exports: false,
        ledger_url: None,
        output: PathBuf::from("-"),
    }
}

#[test]
fn windows_are_read_in_utc() {
    let w = export_window(&window("1970-01-02T00:00:00.5Z", "1970-01-02T02:00:00+01:00")).unwrap();
    assert_eq!(w.from, Instant { secs: 86_400, nanos: 500_000_000 });
    assert_eq!(w.to, Instant { secs: 90_000, nanos: 0 });
}

#[test]
fn a_window_must_go_forward() {
    for (from, to) in [
        ("2026-04-01T00:00:00Z", "2026-04-01T00:00:00Z"),
        ("2026-04-01T00:00:00Z", "2026-04-01T01:00:00+01:00"),
        ("2026-04-01T00:00:00.1Z", "2026-04-01T00:00:00Z"),
    ] {
        let report = export_window(&window(from, to)).unwrap_err();
        assert_eq!(report.stderr, "error: --from must be strictly less than --to\n");
        assert_eq!(report.exit, ExitCode::Validation);
    }
}

#[test]
fn bounds_must_be_rfc_3339() {
    let words = |s: &str| chrono::DateTime::parse_from_rfc3339(s).unwrap_err().to_string();
    let report = export_window(&window("yesterday", "today")).unwrap_err();
    assert_eq!(
        report.stderr,
        format!("error: --from must be RFC 3339: {}\n", words("yesterday"))
    );
    let report = export_window(&window("2026-04-01T00:00:00Z", "2026-04-31T00:00:00Z"));
    let report = report.unwrap_err();
    assert_eq!(
        report.stderr,
        format!("error: --to must be RFC 3339: {}\n", words("2026-04-31T00:00:00Z"))
    );
    assert_eq!(report.exit, ExitCode::Validation);
}

#[test]
fn the_lower_bound_is_looked_at_first() {
    let t = Instant { secs: 1, nanos: 0 };
    let report = check_window(Err("a".into()), Err("b".into())).unwrap_err();
    assert_eq!(report.stderr, "error: --from must be RFC 3339: a\n");
    let report = check_window(Ok(t), Err("b".into())).unwrap_err();
    assert_eq!(report.stderr, "error: --to must be RFC 3339: b\n");
    assert!(check_window(Ok(t), Ok(t)).is_err());
    assert!(check_window(Ok(t), Ok(Instant { secs: 1, nanos: 1 })).is_ok());
}

#[test]
fn export_faults_have_their_words_and_codes() {
    let report = unreadable_readme("p.md", &fault(FaultKind::Path, "not found"));
    assert_eq!(report.stderr, "error: read --readme p.md: not found\n");
    assert_eq!(report.exit, ExitCode::Validation);
    let report = unreadable_readme("p.md", &fault(FaultKind::Permission, "denied"));
    assert_eq!(report.exit, ExitCode::Validation);
    let report = unreadable_readme("p.md", &fault(FaultKind::Other, "bad sector"));
    assert_eq!(report.exit, ExitCode::Server);
    let report = bad_ledger_url("nope", "relative");
    assert_eq!(report.stderr, "error: invalid ledger URL 'nope': relative\n");
    assert_eq!(report.exit, ExitCode::Validation);
    let answered = |status: u16| {
        export_failed(&Failure {
            message: "m".into(),
            answer: Some(Answer { status, body: "readme too big".into() }),
        })
    };
    let report = answered(400);
    assert_eq!(report.stderr, "error: ledger 400 Bad Request: readme too big\n");
    assert_eq!(report.exit, ExitCode::Validation);
    assert_eq!(
        answered(799).stderr,
        "error: ledger 799 <unknown status code>: readme too big\n"
    );
    let report = export_failed(&Failure { message: "refused".into(), answer: None });
    assert_eq!(report.stderr, "error: regulatory export: refused\n");
    assert_eq!(report.exit, ExitCode::Server);
}

#[test]
fn a_dash_is_standard_output() {
    assert!(to_stdout("-"));
    assert!(!to_stdout("--"));
    assert!(!to_stdout(""));
}

#[test]
fn sizes_are_those_of_the_float_formatter() {
    assert_eq!(show_mebibytes(0), "0.00");
    assert_eq!(show_mebibytes(1_048_576), "1.00");
    // Halfway between two hundredths the even one is told.
    assert_eq!(show_mebibytes(131_072), "0.12");
    assert_eq!(show_mebibytes(393_216), "0.38");
    let mut len: u64 = 1;
    for step in 0..200_000u64 {
        let float = format!("{:.2}", len as f64 / 1024.0 / 1024.0);
        assert_eq!(show_mebibytes(len), float);
        len = (len * 31 + step) % 0x20_0000_0000_0000;
    }
    for odd in 0..4_000u64 {
        let len = (2 * odd + 1) * 131_072;
        let float = format!("{:.2}", len as f64 / 1024.0 / 1024.0);
        assert_eq!(show_mebibytes(len), float);
    }
}

#[test]
fn the_bundle_is_written_or_not() {
    let empty = |p: &Printed| matches!(p, Printed::Text(t) if t.is_empty());
    let report = after_write(true, "-", 10, &None);
    assert_eq!(report.stderr, "");
    assert!(empty(&report.stdout));
    assert_eq!(report.exit, ExitCode::Success);
    let report = after_write(false, "b.tar.gz", 2_621_440, &None);
    assert_eq!(report.stderr, "wrote b.tar.gz (2.50 MiB)\n");
    assert!(empty(&report.stdout));
    assert_eq!(report.exit, ExitCode::Success);
    let broken = Some(fault(FaultKind::Other, "broken pipe"));
    let report = after_write(true, "-", 10, &broken);
    assert_eq!(report.stderr, "error: write stdout: broken pipe\n");
    assert_eq!(report.exit, ExitCode::Server);
    for (kind, exit) in [
        (FaultKind::Path, ExitCode::Validation),
        (FaultKind::Permission, ExitCode::Validation),
        (FaultKind::Other, ExitCode::Server),
    ] {
        let report = after_write(false, "b.tar.gz", 10, &Some(fault(kind, "no luck")));
        assert_eq!(report.stderr, "error: write b.tar.gz: no luck\n");
        assert!(empty(&report.stdout));
        assert_eq!(report.exit, exit);
    }
}
