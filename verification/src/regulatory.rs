//! `wardenctl regulatory export`: a bundle for a regulator.

use crate::report::{
    complain, complaint, exit_of_failure, exit_of_status, show_status, status_text, ExitCode,
    Failure, FailureView, Printed, PrintedView, Report, ReportView,
};
use crate::text::{decimal, decimal_reads_back, digit, digits_value, is_digits, same, show};
use crate::time::{parse_rfc3339, rfc3339_instant, Instant};
use vstd::prelude::*;
use vstd::string::*;

verus! {

/// The arguments of `regulatory`.
#[derive(Debug)]
pub struct RegulatoryArgs {
    pub command: RegulatoryCommand,
}

/// The verbs of `regulatory`.
#[derive(Debug)]
pub enum RegulatoryCommand {
    /// Build the bundle for a window of time.
    Export(ExportArgs),
}

/// The arguments of `regulatory export`.
#[derive(Debug)]
pub struct ExportArgs {
    /// Where the window begins, in RFC 3339.
    pub from: String,
    /// Where the window ends, in RFC 3339; not part of it.
    pub to: String,
    /// Prose to put into the bundle.
    pub readme: Option<std::path::PathBuf>,
    /// Point to the ledger's cold-tier snapshots too.
    pub include_exports: bool,
    /// The ledger's address.
    pub ledger_url: Option<String>,
    /// Where the bundle goes; `-` is standard output.
    pub output: std::path::PathBuf,
}

/// A window of time; its end is not part of it.
#[derive(Debug, Clone, Copy, PartialEq, Eq, Structural)]
pub struct ExportWindow {
    pub from: Instant,
    pub to: Instant,
}

/// What is wrong with the bounds of a window; the lower bound is looked at
/// first.
pub open spec fn window_fault(
    from: Result<Instant, Seq<char>>,
    to: Result<Instant, Seq<char>>,
) -> Option<Seq<char>> {
    match from {
        Err(e) => Some("--from must be RFC 3339: "@ + e),
        Ok(from) => match to {
            Err(e) => Some("--to must be RFC 3339: "@ + e),
            Ok(to) => if from.before(to) {
                None
            } else {
                Some("--from must be strictly less than --to"@)
            },
        },
    }
}

/// A bound as it was read.
pub open spec fn bound_of(read: Result<Instant, String>) -> Result<Instant, Seq<char>> {
    match read {
        Ok(t) => Ok(t),
        Err(e) => Err(e@),
    }
}

/// The bound that a text stands for.
pub open spec fn bound_in(text: Seq<char>) -> Result<Instant, Seq<char>> {
    match rfc3339_instant(text) {
        Ok((secs, nanos)) => Ok(Instant { secs, nanos }),
        Err(e) => Err(e),
    }
}

/// The window between two bounds as they were read, or the report of what is
/// wrong with them.
pub fn check_window(from: Result<Instant, String>, to: Result<Instant, String>) -> (r: Result<
    ExportWindow,
    Report,
>)
    ensures
        match window_fault(bound_of(from), bound_of(to)) {
            Some(text) => r matches Err(report) && report@ == complaint(text, ExitCode::Validation),
            None => r matches Ok(window) && from == Ok::<Instant, String>(window.from) && to == Ok::<
                Instant,
                String,
            >(window.to),
        },
        r is Ok <==> from is Ok && to is Ok && (from->Ok_0.secs < to->Ok_0.secs || (
        from->Ok_0.secs == to->Ok_0.secs && from->Ok_0.nanos < to->Ok_0.nanos)),
        r matches Err(report) ==> report.exit == ExitCode::Validation && report.stderr@ == "error: "@
            + (if from is Err {
            "--from must be RFC 3339: "@ + from->Err_0@
        } else if to is Err {
            "--to must be RFC 3339: "@ + to->Err_0@
        } else {
            "--from must be strictly less than --to"@
        }) + "\n"@,
{
    match from {
        Err(e) => {
            let mut text = "--from must be RFC 3339: ".to_owned();
            text.append(e.as_str());
            Err(complain(text.as_str(), ExitCode::Validation))
        },
        Ok(from) => match to {
            Err(e) => {
                let mut text = "--to must be RFC 3339: ".to_owned();
                text.append(e.as_str());
                Err(complain(text.as_str(), ExitCode::Validation))
            },
            Ok(to) => if from.is_before(&to) {
                Ok(ExportWindow { from, to })
            } else {
                Err(complain("--from must be strictly less than --to", ExitCode::Validation))
            },
        },
    }
}

/// The window that the arguments ask for, or the report of what is wrong with
/// it. Nothing is read or sent before that is known.
pub fn export_window(args: &ExportArgs) -> (r: Result<ExportWindow, Report>)
    ensures
        match window_fault(bound_in(args.from@), bound_in(args.to@)) {
            Some(text) => r matches Err(report) && report@ == complaint(text, ExitCode::Validation),
            None => r matches Ok(window) && bound_in(args.from@) == Ok::<Instant, Seq<char>>(
                window.from,
            ) && bound_in(args.to@) == Ok::<Instant, Seq<char>>(window.to),
        },
{
    let from = parse_rfc3339(args.from.as_str());
    let to = parse_rfc3339(args.to.as_str());
    assert(bound_of(from) == bound_in(args.from@));
    assert(bound_of(to) == bound_in(args.to@));
    check_window(from, to)
}

/// What kind of obstacle kept a file from being read or written.
#[derive(Debug, Clone, Copy, PartialEq, Eq, Structural)]
pub enum FaultKind {
    /// The path leads nowhere, or to something that is no file.
    Path,
    /// The file may not be touched.
    Permission,
    /// Anything else, such as a full disk.
    Other,
}

impl FaultKind {
    /// How a command ends on such a fault: a wrong path or a missing permission
    /// is the operator's to mend, anything else is not.
    pub open spec fn exit(self) -> ExitCode {
        match self {
            FaultKind::Path => ExitCode::Validation,
            FaultKind::Permission => ExitCode::Validation,
            FaultKind::Other => ExitCode::Server,
        }
    }

    /// How a command ends on such a fault.
    pub fn exit_code(self) -> (r: ExitCode)
        ensures
            r == self.exit(),
            r == ExitCode::Validation <==> self == FaultKind::Path || self == FaultKind::Permission,
            r == ExitCode::Server <==> self == FaultKind::Other,
    {
        match self {
            FaultKind::Path => ExitCode::Validation,
            FaultKind::Permission => ExitCode::Validation,
            FaultKind::Other => ExitCode::Server,
        }
    }
}

/// What kept a file from being read or written.
#[derive(Debug)]
pub struct FileFault {
    pub kind: FaultKind,
    pub message: String,
}

/// What a [`FileFault`] holds.
pub struct FileFaultView {
    pub kind: FaultKind,
    pub message: Seq<char>,
}

impl View for FileFault {
    type V = FileFaultView;

    open spec fn view(&self) -> FileFaultView {
        FileFaultView { kind: self.kind, message: self.message@ }
    }
}

/// What is reported of prose that cannot be read.
pub fn unreadable_readme(path: &str, fault: &FileFault) -> (r: Report)
    ensures
        r@ == complaint(
            "read --readme "@ + path@ + ": "@ + fault.message@,
            fault.kind.exit(),
        ),
{
    let mut text = "read --readme ".to_owned();
    text.append(path);
    text.append(": ");
    text.append(fault.message.as_str());
    complain(text.as_str(), fault.kind.exit_code())
}

/// What the ledger is asked for.
#[derive(Debug)]
pub struct ExportRequest {
    pub from: Instant,
    pub to: Instant,
    /// The prose to put into the bundle.
    pub readme: Option<Vec<u8>>,
    pub include_exports: bool,
}

/// What the ledger is asked for: the window, the prose where a file of it was
/// named, and the snapshots where those were. `readme` is what that file holds.
pub fn export_request(args: &ExportArgs, window: ExportWindow, readme: Vec<u8>) -> (r:
    ExportRequest)
    ensures
        r.from == window.from,
        r.to == window.to,
        args.readme is Some ==> r.readme == Some(readme),
        args.readme is None ==> r.readme is None,
        r.include_exports == args.include_exports,
{
    ExportRequest {
        from: window.from,
        to: window.to,
        readme: if args.readme.is_some() {
            Some(readme)
        } else {
            None
        },
        include_exports: args.include_exports,
    }
}

/// What is reported of a ledger's address that is none.
pub fn bad_ledger_url(url: &str, message: &str) -> (r: Report)
    ensures
        r@ == complaint("invalid ledger URL '"@ + url@ + "': "@ + message@, ExitCode::Validation),
{
    let mut text = "invalid ledger URL '".to_owned();
    text.append(url);
    text.append("': ");
    text.append(message);
    complain(text.as_str(), ExitCode::Validation)
}

/// What is reported of a failed export: the ledger's own words where it
/// answered.
pub open spec fn export_report(failure: FailureView, status: Seq<char>) -> ReportView {
    complaint(
        match failure.answer {
            Some(answer) => "ledger "@ + status + ": "@ + answer.body,
            None => "regulatory export: "@ + failure.message,
        },
        exit_of_failure(failure),
    )
}

/// What is reported of a failed export, the status in words being given.
pub fn report_failure(failure: &Failure, status: &str) -> (r: Report)
    ensures
        r@ == export_report(failure@, status@),
        failure.answer matches Some(answer) ==> r.exit == exit_of_status(answer.status) && r.stderr@
            == "error: "@ + ("ledger "@ + status@ + ": "@ + answer.body@) + "\n"@,
        failure.answer is None ==> r.exit == ExitCode::Server && r.stderr@ == "error: "@ + (
        "regulatory export: "@ + failure.message@) + "\n"@,
{
    let text = match &failure.answer {
        Some(answer) => {
            let mut text = "ledger ".to_owned();
            text.append(status);
            text.append(": ");
            text.append(answer.body.as_str());
            text
        },
        None => {
            let mut text = "regulatory export: ".to_owned();
            text.append(failure.message.as_str());
            text
        },
    };
    complain(text.as_str(), ExitCode::from_warden_error(failure))
}

/// What is reported of a failed export.
pub fn export_failed(failure: &Failure) -> (r: Report)
    requires
        failure.answer matches Some(answer) ==> 100 <= answer.status <= 999,
    ensures
        match failure.answer {
            Some(answer) => r@ == export_report(failure@, status_text(answer.status)),
            None => r@ == export_report(failure@, Seq::empty()),
        },
{
    match &failure.answer {
        Some(answer) => report_failure(failure, show_status(answer.status).as_str()),
        None => {
            proof {
                reveal_strlit("");
                assert(""@ =~= Seq::<char>::empty());
            }
            report_failure(failure, "")
        },
    }
}

/// Whether the bundle goes to standard output.
pub fn to_stdout(output: &str) -> (r: bool)
    ensures
        r == (output@ == "-"@),
{
    same(output, "-")
}

/// Hundredths of a mebibyte in `len` bytes: the nearest number, and of two that
/// are equally near the even one.
pub open spec fn hundredths(len: int) -> int {
    let whole = len * 100 / 1_048_576;
    let rest = len * 100 % 1_048_576;
    if rest < 524_288 || rest == 524_288 && whole % 2 == 0 {
        whole
    } else {
        whole + 1
    }
}

/// `len` bytes in mebibytes, with two decimals.
pub open spec fn mebibytes(len: int) -> Seq<char> {
    let h = hundredths(len);
    decimal((h / 100) as nat) + "."@ + seq![digit(h / 10 % 10), digit(h % 10)]
}

/// `len` bytes in mebibytes, with two decimals.
pub fn show_mebibytes(len: u64) -> (r: String)
    requires
        len <= 0x20_0000_0000_0000,
    ensures
        r@ == mebibytes(len as int),
{
    let whole: u64 = len * 100 / 1_048_576;
    let rest: u64 = len * 100 % 1_048_576;
    let h: u64 = if rest < 524_288 || rest == 524_288 && whole % 2 == 0 {
        whole
    } else {
        whole + 1
    };
    let mut out = show(h / 100);
    out.append(".");
    out.append(show(h / 10 % 10).as_str());
    out.append(show(h % 10).as_str());
    assert(out@ =~= mebibytes(len as int));
    out
}

/// What is reported of writing the bundle, given whether it went to standard
/// output. Success is told on standard error alone, which leaves standard output
/// to the bundle. Standard output has no path and no permissions to mend.
pub open spec fn written_report(
    stdout: bool,
    output: Seq<char>,
    len: int,
    fault: Option<FileFaultView>,
) -> ReportView {
    match fault {
        Some(fault) => if stdout {
            complaint("write stdout: "@ + fault.message, ExitCode::Server)
        } else {
            complaint("write "@ + output + ": "@ + fault.message, fault.kind.exit())
        },
        None => ReportView {
            stdout: PrintedView::Text(Seq::empty()),
            stderr: if stdout {
                Seq::empty()
            } else {
                "wrote "@ + output + " ("@ + mebibytes(len) + " MiB)\n"@
            },
            exit: ExitCode::Success,
        },
    }
}

/// What is reported of writing the bundle of `len` bytes.
pub fn after_write(stdout: bool, output: &str, len: u64, fault: &Option<FileFault>) -> (r: Report)
    requires
        len <= 0x20_0000_0000_0000,
    ensures
        match *fault {
            Some(f) => r@ == written_report(stdout, output@, len as int, Some(f@)),
            None => r@ == written_report(stdout, output@, len as int, None),
        },
        r.exit == ExitCode::Success <==> fault is None,
        fault is None && stdout ==> r.stderr@.len() == 0,
        fault is None && !stdout ==> r.stderr@ == "wrote "@ + output@ + " ("@ + mebibytes(
            len as int,
        ) + " MiB)\n"@,
        fault is Some && stdout ==> r.exit == ExitCode::Server && r.stderr@ == "error: "@ + (
        "write stdout: "@ + fault->0.message@) + "\n"@,
        fault is Some && !stdout ==> r.stderr@ == "error: "@ + ("write "@ + output@ + ": "@
            + fault->0.message@) + "\n"@ && (r.exit == ExitCode::Server <==> fault->0.kind
            == FaultKind::Other) && (r.exit == ExitCode::Validation <==> fault->0.kind
            != FaultKind::Other),
{
    match fault {
        Some(f) => if stdout {
            let mut text = "write stdout: ".to_owned();
            text.append(f.message.as_str());
            complain(text.as_str(), ExitCode::Server)
        } else {
            let mut text = "write ".to_owned();
            text.append(output);
            text.append(": ");
            text.append(f.message.as_str());
            complain(text.as_str(), f.kind.exit_code())
        },
        None => {
            let mut stderr = String::new();
            if !stdout {
                stderr = "wrote ".to_owned();
                stderr.append(output);
                stderr.append(" (");
                stderr.append(show_mebibytes(len).as_str());
                stderr.append(" MiB)\n");
            }
            Report { stdout: Printed::Text(String::new()), stderr, exit: ExitCode::Success }
        },
    }
}

// ── Laws ─────────────────────────────────────────────────────────────────

/// A window is accepted exactly where both bounds are instants and the lower
/// one comes first: no empty window and no backward one is ever sent.
pub proof fn only_true_windows_are_sent(
    from: Result<Instant, Seq<char>>,
    to: Result<Instant, Seq<char>>,
)
    ensures
        window_fault(from, to) is None <==> (from matches Ok(a) && to matches Ok(b) && a.before(b)),
{
}

/// The size is told to the nearest hundredth.
pub proof fn size_is_rounded(len: int)
    requires
        len >= 0,
    ensures
        -524_288 <= hundredths(len) * 1_048_576 - len * 100 <= 524_288,
{
}

/// Standard output is the bundle's alone: no report prints to it.
pub proof fn stdout_is_left_to_the_bundle(
    stdout: bool,
    output: Seq<char>,
    len: int,
    fault: Option<FileFaultView>,
    failure: FailureView,
    status: Seq<char>,
)
    ensures
        written_report(stdout, output, len, fault).stdout == PrintedView::Text(Seq::empty()),
        export_report(failure, status).stdout == PrintedView::Text(Seq::empty()),
{
}

/// The first thing that is wrong with a window is what is said: a lower bound
/// that is no instant, then an upper one, then bounds in the wrong order.
pub proof fn window_faults_are_told_in_turn(
    from: Result<Instant, Seq<char>>,
    to: Result<Instant, Seq<char>>,
)
    ensures
        from is Err ==> window_fault(from, to) == Some("--from must be RFC 3339: "@ + from->Err_0),
        from is Ok && to is Err ==> window_fault(from, to) == Some(
            "--to must be RFC 3339: "@ + to->Err_0,
        ),
        from is Ok && to is Ok ==> (window_fault(from, to) is None <==> from->Ok_0.secs
            < to->Ok_0.secs || (from->Ok_0.secs == to->Ok_0.secs && from->Ok_0.nanos
            < to->Ok_0.nanos)),
        from is Ok && to is Ok && window_fault(from, to) is Some ==> window_fault(from, to) == Some(
            "--from must be strictly less than --to"@,
        ),
{
}

/// A bound is the instant that its text stands for.
pub proof fn bounds_are_instants(text: Seq<char>, read: Result<Instant, String>)
    ensures
        rfc3339_instant(text) is Ok ==> bound_in(text) is Ok && bound_in(text)->Ok_0.secs
            == rfc3339_instant(text)->Ok_0.0 && bound_in(text)->Ok_0.nanos == rfc3339_instant(
            text,
        )->Ok_0.1,
        rfc3339_instant(text) is Err ==> bound_in(text) == Err::<Instant, Seq<char>>(
            rfc3339_instant(text)->Err_0,
        ),
        read is Ok ==> bound_of(read) is Ok && bound_of(read)->Ok_0 == read->Ok_0,
        read is Err ==> bound_of(read) == Err::<Instant, Seq<char>>(read->Err_0@),
{
}

/// The number of hundredths is the nearest, and of two that are as near the even
/// one: any number that is nearer than half is it.
pub proof fn nearest_hundredth_is_told(len: int, n: int)
    requires
        len >= 0,
    ensures
        -524_288 < n * 1_048_576 - len * 100 < 524_288 ==> hundredths(len) == n,
        hundredths(len) * 1_048_576 - len * 100 == 524_288 || hundredths(len) * 1_048_576 - len
            * 100 == -524_288 ==> hundredths(len) % 2 == 0,
{
}

/// A size is written as a whole number, a point and two digits, and those digits
/// together are the hundredths.
pub proof fn size_reads_back(len: int)
    requires
        len >= 0,
    ensures
        ({
            let s = mebibytes(len);
            let n = s.len();
            &&& n >= 4
            &&& s[n - 3] == '.'
            &&& is_digits(s.take(n - 3))
            &&& is_digits(s.skip(n - 2))
            &&& digits_value(s.take(n - 3)) * 100 + digits_value(s.skip(n - 2)) == hundredths(len)
        }),
{
    let h = hundredths(len);
    let whole = decimal((h / 100) as nat);
    let s = mebibytes(len);
    let n = s.len();
    reveal_strlit(".");
    decimal_reads_back((h / 100) as nat);
    assert(s.take(n - 3) =~= whole);
    let two = seq![digit(h / 10 % 10), digit(h % 10)];
    assert(s.skip(n - 2) =~= two);
    reveal_with_fuel(digits_value, 3);
    assert(two.drop_last() =~= seq![digit(h / 10 % 10)]);
    assert(two.drop_last().drop_last() =~= Seq::empty());
    assert(h == h / 100 * 100 + h / 10 % 10 * 10 + h % 10);
}

/// What is said of a written bundle, and whose fault it is where it was not
/// written: a wrong path or a missing permission is the operator's.
pub proof fn writing_is_reported(output: Seq<char>, len: int, fault: FileFaultView)
    ensures
        written_report(true, output, len, None).stderr.len() == 0,
        written_report(true, output, len, None).exit == ExitCode::Success,
        written_report(false, output, len, None).stderr == "wrote "@ + output + " ("@ + mebibytes(
            len,
        ) + " MiB)\n"@,
        written_report(false, output, len, None).exit == ExitCode::Success,
        written_report(true, output, len, Some(fault)).exit == ExitCode::Server,
        written_report(true, output, len, Some(fault)).stderr == "error: "@ + ("write stdout: "@
            + fault.message) + "\n"@,
        written_report(false, output, len, Some(fault)).stderr == "error: "@ + ("write "@ + output
            + ": "@ + fault.message) + "\n"@,
        written_report(false, output, len, Some(fault)).exit == (if fault.kind
            == FaultKind::Other {
            ExitCode::Server
        } else {
            ExitCode::Validation
        }),
{
}

/// A failed export is told in the ledger's own words where it answered, and in
/// the client's where it did not.
pub proof fn export_failures_are_told(failure: FailureView, status: Seq<char>)
    ensures
        failure.answer matches Some(answer) ==> export_report(failure, status).stderr == "error: "@
            + ("ledger "@ + status + ": "@ + answer.body) + "\n"@ && export_report(
            failure,
            status,
        ).exit == exit_of_status(answer.status),
        failure.answer is None ==> export_report(failure, status).stderr == "error: "@ + (
        "regulatory export: "@ + failure.message) + "\n"@ && export_report(failure, status).exit
            == ExitCode::Server,
{
}

/// A fault of a file is seen as it is.
pub proof fn file_faults_are_seen_whole(fault: FileFault)
    ensures
        fault@.kind == fault.kind,
        fault@.message == fault.message@,
{
}

} // verus!
