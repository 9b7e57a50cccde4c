//! Exit codes, the failures of the services that the commands call, and what a
//! command leaves behind: text on the two output streams and an exit code.

use crate::text::decimal;
use vstd::prelude::*;
use vstd::string::*;

verus! {

/// How a command ends. The numbers are fixed: scripts test for them.
#[derive(Debug, Clone, Copy, PartialEq, Eq, Structural)]
pub enum ExitCode {
    /// The request succeeded.
    Success,
    /// Bad arguments or a malformed body.
    Validation,
    /// The caller may not do this.
    Auth,
    /// The service holds a conflicting row.
    Conflict,
    /// The service, or the way to it, failed.
    Server,
}

/// The exit code for a service's HTTP status. Any status that is neither a
/// refusal of the request, of the caller nor of the row counts as a fault of
/// the service.
pub open spec fn exit_of_status(status: u16) -> ExitCode {
    if status == 400 || status == 404 || status == 422 {
        ExitCode::Validation
    } else if status == 401 || status == 403 {
        ExitCode::Auth
    } else if status == 409 {
        ExitCode::Conflict
    } else {
        ExitCode::Server
    }
}

/// The exit code for a failed call: by the status where the service answered,
/// `Server` where no usable answer came.
pub open spec fn exit_of_failure(failure: FailureView) -> ExitCode {
    match failure.answer {
        Some(answer) => exit_of_status(answer.status),
        None => ExitCode::Server,
    }
}

impl ExitCode {
    /// The process's exit status.
    pub open spec fn number(self) -> u8 {
        match self {
            ExitCode::Success => 0,
            ExitCode::Validation => 2,
            ExitCode::Auth => 3,
            ExitCode::Conflict => 4,
            ExitCode::Server => 5,
        }
    }

    /// The process's exit status.
    pub fn code(self) -> (r: u8)
        ensures
            r == self.number(),
            self == ExitCode::Success <==> r == 0,
            self == ExitCode::Validation <==> r == 2,
            self == ExitCode::Auth <==> r == 3,
            self == ExitCode::Conflict <==> r == 4,
            self == ExitCode::Server <==> r == 5,
    {
        match self {
            ExitCode::Success => 0,
            ExitCode::Validation => 2,
            ExitCode::Auth => 3,
            ExitCode::Conflict => 4,
            ExitCode::Server => 5,
        }
    }

    /// The exit code for a service's HTTP status.
    pub fn from_status(status: u16) -> (r: ExitCode)
        ensures
            r == exit_of_status(status),
            r == ExitCode::Validation <==> status == 400 || status == 404 || status == 422,
            r == ExitCode::Auth <==> status == 401 || status == 403,
            r == ExitCode::Conflict <==> status == 409,
            r != ExitCode::Success,
    {
        if status == 400 || status == 404 || status == 422 {
            ExitCode::Validation
        } else if status == 401 || status == 403 {
            ExitCode::Auth
        } else if status == 409 {
            ExitCode::Conflict
        } else {
            ExitCode::Server
        }
    }

    /// The exit code for a failed call of a service.
    pub fn from_warden_error(failure: &Failure) -> (r: ExitCode)
        ensures
            r == exit_of_failure(failure@),
            failure.answer is None ==> r == ExitCode::Server,
            failure.answer matches Some(answer) ==> r == exit_of_status(answer.status),
    {
        match &failure.answer {
            Some(answer) => ExitCode::from_status(answer.status),
            None => ExitCode::Server,
        }
    }
}

/// A service's answer that is no success.
#[derive(Debug)]
pub struct Answer {
    /// The HTTP status.
    pub status: u16,
    /// The body as it came.
    pub body: String,
}

/// What an [`Answer`] holds.
pub struct AnswerView {
    pub status: u16,
    pub body: Seq<char>,
}

impl View for Answer {
    type V = AnswerView;

    open spec fn view(&self) -> AnswerView {
        AnswerView { status: self.status, body: self.body@ }
    }
}

/// A failed call of a service.
#[derive(Debug)]
pub struct Failure {
    /// The failure in words.
    pub message: String,
    /// The service's answer; `None` where no usable one came.
    pub answer: Option<Answer>,
}

/// What a [`Failure`] holds.
pub struct FailureView {
    pub message: Seq<char>,
    pub answer: Option<AnswerView>,
}

impl View for Failure {
    type V = FailureView;

    open spec fn view(&self) -> FailureView {
        FailureView {
            message: self.message@,
            answer: match self.answer {
                Some(answer) => Some(answer@),
                None => None,
            },
        }
    }
}

/// What a command prints to standard output.
#[derive(Debug)]
pub enum Printed {
    /// This text, as it stands.
    Text(String),
    /// The service's response, as indented JSON.
    Json,
}

/// What a [`Printed`] holds.
pub enum PrintedView {
    Text(Seq<char>),
    Json,
}

impl View for Printed {
    type V = PrintedView;

    open spec fn view(&self) -> PrintedView {
        match self {
            Printed::Text(text) => PrintedView::Text(text@),
            Printed::Json => PrintedView::Json,
        }
    }
}

/// What a command leaves behind.
#[derive(Debug)]
pub struct Report {
    pub stdout: Printed,
    pub stderr: String,
    pub exit: ExitCode,
}

/// What a [`Report`] holds.
pub struct ReportView {
    pub stdout: PrintedView,
    pub stderr: Seq<char>,
    pub exit: ExitCode,
}

impl View for Report {
    type V = ReportView;

    open spec fn view(&self) -> ReportView {
        ReportView { stdout: self.stdout@, stderr: self.stderr@, exit: self.exit }
    }
}

/// A report that only complains: `"error: "`, the complaint and a line break on
/// standard error.
pub open spec fn complaint(text: Seq<char>, exit: ExitCode) -> ReportView {
    ReportView {
        stdout: PrintedView::Text(Seq::empty()),
        stderr: "error: "@ + text + "\n"@,
        exit,
    }
}

/// A report of success: `text` and a line break on standard output.
pub open spec fn said(text: Seq<char>) -> ReportView {
    ReportView {
        stdout: PrintedView::Text(text + "\n"@),
        stderr: Seq::empty(),
        exit: ExitCode::Success,
    }
}

/// A report of success: `text` on standard output as it stands.
pub open spec fn shown(text: Seq<char>) -> ReportView {
    ReportView { stdout: PrintedView::Text(text), stderr: Seq::empty(), exit: ExitCode::Success }
}

/// A report of success: the service's response as JSON.
pub open spec fn shown_json() -> ReportView {
    ReportView { stdout: PrintedView::Json, stderr: Seq::empty(), exit: ExitCode::Success }
}

/// What is reported of a failed call: its message, and the exit code that it
/// deserves.
pub open spec fn failed(failure: FailureView) -> ReportView {
    complaint(failure.message, exit_of_failure(failure))
}

/// A report that only complains.
pub fn complain(text: &str, exit: ExitCode) -> (r: Report)
    ensures
        r@ == complaint(text@, exit),
        r.stderr@ == "error: "@ + text@ + "\n"@,
        r.exit == exit,
        r.stdout matches Printed::Text(out) && out@.len() == 0,
{
    let mut stderr = "error: ".to_owned();
    stderr.append(text);
    stderr.append("\n");
    Report { stdout: Printed::Text(String::new()), stderr, exit }
}

/// A report of success that prints one line.
pub fn say(text: &str) -> (r: Report)
    ensures
        r@ == said(text@),
        r.stdout matches Printed::Text(out) && out@ == text@ + "\n"@,
        r.stderr@.len() == 0,
        r.exit == ExitCode::Success,
{
    let mut stdout = text.to_owned();
    stdout.append("\n");
    Report { stdout: Printed::Text(stdout), stderr: String::new(), exit: ExitCode::Success }
}

/// A report of success that prints `text` as it stands.
pub fn show_text(text: String) -> (r: Report)
    ensures
        r@ == shown(text@),
        r.stdout matches Printed::Text(out) && out@ == text@,
        r.stderr@.len() == 0,
        r.exit == ExitCode::Success,
{
    Report { stdout: Printed::Text(text), stderr: String::new(), exit: ExitCode::Success }
}

/// A report of success that prints the service's response as JSON.
pub fn show_json() -> (r: Report)
    ensures
        r@ == shown_json(),
        r.stdout is Json,
        r.stderr@.len() == 0,
        r.exit == ExitCode::Success,
{
    Report { stdout: Printed::Json, stderr: String::new(), exit: ExitCode::Success }
}

/// What is reported of a failed call.
pub fn fail(failure: &Failure) -> (r: Report)
    ensures
        r@ == failed(failure@),
        r.stderr@ == "error: "@ + failure.message@ + "\n"@,
        r.stdout matches Printed::Text(out) && out@.len() == 0,
        failure.answer is None ==> r.exit == ExitCode::Server,
        failure.answer matches Some(answer) ==> r.exit == exit_of_status(answer.status),
{
    complain(failure.message.as_str(), ExitCode::from_warden_error(failure))
}

/// The reason phrase of an HTTP status.
pub uninterp spec fn status_reason(status: u16) -> Seq<char>;

/// An HTTP status in words, `404 Not Found` for one: the number, a space and
/// the reason phrase.
pub open spec fn status_text(status: u16) -> Seq<char> {
    decimal(status as nat) + " "@ + status_reason(status)
}

/// An HTTP status in words: how `reqwest::StatusCode` displays itself, which is
/// the number, a space and a phrase that depends on the number alone. The
/// phrases are named and not listed here.
#[verifier::external_body]
pub(crate) fn show_status(status: u16) -> (r: String)
    requires
        100 <= status <= 999,
    ensures
        r@ == decimal(status as nat) + " "@ + status_reason(status),
{
    reqwest::StatusCode::from_u16(status).unwrap().to_string()
}

/// What is reported where a response cannot be written as JSON.
pub fn unserializable(message: &str) -> (r: Report)
    ensures
        r@ == complaint("serialize: "@ + message@, ExitCode::Server),
        r.exit == ExitCode::Server,
{
    let mut text = "serialize: ".to_owned();
    text.append(message);
    complain(text.as_str(), ExitCode::Server)
}

/// Two ways to end never share an exit status, so a script can tell them apart.
pub proof fn exit_numbers_differ(a: ExitCode, b: ExitCode)
    ensures
        a.number() == b.number() ==> a == b,
{
}

/// Only success ends with status zero: no failed call does.
pub proof fn no_failure_exits_zero(failure: FailureView)
    ensures
        exit_of_failure(failure).number() != 0,
        failed(failure).exit.number() != 0,
{
}

/// The exit status tells by whose fault a call failed: 2 where the request was
/// refused, 3 where the caller was, 4 where a row stood in the way, and 5 for
/// every other status.
pub proof fn status_decides_the_exit(status: u16)
    ensures
        exit_of_status(status).number() == 2 <==> status == 400 || status == 404 || status == 422,
        exit_of_status(status).number() == 3 <==> status == 401 || status == 403,
        exit_of_status(status).number() == 4 <==> status == 409,
        exit_of_status(status).number() == 5 <==> status != 400 && status != 404 && status != 422
            && status != 401 && status != 403 && status != 409,
{
}

/// A call that got no usable answer is the service's fault, whatever the words
/// for it; one that got an answer is judged by its status and nothing else.
pub proof fn no_answer_is_a_server_fault(failure: FailureView, other: FailureView)
    ensures
        failure.answer is None ==> exit_of_failure(failure).number() == 5,
        failure.answer is Some && other.answer is Some && failure.answer->0.status
            == other.answer->0.status ==> exit_of_failure(failure) == exit_of_failure(other),
        failure.answer is Some ==> exit_of_failure(failure) == exit_of_status(
            failure.answer->0.status,
        ),
{
}

/// A complaint goes to standard error alone, with a mark before it and a line
/// break behind it; a success says nothing there and ends with zero.
pub proof fn streams_are_kept_apart(text: Seq<char>, exit: ExitCode)
    ensures
        complaint(text, exit).stdout == PrintedView::Text(Seq::empty()),
        complaint(text, exit).stderr == "error: "@ + text + "\n"@,
        complaint(text, exit).exit == exit,
        said(text).stdout == PrintedView::Text(text + "\n"@),
        said(text).stderr.len() == 0,
        said(text).exit.number() == 0,
        shown(text).stdout == PrintedView::Text(text),
        shown(text).stderr.len() == 0,
        shown(text).exit.number() == 0,
        shown_json().stdout == PrintedView::Json,
        shown_json().stderr.len() == 0,
        shown_json().exit.number() == 0,
{
}

/// A report is seen as it is: its streams and its exit code.
pub proof fn reports_are_seen_whole(r: Report, failure: Failure)
    ensures
        r@.stderr == r.stderr@,
        r@.exit == r.exit,
        r.stdout matches Printed::Text(text) ==> r@.stdout == PrintedView::Text(text@),
        r.stdout is Json ==> r@.stdout is Json,
        failure@.message == failure.message@,
        failure@.answer is Some <==> failure.answer is Some,
        failure.answer is Some ==> failure@.answer->0.status == failure.answer->0.status
            && failure@.answer->0.body == failure.answer->0.body@,
{
}

/// A status in words is its number, a space and its phrase.
pub proof fn statuses_are_numbered(status: u16)
    ensures
        status_text(status) == decimal(status as nat) + " "@ + status_reason(status),
{
}

} // verus!
