//! `wardenctl mcp-bridge`: JSON-RPC frames from standard input to the proxy and
//! back.

use crate::json::{
    compact, entries, json_frame, member_is_there, member_of, object_is_one_line, object_text,
    objects_hold_each_member, one_line, pair, pairs_of, plain_is_kept, quote, quoted,
    quoted_is_one_line, quoting_loses_nothing, read_frame, write_object, Frame, FrameView, Pair,
};
use crate::report::{show_status, status_text, ExitCode, Printed, PrintedView, Report, ReportView};
use crate::text::{
    all_white, blank_is_white, holds, holds_behind, holds_through, is_capital, joined, kebab,
    kebab_case, small, starts_with, text_of, trim, trimmed,
};
use vstd::prelude::*;
use vstd::string::*;

verus! {

/// The arguments of `mcp-bridge`.
#[derive(Debug)]
pub struct McpBridgeArgs {
    /// The proxy's origin.
    pub url: String,
    /// The client certificate, in PEM.
    pub cert: std::path::PathBuf,
    /// The certificate's private key, in PEM.
    pub key: std::path::PathBuf,
    /// The authorities that vouch for the proxy, in PEM.
    pub ca: std::path::PathBuf,
    /// How long one request may take.
    pub timeout_secs: u64,
    /// Accept any server certificate.
    pub insecure: bool,
    /// Which client speaks to the bridge.
    pub client_hint: Option<ClientHint>,
}

/// The clients that the bridge has a recipe for.
#[derive(Debug, Clone, Copy, PartialEq, Eq, Structural)]
pub enum ClientHint {
    ClaudeCode,
    Cursor,
    Cline,
    Continue,
    Codex,
    Generic,
}

/// A name of ten letters whose first and seventh are capitals, in kebab case.
proof fn two_words(s: Seq<char>)
    requires
        s.len() == 10,
        forall|i: int| 0 <= i < 10 ==> (is_capital(#[trigger] s[i]) <==> i == 0 || i == 6),
    ensures
        kebab(s) == seq![small(s[0])] + s.subrange(1, 6) + seq!['-', small(s[6])] + s.subrange(
            7,
            10,
        ),
{
    let first = s.take(1);
    assert(kebab(first) =~= seq![small(s[0])]);
    kebab_on(s, 1, 6);
    assert(s.take(7).drop_last() =~= s.take(6));
    kebab_on(s, 7, 10);
    assert(s.take(10) =~= s);
    assert(kebab(s) =~= seq![small(s[0])] + s.subrange(1, 6) + seq!['-', small(s[6])] + s.subrange(
        7,
        10,
    ));
}

/// Letters that are no capitals are kept as they are.
proof fn kebab_on(s: Seq<char>, from: int, to: int)
    requires
        0 <= from <= to <= s.len(),
        forall|i: int| from <= i < to ==> !is_capital(#[trigger] s[i]),
    ensures
        kebab(s.take(to)) == kebab(s.take(from)) + s.subrange(from, to),
    decreases to - from,
{
    if from < to {
        kebab_on(s, from, to - 1);
        assert(s.take(to).drop_last() =~= s.take(to - 1));
        assert(s.subrange(from, to) =~= s.subrange(from, to - 1).push(s[to - 1]));
        assert(kebab(s.take(to)) =~= kebab(s.take(from)) + s.subrange(from, to));
    } else {
        assert(s.subrange(from, to) =~= Seq::empty());
        assert(kebab(s.take(from)) + s.subrange(from, to) =~= kebab(s.take(from)));
    }
}

impl ClientHint {
    /// The client's name on the command line. The one of two words is written as
    /// its variant is, in kebab case.
    pub open spec fn name(self) -> Seq<char> {
        match self {
            ClientHint::ClaudeCode => kebab("ClaudeCode"@),
            ClientHint::Cursor => "cursor"@,
            ClientHint::Cline => "cline"@,
            ClientHint::Continue => "continue"@,
            ClientHint::Codex => "codex"@,
            ClientHint::Generic => "generic"@,
        }
    }

    /// The client's name on the command line.
    pub fn as_str(self) -> (r: String)
        ensures
            r@ == self.name(),
            self is ClaudeCode ==> r@ == "c"@ + "ClaudeCode"@.subrange(1, 6) + "-code"@,
            self is Cursor ==> r@ == "cursor"@,
            self is Cline ==> r@ == "cline"@,
            self is Continue ==> r@ == "continue"@,
            self is Codex ==> r@ == "codex"@,
            self is Generic ==> r@ == "generic"@,
    {
        proof {
            reveal_strlit("ClaudeCode");
            reveal_strlit("c");
            reveal_strlit("-code");
            two_words("ClaudeCode"@);
        }
        match self {
            ClientHint::ClaudeCode => kebab_case("ClaudeCode"),
            ClientHint::Cursor => "cursor".to_owned(),
            ClientHint::Cline => "cline".to_owned(),
            ClientHint::Continue => "continue".to_owned(),
            ClientHint::Codex => "codex".to_owned(),
            ClientHint::Generic => "generic".to_owned(),
        }
    }
}

/// A line of the bridge's log.
pub open spec fn logged(text: Seq<char>) -> Seq<char> {
    "mcp-bridge: "@ + text + "\n"@
}

/// The end of the bridge: a line of its log, and an exit code.
pub open spec fn ended(text: Seq<char>, exit: ExitCode) -> ReportView {
    ReportView { stdout: PrintedView::Text(Seq::empty()), stderr: logged(text), exit }
}

/// A line of the bridge's log: a topic, and what there is to say of it.
fn log(topic: &str, text: &str) -> (r: String)
    ensures
        r@ == logged(topic@ + text@),
        r@ == "mcp-bridge: "@ + (topic@ + text@) + "\n"@,
{
    let mut said = topic.to_owned();
    said.append(text);
    let mut line = "mcp-bridge: ".to_owned();
    line.append(said.as_str());
    line.append("\n");
    line
}

/// The end of the bridge.
fn end(topic: &str, text: &str, exit: ExitCode) -> (r: Report)
    ensures
        r@ == ended(topic@ + text@, exit),
        r.stderr@ == "mcp-bridge: "@ + (topic@ + text@) + "\n"@,
        r.exit == exit,
        r.stdout matches Printed::Text(out) && out@.len() == 0,
{
    Report { stdout: Printed::Text(String::new()), stderr: log(topic, text), exit }
}

/// What is logged of the client at the start: its name, where it was given.
pub fn greeting(hint: Option<ClientHint>) -> (r: Option<String>)
    ensures
        match hint {
            Some(client) => text_of(r) == Some(logged("client-hint="@ + client.name())),
            None => r is None,
        },
{
    match hint {
        Some(client) => Some(log("client-hint=", client.as_str().as_str())),
        None => None,
    }
}

/// The client's identity in PEM: its certificate, a line break, its key.
pub fn identity_pem(cert: &Vec<u8>, key: &Vec<u8>) -> (r: Vec<u8>)
    ensures
        r@ == cert@.push(10u8) + key@,
{
    let mut out: Vec<u8> = Vec::new();
    out.extend_from_slice(cert.as_slice());
    out.push(10u8);
    out.extend_from_slice(key.as_slice());
    assert(out@ =~= cert@.push(10u8) + key@);
    out
}

/// What is reported where the HTTP client cannot be made.
pub fn no_client(fault: &str) -> (r: Report)
    ensures
        r@ == ended("build client: "@ + fault@, ExitCode::Validation),
{
    end("build client: ", fault, ExitCode::Validation)
}

/// The address that `path` stands for as a reference within the address
/// `base`, or what is wrong with either.
pub uninterp spec fn joined_url(base: Seq<char>, path: Seq<char>) -> Result<Seq<char>, Seq<char>>;

/// Resolves `path` against `base`: `url::Url::parse` of `base`, and
/// `url::Url::join` with `path`. What that gives, and its words for what it
/// refuses, are named and not described here.
#[verifier::external_body]
fn join_url(base: &str, path: &str) -> (r: Result<String, String>)
    ensures
        match r {
            Ok(url) => joined_url(base@, path@) == Ok::<Seq<char>, Seq<char>>(url@),
            Err(e) => joined_url(base@, path@) == Err::<Seq<char>, Seq<char>>(e@),
        },
{
    match url::Url::parse(base).and_then(|u| u.join(path)) {
        Ok(u) => Ok(u.to_string()),
        Err(e) => Err(e.to_string()),
    }
}

/// Where frames are posted, given what became of the proxy's address.
pub fn reached(joined: Result<String, String>) -> (r: Result<String, Report>)
    ensures
        match joined {
            Ok(url) => r == Ok::<String, Report>(url),
            Err(e) => r matches Err(report) && report@ == ended(
                "parse url: "@ + e@,
                ExitCode::Validation,
            ),
        },
{
    match joined {
        Ok(url) => Ok(url),
        Err(e) => Err(end("parse url: ", e.as_str(), ExitCode::Validation)),
    }
}

/// Where frames are posted: `/mcp` on the proxy.
pub fn endpoint(url: &str) -> (r: Result<String, Report>)
    ensures
        match joined_url(url@, "/mcp"@) {
            Ok(target) => r matches Ok(u) && u@ == target,
            Err(e) => r matches Err(report) && report@ == ended(
                "parse url: "@ + e,
                ExitCode::Validation,
            ),
        },
{
    reached(join_url(url, "/mcp"))
}

/// What reading one line of standard input gave.
#[derive(Debug)]
pub enum Input {
    /// Standard input is closed.
    End,
    /// A line, with its line break where it has one.
    Line(String),
    /// Reading failed.
    Broken(String),
}

/// What the bridge does next.
#[derive(Debug)]
pub enum Step {
    /// Ends.
    Stop { report: Report },
    /// Logs this, which may be nothing, and reads the next line.
    Next { log: String },
    /// Posts the frame's JSON.
    Forward { frame: Frame },
    /// Reads the body of the answer.
    ReadBody,
    /// Logs, and writes to standard output.
    Write {
        /// What is written, line break and all.
        line: String,
        /// What is logged first; it may be nothing.
        log: String,
        /// Whether the bridge ends if it cannot be written.
        vital: bool,
    },
}

/// What a [`Step`] holds.
pub enum StepView {
    Stop { report: ReportView },
    Next { log: Seq<char> },
    Forward { frame: FrameView },
    ReadBody,
    Write { line: Seq<char>, log: Seq<char>, vital: bool },
}

impl View for Step {
    type V = StepView;

    open spec fn view(&self) -> StepView {
        match self {
            Step::Stop { report } => StepView::Stop { report: report@ },
            Step::Next { log } => StepView::Next { log: log@ },
            Step::Forward { frame } => StepView::Forward { frame: frame@ },
            Step::ReadBody => StepView::ReadBody,
            Step::Write { line, log, vital } => StepView::Write {
                line: line@,
                log: log@,
                vital: *vital,
            },
        }
    }
}

/// Reading on, with nothing to log.
pub open spec fn silent() -> StepView {
    StepView::Next { log: Seq::empty() }
}

/// Reading on, with this to log.
pub open spec fn noted(text: Seq<char>) -> StepView {
    StepView::Next { log: logged(text) }
}

/// What is done with a line that is not blank, given what it is as JSON.
pub open spec fn on_frame(parsed: Result<FrameView, Seq<char>>) -> StepView {
    match parsed {
        Ok(frame) => StepView::Forward { frame },
        Err(e) => noted("parse jsonrpc frame: "@ + e),
    }
}

/// What is done with what was read.
pub open spec fn on_input(input: Input) -> StepView {
    match input {
        Input::End => StepView::Stop {
            report: ReportView {
                stdout: PrintedView::Text(Seq::empty()),
                stderr: Seq::empty(),
                exit: ExitCode::Success,
            },
        },
        Input::Broken(e) => StepView::Stop {
            report: ended("stdin read: "@ + e@, ExitCode::Server),
        },
        Input::Line(line) => if trimmed(line@).len() == 0 {
            silent()
        } else {
            on_frame(json_frame(trimmed(line@)))
        },
    }
}

/// A frame is posted; a line that is none is logged and passed over.
pub fn take_frame(parsed: Result<Frame, String>) -> (r: Step)
    ensures
        match parsed {
            Ok(frame) => r@ == on_frame(Ok(frame@)),
            Err(e) => r@ == on_frame(Err(e@)),
        },
{
    match parsed {
        Ok(frame) => Step::Forward { frame },
        Err(e) => Step::Next { log: log("parse jsonrpc frame: ", e.as_str()) },
    }
}

/// What is done with what was read: blank lines are passed over, and the end of
/// standard input is the end of the bridge.
pub fn take_input(input: &Input) -> (r: Step)
    ensures
        r@ == on_input(*input),
        input is End ==> (r matches Step::Stop { report } && report.exit == ExitCode::Success
            && report.stderr@.len() == 0),
        input matches Input::Broken(e) ==> (r matches Step::Stop { report } && report.exit
            == ExitCode::Server && report.stderr@ == "mcp-bridge: "@ + ("stdin read: "@ + e@)
            + "\n"@),
        input matches Input::Line(line) ==> {
            &&& trimmed(line@).len() == 0 ==> (r matches Step::Next { log } && log@.len() == 0)
            &&& trimmed(line@).len() > 0 && json_frame(trimmed(line@)) is Ok ==> (
            r matches Step::Forward { frame } && frame@ == json_frame(trimmed(line@))->Ok_0)
            &&& trimmed(line@).len() > 0 && json_frame(trimmed(line@)) is Err ==> (
            r matches Step::Next { log } && log@ == "mcp-bridge: "@ + ("parse jsonrpc frame: "@
                + json_frame(trimmed(line@))->Err_0) + "\n"@)
        },
        r matches Step::Forward { frame } ==> compact(frame@),
{
    match input {
        Input::End => Step::Stop {
            report: Report {
                stdout: Printed::Text(String::new()),
                stderr: String::new(),
                exit: ExitCode::Success,
            },
        },
        Input::Broken(e) => Step::Stop {
            report: end("stdin read: ", e.as_str(), ExitCode::Server),
        },
        Input::Line(line) => {
            let text = trim(line.as_str());
            if text.is_empty() {
                Step::Next { log: String::new() }
            } else {
                take_frame(read_frame(text))
            }
        },
    }
}

/// Whether no reply is owed to a frame: its method is one of the notifications,
/// or it has no id.
pub open spec fn notifies(frame: FrameView) -> bool {
    ||| member_of(frame.members, "method"@) matches Some(method) && method.string matches Some(
        name,
    ) && "notifications/"@.is_prefix_of(name)
    ||| member_of(frame.members, "id"@) is None
}

/// Whether no reply is owed to a frame.
pub fn is_notification(frame: &Frame) -> (r: bool)
    ensures
        r == notifies(frame@),
        member_of(frame@.members, "id"@) is None ==> r,
        member_of(frame@.members, "method"@) is Some && member_of(
            frame@.members,
            "method"@,
        )->0.string is Some && "notifications/"@.is_prefix_of(
            member_of(frame@.members, "method"@)->0.string->0,
        ) ==> r,
        member_of(frame@.members, "id"@) is Some && (member_of(frame@.members, "method"@) is None
            || member_of(frame@.members, "method"@)->0.string is None
            || !"notifications/"@.is_prefix_of(
            member_of(frame@.members, "method"@)->0.string->0,
        )) ==> !r,
{
    if let Some(method) = frame.member("method") {
        if let Some(name) = &method.string {
            if starts_with(name.as_str(), "notifications/") {
                return true;
            }
        }
    }
    frame.member("id").is_none()
}

/// What is done once a frame was posted, or could not be: the answer to a
/// notification is not even read.
pub open spec fn on_post(frame: FrameView, fault: Option<Seq<char>>) -> StepView {
    match fault {
        Some(e) => noted("post upstream: "@ + e),
        None => if notifies(frame) {
            silent()
        } else {
            StepView::ReadBody
        },
    }
}

/// What is done once a frame was posted, or could not be.
pub fn after_post(frame: &Frame, fault: &Option<String>) -> (r: Step)
    ensures
        r@ == on_post(frame@, text_of(*fault)),
        fault matches Some(e) ==> (r matches Step::Next { log } && log@ == "mcp-bridge: "@ + (
        "post upstream: "@ + e@) + "\n"@),
        fault is None && member_of(frame@.members, "id"@) is None ==> (r matches Step::Next { log }
            && log@.len() == 0),
        fault is None && member_of(frame@.members, "id"@) is Some && member_of(
            frame@.members,
            "method"@,
        ) is None ==> r is ReadBody,
{
    match fault {
        Some(e) => Step::Next { log: log("post upstream: ", e.as_str()) },
        None => if is_notification(frame) {
            Step::Next { log: String::new() }
        } else {
            Step::ReadBody
        },
    }
}

/// The members of the error in a refusal.
pub open spec fn refusal_error(status: Seq<char>, body: Seq<char>) -> Seq<
    (Seq<char>, Seq<char>),
> {
    seq![
        ("code"@, "-32000"@),
        ("data"@, quoted(body)),
        ("message"@, quoted("warden proxy "@ + status)),
    ]
}

/// The members of a refusal: the request's id, and the proxy's answer as the
/// error's data.
pub open spec fn refusal_members(id: Seq<char>, status: Seq<char>, body: Seq<char>) -> Seq<
    (Seq<char>, Seq<char>),
> {
    seq![
        ("error"@, object_text(refusal_error(status, body))),
        ("id"@, id),
        ("jsonrpc"@, "\"2.0\""@),
    ]
}

/// A refusal as the client gets it: a JSON-RPC error on one line.
pub open spec fn refusal(id: Seq<char>, status: Seq<char>, body: Seq<char>) -> Seq<char> {
    object_text(refusal_members(id, status, body))
}

/// What is done with an answer that is no success: it is logged, and the client
/// gets a refusal with the id of its request.
pub open spec fn on_refusal(frame: FrameView, status: Seq<char>, body: Seq<char>) -> StepView {
    let log = logged("upstream "@ + status + ": "@ + body);
    match member_of(frame.members, "id"@) {
        Some(id) => StepView::Write {
            line: refusal(id.json, status, body) + "\n"@,
            log,
            vital: false,
        },
        None => StepView::Next { log },
    }
}

/// What is done with the body of an answer: that of a success goes to the
/// client as it stands.
pub open spec fn on_body(
    frame: FrameView,
    status: u16,
    body: Result<Seq<char>, Seq<char>>,
) -> StepView {
    match body {
        Err(e) => noted("read response body: "@ + e),
        Ok(raw) => if 200 <= status < 300 {
            StepView::Write { line: raw + "\n"@, log: Seq::empty(), vital: true }
        } else {
            on_refusal(frame, status_text(status), raw)
        },
    }
}

/// A refusal as the client gets it.
fn make_refusal(id: &str, status: &str, body: &str) -> (r: String)
    ensures
        r@ == refusal(id@, status@, body@),
{
    let mut message = "warden proxy ".to_owned();
    message.append(status);
    let mut inner: Vec<Pair> = Vec::new();
    inner.push(pair("code", "-32000".to_owned()));
    inner.push(pair("data", quote(body)));
    inner.push(pair("message", quote(message.as_str())));
    assert(pairs_of(inner@) =~= refusal_error(status@, body@));
    let error = write_object(&inner);
    let mut outer: Vec<Pair> = Vec::new();
    outer.push(pair("error", error));
    outer.push(pair("id", id.to_owned()));
    outer.push(pair("jsonrpc", "\"2.0\"".to_owned()));
    assert(pairs_of(outer@) =~= refusal_members(id@, status@, body@));
    write_object(&outer)
}

/// What is done with an answer that is no success, its status in words.
pub fn refuse(frame: &Frame, status: &str, body: &str) -> (r: Step)
    ensures
        r@ == on_refusal(frame@, status@, body@),
{
    let mut said = "upstream ".to_owned();
    said.append(status);
    said.append(": ");
    said.append(body);
    let log = log("", said.as_str());
    proof {
        reveal_strlit("");
        assert(""@ + said@ =~= said@);
    }
    match frame.member("id") {
        Some(id) => {
            let mut line = make_refusal(id.json.as_str(), status, body);
            line.append("\n");
            Step::Write { line, log, vital: false }
        },
        None => Step::Next { log },
    }
}

/// What is done with the body of an answer, or where it could not be read.
pub fn after_body(frame: &Frame, status: u16, body: &Result<String, String>) -> (r: Step)
    requires
        100 <= status <= 999,
    ensures
        match *body {
            Ok(raw) => r@ == on_body(frame@, status, Ok(raw@)),
            Err(e) => r@ == on_body(frame@, status, Err(e@)),
        },
        *body matches Ok(raw) ==> {
            &&& 200 <= status < 300 ==> (r matches Step::Write { line, log, vital } && line@ == raw@
                + "\n"@ && log@.len() == 0 && vital)
            &&& !(200 <= status < 300) && member_of(frame@.members, "id"@) is Some ==> (
            r matches Step::Write { line, log, vital } && !vital && log@ == "mcp-bridge: "@ + (
            "upstream "@ + status_text(status) + ": "@ + raw@) + "\n"@)
        },
        *body matches Err(e) ==> (r matches Step::Next { log } && log@ == "mcp-bridge: "@ + (
        "read response body: "@ + e@) + "\n"@),
{
    match body {
        Err(e) => Step::Next { log: log("read response body: ", e.as_str()) },
        Ok(raw) => if 200 <= status && status < 300 {
            let mut line = raw.clone();
            line.append("\n");
            Step::Write { line, log: String::new(), vital: true }
        } else {
            refuse(frame, show_status(status).as_str(), raw.as_str())
        },
    }
}

/// What is done once a line was written, or could not be.
pub open spec fn on_write(vital: bool, fault: Option<Seq<char>>) -> StepView {
    match fault {
        Some(e) => if vital {
            StepView::Stop { report: ended("write stdout: "@ + e, ExitCode::Server) }
        } else {
            silent()
        },
        None => silent(),
    }
}

/// What is done once a line was written, or could not be: only a lost reply
/// ends the bridge, not a lost refusal.
pub fn after_write(vital: bool, fault: &Option<String>) -> (r: Step)
    ensures
        r@ == on_write(vital, text_of(*fault)),
        vital && fault is Some ==> (r matches Step::Stop { report } && report.exit
            == ExitCode::Server && report.stderr@ == "mcp-bridge: "@ + ("write stdout: "@
            + fault->0@) + "\n"@),
        !vital || fault is None ==> (r matches Step::Next { log } && log@.len() == 0),
{
    if vital {
        if let Some(e) = fault {
            return Step::Stop { report: end("write stdout: ", e.as_str(), ExitCode::Server) };
        }
    }
    Step::Next { log: String::new() }
}

/// A notification is never answered: once it was posted the bridge reads on,
/// whatever became of it.
pub proof fn notifications_get_no_reply(frame: FrameView, fault: Option<Seq<char>>)
    requires
        notifies(frame),
    ensures
        on_post(frame, fault) is Next,
{
}

/// What happens on the way of a frame to the proxy and back.
pub struct Passage {
    /// What kept the frame from being posted.
    pub fault: Option<Seq<char>>,
    /// The answer's status.
    pub status: u16,
    /// The answer's body, or what kept it from being read.
    pub body: Result<Seq<char>, Seq<char>>,
}

/// What the client gets for a line, if anything.
pub open spec fn reply_to(input: Input, passage: Passage) -> Option<Seq<char>> {
    match on_input(input) {
        StepView::Forward { frame } => match on_post(frame, passage.fault) {
            StepView::ReadBody => match on_body(frame, passage.status, passage.body) {
                StepView::Write { line, log, vital } => Some(line),
                _ => None,
            },
            _ => None,
        },
        _ => None,
    }
}

/// One response for each request: the client gets a line exactly where it sent
/// a frame that is no notification, the proxy could be reached and its answer
/// read.
pub proof fn one_response_per_request(input: Input, passage: Passage)
    ensures
        reply_to(input, passage) is Some <==> {
            &&& input matches Input::Line(line)
            &&& trimmed(line@).len() > 0
            &&& json_frame(trimmed(line@)) matches Ok(frame)
            &&& !notifies(frame)
            &&& passage.fault is None
            &&& passage.body is Ok
        },
{
}

/// A successful answer reaches the client letter for letter.
pub proof fn success_is_passed_on(frame: FrameView, status: u16, raw: Seq<char>)
    requires
        200 <= status < 300,
    ensures
        on_body(frame, status, Ok(raw)) == (StepView::Write {
            line: raw + "\n"@,
            log: Seq::empty(),
            vital: true,
        }),
{
}

/// A request that the proxy refuses is answered all the same: with an error that
/// carries the request's own id, the status and the proxy's words.
pub proof fn refusal_answers_the_request(frame: FrameView, status: u16, raw: Seq<char>)
    requires
        !notifies(frame),
        !(200 <= status < 300),
    ensures
        on_body(frame, status, Ok(raw)) matches StepView::Write { line, log, vital }
            && member_of(frame.members, "id"@) matches Some(id)
            && line == refusal(id.json, status_text(status), raw) + "\n"@
            && log == logged("upstream "@ + status_text(status) + ": "@ + raw)
            && !vital,
{
}

/// A refusal takes one line, whatever the proxy said, so the client can tell
/// where it ends.
pub proof fn refusal_is_one_line(frame: FrameView, status: Seq<char>, body: Seq<char>)
    requires
        compact(frame),
    ensures
        member_of(frame.members, "id"@) matches Some(id) ==> one_line(
            refusal(id.json, status, body),
        ),
{
    reveal_strlit("-32000");
    reveal_strlit("\"2.0\"");
    member_is_there(frame.members, "id"@);
    if let Some(id) = member_of(frame.members, "id"@) {
        quoted_is_one_line(body);
        quoted_is_one_line("warden proxy "@ + status);
        object_is_one_line(refusal_error(status, body));
        object_is_one_line(refusal_members(id.json, status, body));
    }
}

/// An object of three members, member by member.
proof fn three_members(
    a: (Seq<char>, Seq<char>),
    b: (Seq<char>, Seq<char>),
    c: (Seq<char>, Seq<char>),
)
    ensures
        object_text(seq![a, b, c]) == "{"@ + ((quoted(a.0) + ":"@ + a.1) + ","@ + (quoted(b.0)
            + ":"@ + b.1) + ","@ + (quoted(c.0) + ":"@ + c.1)) + "}"@,
{
    let items = entries(seq![a, b, c], Seq::empty(), ":"@);
    assert(Seq::<char>::empty() + quoted(a.0) =~= quoted(a.0));
    assert(Seq::<char>::empty() + quoted(b.0) =~= quoted(b.0));
    assert(Seq::<char>::empty() + quoted(c.0) =~= quoted(c.0));
    let two = items.drop_last();
    let one = two.drop_last();
    assert(joined(one, ","@) == items[0]);
    assert(joined(two, ","@) == items[0] + ","@ + items[1]);
    assert(joined(items, ","@) == items[0] + ","@ + items[1] + ","@ + items[2]);
}

/// What stands between the same head and the same tail is the same where the
/// whole is.
proof fn same_middle(head: Seq<char>, x: Seq<char>, y: Seq<char>, tail: Seq<char>)
    requires
        head + x + tail == head + y + tail,
    ensures
        x == y,
{
    let whole = head + x + tail;
    assert(whole.len() == (head + y + tail).len());
    assert(x =~= whole.subrange(head.len() as int, whole.len() - tail.len()));
    assert(y =~= (head + y + tail).subrange(head.len() as int, whole.len() - tail.len()));
}

/// An object of three members around the value of the first.
proof fn around_first(
    name: Seq<char>,
    x: Seq<char>,
    b: (Seq<char>, Seq<char>),
    c: (Seq<char>, Seq<char>),
)
    ensures
        object_text(seq![(name, x), b, c]) == "{"@ + quoted(name) + ":"@ + x + (","@ + quoted(b.0)
            + ":"@ + b.1 + ","@ + quoted(c.0) + ":"@ + c.1 + "}"@),
{
    three_members((name, x), b, c);
    let after = quoted(b.0) + ":"@ + b.1;
    let last = quoted(c.0) + ":"@ + c.1;
    assert(","@ + quoted(b.0) + ":"@ + b.1 + ","@ + quoted(c.0) + ":"@ + c.1 + "}"@ =~= ","@ + after
        + ","@ + last + "}"@);
    assert(object_text(seq![(name, x), b, c]) =~= "{"@ + quoted(name) + ":"@ + x + (","@ + quoted(
        b.0,
    ) + ":"@ + b.1 + ","@ + quoted(c.0) + ":"@ + c.1 + "}"@));
}

/// An object of three members around the value of the second.
proof fn around_second(
    a: (Seq<char>, Seq<char>),
    name: Seq<char>,
    x: Seq<char>,
    c: (Seq<char>, Seq<char>),
)
    ensures
        object_text(seq![a, (name, x), c]) == "{"@ + quoted(a.0) + ":"@ + a.1 + ","@ + quoted(name)
            + ":"@ + x + (","@ + quoted(c.0) + ":"@ + c.1 + "}"@),
{
    three_members(a, (name, x), c);
    assert(object_text(seq![a, (name, x), c]) =~= "{"@ + quoted(a.0) + ":"@ + a.1 + ","@ + quoted(
        name,
    ) + ":"@ + x + (","@ + quoted(c.0) + ":"@ + c.1 + "}"@));
}

/// Nothing of what the proxy said is lost in a refusal: where the bodies of two
/// answers differ, so do the refusals.
pub proof fn refusal_is_faithful(
    id: Seq<char>,
    status: Seq<char>,
    body: Seq<char>,
    other: Seq<char>,
)
    requires
        refusal(id, status, body) == refusal(id, status, other),
    ensures
        body == other,
{
    let message = ("message"@, quoted("warden proxy "@ + status));
    let code = ("code"@, "-32000"@);
    let named = ("id"@, id);
    let version = ("jsonrpc"@, "\"2.0\""@);
    let error = object_text(refusal_error(status, body));
    let differing = object_text(refusal_error(status, other));
    around_first("error"@, error, named, version);
    around_first("error"@, differing, named, version);
    same_middle(
        "{"@ + quoted("error"@) + ":"@,
        error,
        differing,
        ","@ + quoted(named.0) + ":"@ + named.1 + ","@ + quoted(version.0) + ":"@ + version.1 + "}"@,
    );
    around_second(code, "data"@, quoted(body), message);
    around_second(code, "data"@, quoted(other), message);
    same_middle(
        "{"@ + quoted(code.0) + ":"@ + code.1 + ","@ + quoted("data"@) + ":"@,
        quoted(body),
        quoted(other),
        ","@ + quoted(message.0) + ":"@ + message.1 + "}"@,
    );
    quoting_loses_nothing(body, other);
}

/// Only the two standard streams end the bridge: input that ends or breaks, and
/// a reply that cannot be written. No frame, post or answer does.
pub proof fn only_the_streams_end_the_bridge(
    input: Input,
    frame: FrameView,
    fault: Option<Seq<char>>,
    status: u16,
    body: Result<Seq<char>, Seq<char>>,
    vital: bool,
)
    ensures
        on_input(input) is Stop <==> input is End || input is Broken,
        on_post(frame, fault) !is Stop,
        on_body(frame, status, body) !is Stop,
        on_write(vital, fault) is Stop <==> vital && fault is Some,
{
}

/// Every request is answered: a frame that has an id, whatever value the id has,
/// and whose method is not there, is no text or does not begin with
/// `notifications/`, has the answer's body read once it was posted, and its
/// client gets a line for whatever the body is.
pub proof fn every_request_is_answered(frame: FrameView, status: u16, raw: Seq<char>)
    requires
        member_of(frame.members, "id"@) is Some,
        member_of(frame.members, "method"@) is None || member_of(
            frame.members,
            "method"@,
        )->0.string is None || !"notifications/"@.is_prefix_of(
            member_of(frame.members, "method"@)->0.string->0,
        ),
    ensures
        on_post(frame, None) is ReadBody,
        on_body(frame, status, Ok(raw)) matches StepView::Write { line, log, vital } && line.len()
            > 0 && line.last() == '\n',
        forall|line: String|
            #![trigger trimmed(line@)]
            trimmed(line@).len() > 0 && json_frame(trimmed(line@)) == Ok::<FrameView, Seq<char>>(
                frame,
            ) ==> reply_to(
                Input::Line(line),
                (Passage { fault: None, status, body: Ok(raw) }),
            ) is Some,
{
    reveal_strlit("\n");
}

/// No other frame is: without an id, or with a method that begins with
/// `notifications/`, nothing is read back and the client gets nothing, whatever
/// the proxy said.
pub proof fn no_other_frame_is_answered(frame: FrameView, passage: Passage)
    requires
        member_of(frame.members, "id"@) is None || (member_of(frame.members, "method"@) is Some
            && member_of(frame.members, "method"@)->0.string is Some
            && "notifications/"@.is_prefix_of(
            member_of(frame.members, "method"@)->0.string->0,
        )),
    ensures
        on_post(frame, passage.fault) is Next,
        passage.fault is None ==> on_post(frame, None) == (StepView::Next { log: Seq::empty() }),
        forall|line: String|
            #![trigger trimmed(line@)]
            json_frame(trimmed(line@)) == Ok::<FrameView, Seq<char>>(frame) ==> reply_to(
                Input::Line(line),
                passage,
            ) is None,
{
}

/// What the id is makes no difference to whether a frame is answered, and neither
/// do its other members: only that there is an id, and the method, count.
pub proof fn ids_are_not_judged(frame: FrameView, other: FrameView)
    requires
        member_of(frame.members, "id"@) is Some <==> member_of(other.members, "id"@) is Some,
        member_of(frame.members, "method"@) == member_of(other.members, "method"@),
    ensures
        on_post(frame, None) == on_post(other, None),
{
}

/// A line of white space is passed over without a word; any other is posted as
/// the frame that it is, white space round it apart, or logged where it is none.
pub proof fn lines_are_frames(line: String)
    ensures
        all_white(line@) ==> on_input(Input::Line(line)) == (StepView::Next { log: Seq::empty() }),
        !all_white(line@) ==> (match json_frame(trimmed(line@)) {
            Ok(frame) => on_input(Input::Line(line)) == (StepView::Forward { frame }),
            Err(e) => on_input(Input::Line(line)) == (StepView::Next {
                log: "mcp-bridge: "@ + ("parse jsonrpc frame: "@ + e) + "\n"@,
            }),
        }),
{
    blank_is_white(line@);
}

/// What goes wrong on the way is logged on a line of its own, under the bridge's
/// name, and the bridge reads on.
pub proof fn faults_are_logged(frame: FrameView, status: u16, e: Seq<char>)
    ensures
        on_post(frame, Some(e)) == (StepView::Next {
            log: "mcp-bridge: "@ + ("post upstream: "@ + e) + "\n"@,
        }),
        on_body(frame, status, Err(e)) == (StepView::Next {
            log: "mcp-bridge: "@ + ("read response body: "@ + e) + "\n"@,
        }),
        on_write(false, Some(e)) == (StepView::Next { log: Seq::empty() }),
        on_write(true, None) == (StepView::Next { log: Seq::empty() }),
        on_write(false, None) == (StepView::Next { log: Seq::empty() }),
        on_write(true, Some(e)) matches StepView::Stop { report } && report.exit == ExitCode::Server
            && report.stderr == "mcp-bridge: "@ + ("write stdout: "@ + e) + "\n"@,
{
}

/// Only an answer between 200 and 299 reaches the client as it stands; any other
/// is logged and turned into a refusal under the request's id, and without an id
/// it is only logged.
pub proof fn only_success_is_passed_on(frame: FrameView, status: u16, raw: Seq<char>)
    ensures
        (on_body(frame, status, Ok(raw)) matches StepView::Write { line, log, vital } && vital)
            <==> 200 <= status <= 299,
        !(200 <= status <= 299) && member_of(frame.members, "id"@) is Some ==> on_body(
            frame,
            status,
            Ok(raw),
        ) == (StepView::Write {
            line: refusal(
                member_of(frame.members, "id"@)->0.json,
                status_text(status),
                raw,
            ) + "\n"@,
            log: "mcp-bridge: "@ + ("upstream "@ + status_text(status) + ": "@ + raw) + "\n"@,
            vital: false,
        }),
        !(200 <= status <= 299) && member_of(frame.members, "id"@) is None ==> on_body(
            frame,
            status,
            Ok(raw),
        ) == (StepView::Next {
            log: "mcp-bridge: "@ + ("upstream "@ + status_text(status) + ": "@ + raw) + "\n"@,
        }),
{
}

/// A refusal carries the request's id, the proxy's words as the error's data, the
/// status in its message, and the code for it.
pub proof fn refusal_says_everything(id: Seq<char>, status: Seq<char>, body: Seq<char>)
    ensures
        holds(refusal(id, status, body), quoted("id"@) + seq![':'] + id),
        holds(refusal(id, status, body), quoted("jsonrpc"@) + seq![':'] + "\"2.0\""@),
        holds(refusal(id, status, body), quoted("code"@) + seq![':'] + "-32000"@),
        holds(refusal(id, status, body), quoted("data"@) + seq![':'] + quoted(body)),
        holds(
            refusal(id, status, body),
            quoted("message"@) + seq![':'] + quoted("warden proxy "@ + status),
        ),
{
    let outer = refusal_members(id, status, body);
    let inner = refusal_error(status, body);
    objects_hold_each_member(outer, 0);
    objects_hold_each_member(outer, 1);
    objects_hold_each_member(outer, 2);
    inner_member_is_said(outer, inner, 0);
    inner_member_is_said(outer, inner, 1);
    inner_member_is_said(outer, inner, 2);
}

proof fn inner_member_is_said(
    outer: Seq<(Seq<char>, Seq<char>)>,
    inner: Seq<(Seq<char>, Seq<char>)>,
    k: int,
)
    requires
        outer.len() > 0,
        outer[0].1 == object_text(inner),
        0 <= k < inner.len(),
    ensures
        holds(object_text(outer), quoted(inner[k].0) + seq![':'] + inner[k].1),
{
    let part = quoted(inner[k].0) + seq![':'] + inner[k].1;
    objects_hold_each_member(outer, 0);
    objects_hold_each_member(inner, k);
    holds_behind(quoted(outer[0].0) + seq![':'], object_text(inner), part);
    holds_through(
        object_text(outer),
        quoted(outer[0].0) + seq![':'] + object_text(inner),
        part,
    );
}

proof fn names_are_plain()
    ensures
        quoted("error"@) == "\"error\""@,
        quoted("id"@) == "\"id\""@,
        quoted("jsonrpc"@) == "\"jsonrpc\""@,
        quoted("code"@) == "\"code\""@,
        quoted("data"@) == "\"data\""@,
        quoted("message"@) == "\"message\""@,
{
    reveal_strlit("error");
    reveal_strlit("\"error\"");
    plain_is_kept("error"@);
    assert(quoted("error"@) =~= "\"error\""@);
    reveal_strlit("id");
    reveal_strlit("\"id\"");
    plain_is_kept("id"@);
    assert(quoted("id"@) =~= "\"id\""@);
    reveal_strlit("jsonrpc");
    reveal_strlit("\"jsonrpc\"");
    plain_is_kept("jsonrpc"@);
    assert(quoted("jsonrpc"@) =~= "\"jsonrpc\""@);
    reveal_strlit("code");
    reveal_strlit("\"code\"");
    plain_is_kept("code"@);
    assert(quoted("code"@) =~= "\"code\""@);
    reveal_strlit("data");
    reveal_strlit("\"data\"");
    plain_is_kept("data"@);
    assert(quoted("data"@) =~= "\"data\""@);
    reveal_strlit("message");
    reveal_strlit("\"message\"");
    plain_is_kept("message"@);
    assert(quoted("message"@) =~= "\"message\""@);
}

/// A refusal, letter for letter.
pub proof fn refusal_is_this(id: Seq<char>, status: Seq<char>, body: Seq<char>)
    ensures
        refusal(id, status, body) == "{"@ + "\"error\""@ + ":"@ + ("{"@ + "\"code\""@ + ":"@
            + "-32000"@ + ","@ + "\"data\""@ + ":"@ + quoted(body) + ","@ + "\"message\""@ + ":"@
            + quoted("warden proxy "@ + status) + "}"@) + ","@ + "\"id\""@ + ":"@ + id + ","@
            + "\"jsonrpc\""@ + ":"@ + "\"2.0\""@ + "}"@,
{
    names_are_plain();
    let error = object_text(refusal_error(status, body));
    let message = ("message"@, quoted("warden proxy "@ + status));
    three_members(("code"@, "-32000"@), ("data"@, quoted(body)), message);
    three_in_a_row(
        "\"code\""@,
        "-32000"@,
        "\"data\""@,
        quoted(body),
        "\"message\""@,
        quoted("warden proxy "@ + status),
    );
    three_members(("error"@, error), ("id"@, id), ("jsonrpc"@, "\"2.0\""@));
    three_in_a_row("\"error\""@, error, "\"id\""@, id, "\"jsonrpc\""@, "\"2.0\""@);
}

proof fn three_in_a_row(
    a: Seq<char>,
    x: Seq<char>,
    b: Seq<char>,
    y: Seq<char>,
    c: Seq<char>,
    z: Seq<char>,
)
    ensures
        "{"@ + ((a + ":"@ + x) + ","@ + (b + ":"@ + y) + ","@ + (c + ":"@ + z)) + "}"@ == "{"@ + a
            + ":"@ + x + ","@ + b + ":"@ + y + ","@ + c + ":"@ + z + "}"@,
{
    assert("{"@ + ((a + ":"@ + x) + ","@ + (b + ":"@ + y) + ","@ + (c + ":"@ + z)) + "}"@ =~= "{"@
        + a + ":"@ + x + ","@ + b + ":"@ + y + ","@ + c + ":"@ + z + "}"@);
}

/// Steps are seen as they are.
pub proof fn steps_are_seen_whole(step: Step)
    ensures
        step matches Step::Stop { report } ==> step@ == (StepView::Stop { report: report@ }),
        step matches Step::Next { log } ==> step@ == (StepView::Next { log: log@ }),
        step matches Step::Forward { frame } ==> step@ == (StepView::Forward { frame: frame@ }),
        step is ReadBody ==> step@ is ReadBody,
        step matches Step::Write { line, log, vital } ==> step@ == (StepView::Write {
            line: line@,
            log: log@,
            vital,
        }),
{
}

} // verus!
