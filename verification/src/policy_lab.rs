//! `wardenctl policy test`: a candidate rule against recorded traffic and
//! against the attack catalog.

use crate::config::{first_given, resolve_ledger_url, resolve_policy_url};
use crate::json::{
    array_holds_each_item, array_lines, indent, indented, indented_keeps_lines, nest, nested,
    object_lines, objects_hold_each_member, one_line, pair, pairs_of, quote, quoted,
    quoted_is_one_line, write_array_lines, write_object_lines, Pair,
};
use crate::report::{
    complain, complaint, exit_of_failure, ExitCode, Failure, Printed, PrintedView, Report,
    ReportView,
};
use crate::text::{
    copy_option, copy_texts, debug_quoted, debug_text, decimal, decimal_reads_back, holds,
    holds_behind, holds_end, holds_on, holds_through, integer_fault, integer_of, parse_integer,
    show, show_signed, signed_decimal, signed_decimal_reads_back, text_of, texts,
};
use crate::time::{
    format_rfc3339, in_span, rfc3339_text, span, span_of_days, span_of_hours, span_of_minutes,
    Instant,
};
use vstd::prelude::*;
use vstd::string::*;

verus! {

/// The arguments of `policy`.
#[derive(Debug)]
pub struct PolicyArgs {
    pub action: PolicyAction,
}

/// The verbs of `policy`.
#[derive(Debug)]
pub enum PolicyAction {
    /// Replay a candidate rule and compare the verdicts.
    Test(TestArgs),
}

/// The arguments of `policy test`.
#[derive(Debug)]
pub struct TestArgs {
    /// The candidate's file.
    pub file: std::path::PathBuf,
    /// The candidate's name in messages; the file's own name by default.
    pub name: Option<String>,
    /// Add the candidate to the active rules, or put it in place of one.
    pub mode: ModeArg,
    /// The rule that the candidate replaces.
    pub replace: Option<String>,
    /// What to replay.
    pub against: AgainstArg,
    /// How far back the recorded traffic reaches: `<N>d`, `<N>h` or `<N>m`.
    pub since: String,
    /// At most this many recorded inputs.
    pub limit: i64,
    /// Only inputs of this agent.
    pub agent_id: Option<String>,
    /// Only inputs for this kind of tool.
    pub tool_type: Option<String>,
    /// Print JSON.
    pub json: bool,
    /// The ledger's address.
    pub ledger_url: Option<String>,
    /// The policy engine's address.
    pub policy_url: Option<String>,
    /// End with an error where a known attack now passes.
    pub fail_on_regression: bool,
}

/// How the candidate joins the active rules.
#[derive(Debug, Clone, Copy, PartialEq, Eq, Structural)]
pub enum ModeArg {
    Add,
    Replace,
}

/// What the candidate is replayed against.
#[derive(Debug, Clone, Copy, PartialEq, Eq, Structural)]
pub enum AgainstArg {
    Prod,
    Catalog,
    Both,
}

// ── The window of recorded traffic ───────────────────────────────────────

/// What a window is counted in.
#[derive(Debug, Clone, Copy, PartialEq, Eq, Structural)]
pub enum WindowUnit {
    Days,
    Hours,
    Minutes,
}

/// How far back the recorded traffic reaches.
#[derive(Debug, Clone, Copy, PartialEq, Eq, Structural)]
pub struct Window {
    pub count: i64,
    pub unit: WindowUnit,
}

/// The unit that a letter stands for.
pub open spec fn unit_of(c: char) -> Option<WindowUnit> {
    if c == 'd' {
        Some(WindowUnit::Days)
    } else if c == 'h' {
        Some(WindowUnit::Hours)
    } else if c == 'm' {
        Some(WindowUnit::Minutes)
    } else {
        None
    }
}

/// The window that `<N>d`, `<N>h` or `<N>m` stands for, or what is wrong with
/// it: the number is looked at before the unit.
pub open spec fn window_of(s: Seq<char>) -> Result<Window, Seq<char>> {
    if s.len() == 0 {
        Err("empty"@)
    } else {
        match integer_of(s.drop_last()) {
            None => Err("not a number: "@ + integer_fault(s.drop_last())),
            Some(n) => match unit_of(s.last()) {
                Some(unit) => Ok(Window { count: n, unit }),
                None => Err(
                    "unknown unit "@ + debug_text(seq![s.last()]) + "; expected d|h|m"@,
                ),
            },
        }
    }
}

/// The window by what its number and its unit turned out to be. `quoted` is the
/// unit as `{:?}` writes it.
pub fn make_window(number: Result<i64, String>, unit: char, quoted: &str) -> (r: Result<
    Window,
    String,
>)
    ensures
        match number {
            Err(e) => r matches Err(text) && text@ == "not a number: "@ + e@,
            Ok(n) => match unit_of(unit) {
                Some(u) => r == Ok::<Window, String>(Window { count: n, unit: u }),
                None => r matches Err(text) && text@ == "unknown unit "@ + quoted@
                    + "; expected d|h|m"@,
            },
        },
{
    match number {
        Err(e) => {
            let mut text = "not a number: ".to_owned();
            text.append(e.as_str());
            Err(text)
        },
        Ok(count) => {
            if unit == 'd' {
                Ok(Window { count, unit: WindowUnit::Days })
            } else if unit == 'h' {
                Ok(Window { count, unit: WindowUnit::Hours })
            } else if unit == 'm' {
                Ok(Window { count, unit: WindowUnit::Minutes })
            } else {
                let mut text = "unknown unit ".to_owned();
                text.append(quoted);
                text.append("; expected d|h|m");
                Err(text)
            }
        },
    }
}

/// Reads a window.
pub fn parse_window(s: &str) -> (r: Result<Window, String>)
    ensures
        match r {
            Ok(w) => window_of(s@) == Ok::<Window, Seq<char>>(w),
            Err(e) => window_of(s@) == Err::<Window, Seq<char>>(e@),
        },
{
    let len: usize = s.unicode_len();
    if len == 0 {
        return Err("empty".to_owned());
    }
    let number = s.substring_char(0, len - 1);
    let unit = s.substring_char(len - 1, len);
    assert(number@ =~= s@.drop_last());
    assert(unit@ =~= seq![s@.last()]);
    let quoted = debug_quoted(unit);
    make_window(parse_integer(number), s.get_char(len - 1), quoted.as_str())
}

impl Window {
    /// The window's length in seconds.
    pub open spec fn length(self) -> int {
        match self.unit {
            WindowUnit::Days => self.count * 86_400,
            WindowUnit::Hours => self.count * 3_600,
            WindowUnit::Minutes => self.count * 60,
        }
    }

    /// The window's length in seconds, where such a span can be represented.
    pub fn seconds(&self) -> (r: Option<i64>)
        ensures
            r == span(self.length()),
            self.unit == WindowUnit::Days ==> r == span(self.count * 86_400),
            self.unit == WindowUnit::Hours ==> r == span(self.count * 3_600),
            self.unit == WindowUnit::Minutes ==> r == span(self.count * 60),
    {
        match self.unit {
            WindowUnit::Days => span_of_days(self.count),
            WindowUnit::Hours => span_of_hours(self.count),
            WindowUnit::Minutes => span_of_minutes(self.count),
        }
    }
}

/// Where a window that ends `now` begins; `None` where that is out of range.
pub open spec fn window_start_of(now: Instant, window: Window) -> Option<Instant> {
    let secs = now.secs - window.length();
    if in_span(window.length()) && i64::MIN <= secs <= i64::MAX {
        Some(Instant { secs: secs as i64, nanos: now.nanos })
    } else {
        None
    }
}

/// Where a window that ends `now` begins.
pub fn window_start(now: Instant, window: &Window) -> (r: Option<Instant>)
    ensures
        r == window_start_of(now, *window),
        r matches Some(start) ==> start.secs + window.length() == now.secs && start.nanos
            == now.nanos,
{
    match window.seconds() {
        None => None,
        Some(back) => match now.secs.checked_sub(back) {
            None => None,
            Some(secs) => Some(Instant { secs, nanos: now.nanos }),
        },
    }
}

// ── Verdicts compared ────────────────────────────────────────────────────

/// How the candidate's verdict on one input compares to the active rules'.
#[derive(Debug, Clone, Copy, PartialEq, Eq, Structural)]
pub enum DiffClass {
    AllowToDeny,
    AllowToYellow,
    DenyToAllow,
    YellowToAllow,
    Unchanged,
    /// Any other change.
    Other,
}

/// How many of the inputs changed in each way.
#[derive(Debug, Clone, Copy, PartialEq, Eq, Structural)]
pub struct DiffCounts {
    pub allow_to_deny: u64,
    pub allow_to_yellow: u64,
    pub deny_to_allow: u64,
    pub unchanged: u64,
    pub other: u64,
}

/// How many of `diffs` are `class`.
pub open spec fn occurrences(diffs: Seq<DiffClass>, class: DiffClass) -> nat
    decreases diffs.len(),
{
    if diffs.len() == 0 {
        0
    } else {
        occurrences(diffs.drop_last(), class) + if diffs.last() == class {
            1nat
        } else {
            0nat
        }
    }
}

/// How many of `diffs` let pass what was denied before.
pub open spec fn regressions(diffs: Seq<DiffClass>) -> nat {
    occurrences(diffs, DiffClass::DenyToAllow)
}

/// Counts the changes.
pub fn count_diffs(diffs: &Vec<DiffClass>) -> (r: DiffCounts)
    ensures
        r.allow_to_deny == occurrences(diffs@, DiffClass::AllowToDeny),
        r.allow_to_yellow == occurrences(diffs@, DiffClass::AllowToYellow),
        r.deny_to_allow == occurrences(diffs@, DiffClass::DenyToAllow),
        r.unchanged == occurrences(diffs@, DiffClass::Unchanged),
        r.other == occurrences(diffs@, DiffClass::YellowToAllow) + occurrences(
            diffs@,
            DiffClass::Other,
        ),
{
    let mut c = DiffCounts {
        allow_to_deny: 0,
        allow_to_yellow: 0,
        deny_to_allow: 0,
        unchanged: 0,
        other: 0,
    };
    let mut i: usize = 0;
    while i < diffs.len()
        invariant
            i <= diffs.len(),
            c.allow_to_deny == occurrences(diffs@.take(i as int), DiffClass::AllowToDeny),
            c.allow_to_yellow == occurrences(diffs@.take(i as int), DiffClass::AllowToYellow),
            c.deny_to_allow == occurrences(diffs@.take(i as int), DiffClass::DenyToAllow),
            c.unchanged == occurrences(diffs@.take(i as int), DiffClass::Unchanged),
            c.other == occurrences(diffs@.take(i as int), DiffClass::YellowToAllow) + occurrences(
                diffs@.take(i as int),
                DiffClass::Other,
            ),
            c.allow_to_deny + c.allow_to_yellow + c.deny_to_allow + c.unchanged + c.other == i,
        decreases diffs.len() - i,
    {
        assert(diffs@.take(i + 1).drop_last() =~= diffs@.take(i as int));
        assert(diffs@.take(i + 1).last() == diffs@[i as int]);
        match diffs[i] {
            DiffClass::AllowToDeny => c.allow_to_deny = c.allow_to_deny + 1,
            DiffClass::AllowToYellow => c.allow_to_yellow = c.allow_to_yellow + 1,
            DiffClass::DenyToAllow => c.deny_to_allow = c.deny_to_allow + 1,
            DiffClass::Unchanged => c.unchanged = c.unchanged + 1,
            DiffClass::YellowToAllow => c.other = c.other + 1,
            DiffClass::Other => c.other = c.other + 1,
        }
        i += 1;
    }
    assert(diffs@.take(i as int) =~= diffs@);
    c
}

/// Counts the inputs that now pass and were denied before.
pub fn count_regressions(diffs: &Vec<DiffClass>) -> (r: usize)
    ensures
        r == regressions(diffs@),
{
    let mut n: usize = 0;
    let mut i: usize = 0;
    while i < diffs.len()
        invariant
            i <= diffs.len(),
            n <= i,
            n == regressions(diffs@.take(i as int)),
        decreases diffs.len() - i,
    {
        assert(diffs@.take(i + 1).drop_last() =~= diffs@.take(i as int));
        assert(diffs@.take(i + 1).last() == diffs@[i as int]);
        if diffs[i] == DiffClass::DenyToAllow {
            n += 1;
        }
        i += 1;
    }
    assert(diffs@.take(i as int) =~= diffs@);
    n
}

// ── The attack catalog ───────────────────────────────────────────────────

/// One input of the catalog.
#[derive(Debug)]
pub struct CatalogInput {
    pub tool_type: String,
    /// How suspicious the intent is, in hundredths.
    pub intent_percent: u8,
    pub current_time: String,
    pub agent_id: String,
    pub method: String,
    pub recent_request_count: u32,
    pub agent_kind: String,
}

/// What a [`CatalogInput`] holds.
pub struct CatalogInputView {
    pub tool_type: Seq<char>,
    pub intent_percent: u8,
    pub current_time: Seq<char>,
    pub agent_id: Seq<char>,
    pub method: Seq<char>,
    pub recent_request_count: u32,
    pub agent_kind: Seq<char>,
}

impl View for CatalogInput {
    type V = CatalogInputView;

    open spec fn view(&self) -> CatalogInputView {
        CatalogInputView {
            tool_type: self.tool_type@,
            intent_percent: self.intent_percent,
            current_time: self.current_time@,
            agent_id: self.agent_id@,
            method: self.method@,
            recent_request_count: self.recent_request_count,
            agent_kind: self.agent_kind@,
        }
    }
}

/// An input of the catalog in the shape that all of them share.
pub open spec fn catalog_input(
    tool: Seq<char>,
    intent_percent: u8,
    time: Seq<char>,
    recent: u32,
) -> CatalogInputView {
    CatalogInputView {
        tool_type: tool,
        intent_percent,
        current_time: time,
        agent_id: "catalog-bot"@,
        method: "tools/call"@,
        recent_request_count: recent,
        agent_kind: "mcp"@,
    }
}

/// The catalog: two denied tools, an injected prompt, an export after hours, a
/// burst of requests, a transfer of money, and two harmless calls by which a
/// candidate that denies too much is noticed.
pub open spec fn catalog() -> Seq<CatalogInputView> {
    let noon = "2026-04-29T14:00:00Z"@;
    let night = "2026-04-29T22:00:00Z"@;
    seq![
        catalog_input("shell_exec"@, 5, noon, 0),
        catalog_input("sql_execute"@, 5, noon, 0),
        catalog_input("read_only"@, 95, noon, 0),
        catalog_input("bulk_export"@, 5, night, 0),
        catalog_input("read_only"@, 5, noon, 101),
        catalog_input("wire_transfer"@, 5, noon, 0),
        catalog_input("bulk_export"@, 5, noon, 0),
        catalog_input("read_only"@, 5, noon, 0),
    ]
}

/// An input of the catalog in the shape that all of them share.
fn make_input(tool: &str, intent_percent: u8, time: &str, recent: u32) -> (r: CatalogInput)
    ensures
        r@ == catalog_input(tool@, intent_percent, time@, recent),
        r.tool_type@ == tool@,
        r.intent_percent == intent_percent,
        r.current_time@ == time@,
        r.recent_request_count == recent,
        r.agent_id@ == "catalog-bot"@,
        r.method@ == "tools/call"@,
        r.agent_kind@ == "mcp"@,
{
    CatalogInput {
        tool_type: tool.to_owned(),
        intent_percent,
        current_time: time.to_owned(),
        agent_id: "catalog-bot".to_owned(),
        method: "tools/call".to_owned(),
        recent_request_count: recent,
        agent_kind: "mcp".to_owned(),
    }
}

/// The catalog.
pub fn catalog_inputs() -> (r: Vec<CatalogInput>)
    ensures
        r@.map_values(|i: CatalogInput| i@) == catalog(),
        r@.len() == 8,
        forall|i: int|
            0 <= i < 8 ==> {
                &&& (#[trigger] r@[i]).tool_type@ == catalog()[i].tool_type
                &&& r@[i].intent_percent == (if i == 2 { 95u8 } else { 5 })
                &&& r@[i].recent_request_count == (if i == 4 { 101u32 } else { 0 })
                &&& r@[i].current_time@ == (if i == 3 {
                    "2026-04-29T22:00:00Z"@
                } else {
                    "2026-04-29T14:00:00Z"@
                })
                &&& r@[i].agent_id@ == "catalog-bot"@
                &&& r@[i].method@ == "tools/call"@
                &&& r@[i].agent_kind@ == "mcp"@
            },
{
    let noon = "2026-04-29T14:00:00Z";
    let night = "2026-04-29T22:00:00Z";
    let mut v: Vec<CatalogInput> = Vec::new();
    v.push(make_input("shell_exec", 5, noon, 0));
    v.push(make_input("sql_execute", 5, noon, 0));
    v.push(make_input("read_only", 95, noon, 0));
    v.push(make_input("bulk_export", 5, night, 0));
    v.push(make_input("read_only", 5, noon, 101));
    v.push(make_input("wire_transfer", 5, noon, 0));
    v.push(make_input("bulk_export", 5, noon, 0));
    v.push(make_input("read_only", 5, noon, 0));
    assert(v@.map_values(|i: CatalogInput| i@) =~= catalog());
    v
}

// ── Before anything is asked ─────────────────────────────────────────────

impl ModeArg {
    /// The mode's name.
    pub open spec fn name(self) -> Seq<char> {
        match self {
            ModeArg::Add => "add"@,
            ModeArg::Replace => "replace"@,
        }
    }

    /// The mode's name.
    pub fn as_str(self) -> (r: &'static str)
        ensures
            r@ == self.name(),
            self == ModeArg::Add ==> r@ == "add"@,
            self == ModeArg::Replace ==> r@ == "replace"@,
    {
        match self {
            ModeArg::Add => "add",
            ModeArg::Replace => "replace",
        }
    }
}

/// The candidate's name: the given one, then the file's own, then a stand-in.
pub open spec fn candidate_name_of(name: Option<Seq<char>>, file_name: Option<Seq<char>>) -> Seq<
    char,
> {
    first_given(name, file_name, "candidate.rego"@)
}

/// What is asked of the services, once the arguments are in order.
#[derive(Debug)]
pub struct TestPlan {
    pub candidate_name: String,
    pub mode: ModeArg,
    pub replace: Option<String>,
    /// Where the recorded traffic begins.
    pub since: Instant,
    /// The same in RFC 3339.
    pub since_text: String,
    pub ledger_url: String,
    pub policy_url: String,
}

/// What a [`TestPlan`] holds.
pub struct TestPlanView {
    pub candidate_name: Seq<char>,
    pub mode: ModeArg,
    pub replace: Option<Seq<char>>,
    pub since: Instant,
    pub since_text: Seq<char>,
    pub ledger_url: Seq<char>,
    pub policy_url: Seq<char>,
}

impl View for TestPlan {
    type V = TestPlanView;

    open spec fn view(&self) -> TestPlanView {
        TestPlanView {
            candidate_name: self.candidate_name@,
            mode: self.mode,
            replace: text_of(self.replace),
            since: self.since,
            since_text: self.since_text@,
            ledger_url: self.ledger_url@,
            policy_url: self.policy_url@,
        }
    }
}

/// What became of the arguments.
#[derive(Debug)]
pub enum Planned {
    /// They are in order.
    Ready(TestPlan),
    /// They are not.
    Stop(Report),
}

/// What a [`Planned`] holds.
pub enum PlannedView {
    Ready(TestPlanView),
    Stop(ReportView),
}

impl View for Planned {
    type V = PlannedView;

    open spec fn view(&self) -> PlannedView {
        match self {
            Planned::Ready(plan) => PlannedView::Ready(plan@),
            Planned::Stop(report) => PlannedView::Stop(report@),
        }
    }
}

/// What surrounds the arguments.
#[derive(Debug)]
pub struct Surroundings {
    /// The last part of the candidate's path.
    pub file_name: Option<String>,
    /// The present.
    pub now: Instant,
    /// The ledger's address in the environment.
    pub ledger_env: Option<String>,
    /// The policy engine's address in the environment.
    pub policy_env: Option<String>,
}

/// The plan for traffic that begins at `since`.
pub open spec fn plan_of(
    args: TestArgs,
    around: Surroundings,
    since: Instant,
    since_text: Seq<char>,
) -> TestPlanView {
    TestPlanView {
        candidate_name: candidate_name_of(text_of(args.name), text_of(around.file_name)),
        mode: args.mode,
        replace: text_of(args.replace),
        since,
        since_text,
        ledger_url: first_given(
            text_of(args.ledger_url),
            text_of(around.ledger_env),
            "http://localhost:8083"@,
        ),
        policy_url: first_given(
            text_of(args.policy_url),
            text_of(around.policy_env),
            "http://localhost:8082"@,
        ),
    }
}

/// What becomes of a window that reaches out of the calendar.
pub open spec fn out_of_range() -> PlannedView {
    PlannedView::Stop(complaint("--since: out of range"@, ExitCode::Validation))
}

/// What becomes of the arguments. A replacement needs the name of what it
/// replaces; the window has to be one, and within the calendar.
pub open spec fn planned(args: TestArgs, around: Surroundings) -> PlannedView {
    if args.mode == ModeArg::Replace && args.replace is None {
        PlannedView::Stop(
            complaint("--mode replace requires --replace <rule-name>"@, ExitCode::Validation),
        )
    } else {
        match window_of(args.since@) {
            Err(e) => PlannedView::Stop(complaint("--since: "@ + e, ExitCode::Validation)),
            Ok(w) => match window_start_of(around.now, w) {
                None => out_of_range(),
                Some(since) => match rfc3339_text(since.secs, since.nanos) {
                    None => out_of_range(),
                    Some(text) => PlannedView::Ready(plan_of(args, around, since, text)),
                },
            },
        }
    }
}

/// The plan for traffic that begins at `since`.
pub fn make_plan(args: &TestArgs, around: &Surroundings, since: Instant, since_text: String) -> (r:
    TestPlan)
    ensures
        r@ == plan_of(*args, *around, since, since_text@),
        r.mode == args.mode,
        r.since == since,
        r.since_text@ == since_text@,
        text_of(r.replace) == text_of(args.replace),
        args.name is Some ==> r.candidate_name@ == args.name->0@,
        args.name is None && around.file_name is Some ==> r.candidate_name@
            == around.file_name->0@,
        args.name is None && around.file_name is None ==> r.candidate_name@ == "candidate.rego"@,
        args.ledger_url is Some ==> r.ledger_url@ == args.ledger_url->0@,
        args.ledger_url is None && around.ledger_env is Some ==> r.ledger_url@
            == around.ledger_env->0@,
        args.ledger_url is None && around.ledger_env is None ==> r.ledger_url@
            == "http://localhost:8083"@,
        args.policy_url is Some ==> r.policy_url@ == args.policy_url->0@,
        args.policy_url is None && around.policy_env is Some ==> r.policy_url@
            == around.policy_env->0@,
        args.policy_url is None && around.policy_env is None ==> r.policy_url@
            == "http://localhost:8082"@,
{
    let candidate_name = match &args.name {
        Some(name) => name.clone(),
        None => match &around.file_name {
            Some(name) => name.clone(),
            None => "candidate.rego".to_owned(),
        },
    };
    TestPlan {
        candidate_name,
        mode: args.mode,
        replace: copy_option(&args.replace),
        since,
        since_text,
        ledger_url: resolve_ledger_url(&args.ledger_url, &around.ledger_env),
        policy_url: resolve_policy_url(&args.policy_url, &around.policy_env),
    }
}

/// Puts the arguments in order, or says what is wrong with them.
pub fn plan_test(args: &TestArgs, around: &Surroundings) -> (r: Planned)
    ensures
        r@ == planned(*args, *around),
        args.mode == ModeArg::Replace && args.replace is None ==> r is Stop,
        r matches Planned::Stop(report) ==> report.exit == ExitCode::Validation,
        r matches Planned::Ready(plan) ==> {
            &&& window_of(args.since@) is Ok
            &&& plan.since.secs + window_of(args.since@)->Ok_0.length() == around.now.secs
            &&& plan.since.nanos == around.now.nanos
            &&& rfc3339_text(plan.since.secs, plan.since.nanos) == Some(plan.since_text@)
            &&& plan.mode == args.mode
        },
{
    if args.mode == ModeArg::Replace && args.replace.is_none() {
        return Planned::Stop(
            complain("--mode replace requires --replace <rule-name>", ExitCode::Validation),
        );
    }
    let window = match parse_window(args.since.as_str()) {
        Err(e) => {
            let mut text = "--since: ".to_owned();
            text.append(e.as_str());
            return Planned::Stop(complain(text.as_str(), ExitCode::Validation));
        },
        Ok(w) => w,
    };
    match window_start(around.now, &window) {
        None => Planned::Stop(complain("--since: out of range", ExitCode::Validation)),
        Some(since) => match format_rfc3339(since) {
            None => Planned::Stop(complain("--since: out of range", ExitCode::Validation)),
            Some(since_text) => Planned::Ready(make_plan(args, around, since, since_text)),
        },
    }
}

// ── What is sent ─────────────────────────────────────────────────────────

/// The most recorded inputs that are asked for at once.
pub const CORPUS_LIMIT: i64 = 5000;

/// What the ledger is asked for: recorded inputs from `since` on, of one agent
/// or one kind of tool where that is given.
#[derive(Debug)]
pub struct CorpusQuery {
    pub since: Instant,
    pub until: Option<Instant>,
    pub agent_id: Option<String>,
    pub tool_type: Option<String>,
    pub limit: i64,
}

/// What the ledger is asked for: everything up to the present, and no more
/// inputs than the limit.
pub fn corpus_query(args: &TestArgs, plan: &TestPlan) -> (r: CorpusQuery)
    ensures
        r.since == plan.since,
        r.until is None,
        text_of(r.agent_id) == text_of(args.agent_id),
        text_of(r.tool_type) == text_of(args.tool_type),
        r.limit == if args.limit > CORPUS_LIMIT {
            CORPUS_LIMIT
        } else {
            args.limit
        },
        r.limit <= 5000,
        args.limit <= 5000 ==> r.limit == args.limit,
        args.limit > 5000 ==> r.limit == 5000,
{
    CorpusQuery {
        since: plan.since,
        until: None,
        agent_id: copy_option(&args.agent_id),
        tool_type: copy_option(&args.tool_type),
        limit: if args.limit > CORPUS_LIMIT {
            CORPUS_LIMIT
        } else {
            args.limit
        },
    }
}

/// One recorded input, and when it was recorded.
#[derive(Debug)]
pub struct CorpusRow<I> {
    pub captured_at: String,
    pub input: I,
}

/// The inputs of rows.
pub open spec fn inputs_of<I>(rows: Seq<CorpusRow<I>>) -> Seq<I> {
    rows.map_values(|row: CorpusRow<I>| row.input)
}

/// When each of the rows was recorded.
pub open spec fn times_of<I>(rows: Seq<CorpusRow<I>>) -> Seq<Seq<char>> {
    rows.map_values(|row: CorpusRow<I>| row.captured_at@)
}

/// Rows taken apart; the order is kept on either side.
#[derive(Debug)]
pub struct Recorded<I> {
    pub inputs: Vec<I>,
    pub times: Vec<String>,
}

/// Takes rows apart: the inputs are sent, the times wait for the results.
pub fn part_rows<I>(rows: Vec<CorpusRow<I>>) -> (r: Recorded<I>)
    ensures
        r.inputs@ == inputs_of(rows@),
        texts(r.times@) == times_of(rows@),
        r.inputs@.len() == rows@.len(),
        r.times@.len() == rows@.len(),
        forall|i: int| 0 <= i < rows@.len() ==> #[trigger] r.inputs@[i] == rows@[i].input,
        forall|i: int| 0 <= i < rows@.len() ==> (#[trigger] r.times@[i])@ == rows@[i].captured_at@,
{
    let ghost all = rows@;
    let mut inputs: Vec<I> = Vec::new();
    let mut times: Vec<String> = Vec::new();
    for row in it: rows
        invariant
            it.seq() == all,
            inputs@.len() == it.index(),
            times@.len() == it.index(),
            forall|j: int| 0 <= j < inputs@.len() ==> #[trigger] inputs@[j] == all[j].input,
            forall|j: int| 0 <= j < times@.len() ==> #[trigger] times@[j]@ == all[j].captured_at@,
    {
        inputs.push(row.input);
        times.push(row.captured_at);
    }
    assert(inputs@ =~= inputs_of(all));
    assert(texts(times@) =~= times_of(all));
    Recorded { inputs, times }
}

/// What the policy engine is asked to evaluate: the candidate, how it joins the
/// active rules, and the inputs.
#[derive(Debug)]
pub struct BatchRequest<I> {
    /// The text of the candidate's file.
    pub candidate_rego: String,
    pub candidate_name: String,
    pub mode: ModeArg,
    pub replace_rule_name: Option<String>,
    pub inputs: Vec<I>,
}

/// Whether `request` asks for the candidate `text` as planned.
pub open spec fn asks_as_planned<I>(
    request: BatchRequest<I>,
    plan: TestPlanView,
    text: Seq<char>,
) -> bool {
    &&& request.candidate_rego@ == text
    &&& request.candidate_name@ == plan.candidate_name
    &&& request.mode == plan.mode
    &&& text_of(request.replace_rule_name) == plan.replace
}

/// What the policy engine is asked about these inputs.
pub fn batch_request<I>(plan: &TestPlan, text: &str, inputs: Vec<I>) -> (r: BatchRequest<I>)
    ensures
        asks_as_planned(r, plan@, text@),
        r.candidate_rego@ == text@,
        r.candidate_name@ == plan.candidate_name@,
        r.mode == plan.mode,
        text_of(r.replace_rule_name) == text_of(plan.replace),
        r.inputs == inputs,
{
    BatchRequest {
        candidate_rego: text.to_owned(),
        candidate_name: plan.candidate_name.clone(),
        mode: plan.mode,
        replace_rule_name: copy_option(&plan.replace),
        inputs,
    }
}

/// What the policy engine is asked about the catalog.
pub fn catalog_request(plan: &TestPlan, text: &str) -> (r: BatchRequest<CatalogInput>)
    ensures
        asks_as_planned(r, plan@, text@),
        r.candidate_rego@ == text@,
        r.candidate_name@ == plan.candidate_name@,
        r.mode == plan.mode,
        text_of(r.replace_rule_name) == text_of(plan.replace),
        r.inputs@.len() == 8,
        r.inputs@.map_values(|i: CatalogInput| i@) == catalog(),
{
    batch_request(plan, text, catalog_inputs())
}

// ── One answer after another ─────────────────────────────────────────────

/// What is to be asked next.
#[derive(Debug, Clone, Copy, PartialEq, Eq, Structural)]
pub enum LabAsk {
    /// The ledger, for the recorded traffic: [`Lab::corpus`] takes the answer.
    Corpus,
    /// The policy engine, about that traffic: [`Lab::production`] takes the
    /// answer.
    Production,
    /// The policy engine, about the catalog: [`Lab::catalog`] takes the answer.
    Catalog,
    /// Nothing: [`Lab::report`] sums up.
    Nothing,
}

/// What the ledger recorded.
#[derive(Debug)]
pub struct Corpus {
    /// How many rows the window holds.
    pub total_in_window: i64,
    /// How many came.
    pub returned: i64,
    /// When each row that can be replayed was recorded.
    pub times: Vec<String>,
}

/// Where the policy engine could not compile the candidate.
#[derive(Debug)]
pub struct CompileFault {
    pub message: String,
    pub line: Option<u64>,
    pub column: Option<u64>,
}

/// Why the policy engine evaluated nothing: the failed call, and the compile
/// error that the answer's body holds, if it holds one.
#[derive(Debug)]
pub struct BatchFault {
    pub failure: Failure,
    pub compile_fault: Option<CompileFault>,
}

/// The place of a compile error, where both its line and its column are known.
pub open spec fn place_text(e: CompileFault) -> Seq<char> {
    match (e.line, e.column) {
        (Some(l), Some(c)) => "\n  at line "@ + decimal(l as nat) + ", column "@ + decimal(
            c as nat,
        ),
        _ => Seq::empty(),
    }
}

/// What is reported where the policy engine evaluated nothing. The candidate is
/// to blame where the engine answered 400 with a compile error.
pub open spec fn batch_fault_report(fault: BatchFault) -> ReportView {
    match (fault.failure.answer, fault.compile_fault) {
        (Some(answer), Some(e)) => if answer.status == 400 {
            complaint(
                "candidate failed to compile:\n  "@ + e.message@ + place_text(e),
                ExitCode::Validation,
            )
        } else {
            complaint(
                "evaluate-batch: "@ + fault.failure.message@,
                exit_of_failure(fault.failure@),
            )
        },
        _ => complaint(
            "evaluate-batch: "@ + fault.failure.message@,
            exit_of_failure(fault.failure@),
        ),
    }
}

/// What is reported where the policy engine evaluated nothing.
pub fn surface_batch_error(fault: &BatchFault) -> (r: Report)
    ensures
        r@ == batch_fault_report(*fault),
        fault.failure.answer is Some && fault.failure.answer->0.status == 400
            && fault.compile_fault is Some ==> {
            let e = fault.compile_fault->0;
            &&& r.exit == ExitCode::Validation
            &&& e.line is Some && e.column is Some ==> r.stderr@ == "error: "@ + (
            "candidate failed to compile:\n  "@ + e.message@ + ("\n  at line "@ + decimal(
                e.line->0 as nat,
            ) + ", column "@ + decimal(e.column->0 as nat))) + "\n"@
            &&& e.line is None || e.column is None ==> r.stderr@ == "error: "@ + (
            "candidate failed to compile:\n  "@ + e.message@ + Seq::<char>::empty()) + "\n"@
        },
        !(fault.failure.answer is Some && fault.failure.answer->0.status == 400
            && fault.compile_fault is Some) ==> r.exit == exit_of_failure(fault.failure@)
            && r.stderr@ == "error: "@ + ("evaluate-batch: "@ + fault.failure.message@) + "\n"@,
{
    if let Some(answer) = &fault.failure.answer {
        if let Some(e) = &fault.compile_fault {
            if answer.status == 400 {
                let mut text = "candidate failed to compile:\n  ".to_owned();
                text.append(e.message.as_str());
                let mut place = String::new();
                if let Some(l) = e.line {
                    if let Some(c) = e.column {
                        place = "\n  at line ".to_owned();
                        place.append(show(l).as_str());
                        place.append(", column ");
                        place.append(show(c).as_str());
                    }
                }
                assert(place@ =~= place_text(*e));
                text.append(place.as_str());
                return complain(text.as_str(), ExitCode::Validation);
            }
        }
    }
    let mut text = "evaluate-batch: ".to_owned();
    text.append(fault.failure.message.as_str());
    complain(text.as_str(), ExitCode::from_warden_error(&fault.failure))
}

/// A test under way: what was asked for, what is to be asked next, and the
/// answers so far.
#[derive(Debug)]
pub struct Lab {
    pub against: AgainstArg,
    pub ask: LabAsk,
    pub total_in_window: i64,
    pub returned: i64,
    /// When each replayed row was recorded.
    pub times: Vec<String>,
    pub production: Option<Vec<DiffClass>>,
    pub catalog: Option<Vec<DiffClass>>,
}

/// What is asked after the recorded traffic is done with.
pub open spec fn after_production(against: AgainstArg) -> LabAsk {
    if against == AgainstArg::Prod {
        LabAsk::Nothing
    } else {
        LabAsk::Catalog
    }
}

/// The verdicts on a set of inputs, where there are any.
pub open spec fn diffs_of(diffs: Option<Vec<DiffClass>>) -> Option<Seq<DiffClass>> {
    match diffs {
        Some(v) => Some(v@),
        None => None,
    }
}

impl Lab {
    /// Only what was asked for is replayed, the recorded traffic before the
    /// catalog, and the catalog always, where it was asked for.
    pub open spec fn wf(self) -> bool {
        &&& self.against == AgainstArg::Catalog ==> self.ask != LabAsk::Corpus && self.ask
            != LabAsk::Production && self.production is None
        &&& self.against == AgainstArg::Prod ==> self.ask != LabAsk::Catalog && self.catalog is None
        &&& self.ask == LabAsk::Corpus || self.ask == LabAsk::Production ==> self.production is None
        &&& self.against != AgainstArg::Prod ==> (self.ask == LabAsk::Nothing
            <==> self.catalog is Some)
    }

    /// Begins with what comes first.
    pub fn start(against: AgainstArg) -> (r: Lab)
        ensures
            r.wf(),
            r.against == against,
            r.ask == (if against == AgainstArg::Catalog {
                LabAsk::Catalog
            } else {
                LabAsk::Corpus
            }),
            r.total_in_window == 0,
            r.returned == 0,
            r.times@.len() == 0,
            r.production is None,
            r.catalog is None,
    {
        let ask = match against {
            AgainstArg::Catalog => LabAsk::Catalog,
            _ => LabAsk::Corpus,
        };
        Lab {
            against,
            ask,
            total_in_window: 0,
            returned: 0,
            times: Vec::new(),
            production: None,
            catalog: None,
        }
    }

    /// Takes the ledger's answer. Where nothing can be replayed, the text that
    /// is returned says so, unless JSON was asked for, and the catalog is next.
    pub fn corpus(&mut self, answer: &Result<Corpus, String>, since_text: &str, json: bool) -> (r:
        Result<String, Report>)
        requires
            old(self).wf(),
            old(self).ask == LabAsk::Corpus,
        ensures
            final(self).wf(),
            final(self).against == old(self).against,
            final(self).production is None,
            final(self).catalog == old(self).catalog,
            *answer matches Ok(corpus) ==> {
                &&& corpus.times@.len() > 0 ==> final(self).ask == LabAsk::Production
                &&& corpus.times@.len() == 0 && old(self).against == AgainstArg::Prod
                    ==> final(self).ask == LabAsk::Nothing
                &&& corpus.times@.len() == 0 && old(self).against == AgainstArg::Both
                    ==> final(self).ask == LabAsk::Catalog
            },
            match *answer {
                Err(e) => r matches Err(report) && report@ == complaint(
                    "pull replay corpus from ledger: "@ + e@,
                    ExitCode::Server,
                ) && *final(self) == *old(self),
                Ok(corpus) => {
                    &&& final(self).total_in_window == corpus.total_in_window
                    &&& final(self).returned == corpus.returned
                    &&& texts(final(self).times@) == texts(corpus.times@)
                    &&& final(self).ask == (if corpus.times@.len() == 0 {
                        after_production(old(self).against)
                    } else {
                        LabAsk::Production
                    })
                    &&& r matches Ok(text) && text@ == (if corpus.times@.len() == 0 && !json {
                        "Production corpus  (since "@ + since_text@ + "): 0 replayable rows\n"@
                    } else {
                        Seq::empty()
                    })
                },
            },
    {
        match answer {
            Err(e) => {
                let mut text = "pull replay corpus from ledger: ".to_owned();
                text.append(e.as_str());
                Err(complain(text.as_str(), ExitCode::Server))
            },
            Ok(corpus) => {
                self.total_in_window = corpus.total_in_window;
                self.returned = corpus.returned;
                self.times = copy_texts(&corpus.times);
                if corpus.times.len() == 0 {
                    self.ask = match self.against {
                        AgainstArg::Prod => LabAsk::Nothing,
                        _ => LabAsk::Catalog,
                    };
                    if json {
                        Ok(String::new())
                    } else {
                        let mut text = "Production corpus  (since ".to_owned();
                        text.append(since_text);
                        text.append("): 0 replayable rows\n");
                        Ok(text)
                    }
                } else {
                    self.ask = LabAsk::Production;
                    Ok(String::new())
                }
            },
        }
    }

    /// Takes the policy engine's answer about the recorded traffic; what is
    /// returned ends the command.
    pub fn production(&mut self, answer: Result<Vec<DiffClass>, BatchFault>) -> (r: Option<Report>)
        requires
            old(self).wf(),
            old(self).ask == LabAsk::Production,
        ensures
            final(self).wf(),
            final(self).against == old(self).against,
            final(self).total_in_window == old(self).total_in_window,
            final(self).returned == old(self).returned,
            final(self).times == old(self).times,
            final(self).catalog == old(self).catalog,
            answer is Ok && old(self).against == AgainstArg::Prod ==> final(self).ask
                == LabAsk::Nothing,
            answer is Ok && old(self).against == AgainstArg::Both ==> final(self).ask
                == LabAsk::Catalog,
            match answer {
                Err(fault) => r matches Some(report) && report@ == batch_fault_report(fault)
                    && *final(self) == *old(self),
                Ok(diffs) => r is None && final(self).production == Some(diffs) && final(self).ask
                    == after_production(old(self).against),
            },
    {
        match answer {
            Err(fault) => Some(surface_batch_error(&fault)),
            Ok(diffs) => {
                self.production = Some(diffs);
                self.ask = match self.against {
                    AgainstArg::Prod => LabAsk::Nothing,
                    _ => LabAsk::Catalog,
                };
                None
            },
        }
    }

    /// Takes the policy engine's answer about the catalog; what is returned ends
    /// the command.
    pub fn catalog(&mut self, answer: Result<Vec<DiffClass>, BatchFault>) -> (r: Option<Report>)
        requires
            old(self).wf(),
            old(self).ask == LabAsk::Catalog,
        ensures
            final(self).wf(),
            final(self).against == old(self).against,
            final(self).total_in_window == old(self).total_in_window,
            final(self).returned == old(self).returned,
            final(self).times == old(self).times,
            final(self).production == old(self).production,
            match answer {
                Err(fault) => r matches Some(report) && report@ == batch_fault_report(fault)
                    && *final(self) == *old(self),
                Ok(diffs) => r is None && final(self).catalog == Some(diffs) && final(self).ask
                    == LabAsk::Nothing,
            },
    {
        match answer {
            Err(fault) => Some(surface_batch_error(&fault)),
            Ok(diffs) => {
                self.catalog = Some(diffs);
                self.ask = LabAsk::Nothing;
                None
            },
        }
    }

    /// How many known attacks now pass and were denied before.
    pub open spec fn regressed(self) -> nat {
        match self.catalog {
            Some(diffs) => regressions(diffs@),
            None => 0,
        }
    }

    /// How many known attacks now pass and were denied before.
    pub fn catalog_regressions(&self) -> (r: usize)
        ensures
            r == self.regressed(),
            self.catalog is None ==> r == 0,
            self.catalog is Some ==> r == occurrences(self.catalog->0@, DiffClass::DenyToAllow),
    {
        match &self.catalog {
            Some(diffs) => count_regressions(diffs),
            None => 0,
        }
    }
}

// ── The summary ──────────────────────────────────────────────────────────

/// One number with its label.
pub open spec fn tile(label: Seq<char>, n: nat) -> Seq<char> {
    "  "@ + label + " "@ + decimal(n) + "\n"@
}

/// The part of the summary about the recorded traffic.
pub open spec fn production_text(since: Seq<char>, total: i64, diffs: Seq<DiffClass>) -> Seq<char> {
    "Production corpus  (since "@ + since + ", "@ + decimal(diffs.len()) + " replayed of "@
        + signed_decimal(total as int) + " in window)\n"@ + tile(
        "Allow → Deny    "@,
        occurrences(diffs, DiffClass::AllowToDeny),
    ) + tile("Allow → Yellow  "@, occurrences(diffs, DiffClass::AllowToYellow)) + tile(
        "Deny  → Allow   "@,
        occurrences(diffs, DiffClass::DenyToAllow),
    ) + tile("unchanged       "@, occurrences(diffs, DiffClass::Unchanged)) + "\n"@
}

/// The part of the summary about the catalog.
pub open spec fn catalog_text(diffs: Seq<DiffClass>) -> Seq<char> {
    "Chaos catalog ("@ + decimal(diffs.len()) + " attacks)\n"@ + tile(
        "Allow → Deny    "@,
        occurrences(diffs, DiffClass::AllowToDeny),
    ) + tile("Deny  → Allow (regression) "@, occurrences(diffs, DiffClass::DenyToAllow)) + tile(
        "unchanged       "@,
        occurrences(diffs, DiffClass::Unchanged),
    ) + "  Regressions: "@ + decimal(regressions(diffs)) + "\n"@
}

/// The summary for people: what was tested, and a part for each set of inputs
/// that was replayed.
pub open spec fn human_text(
    file: Seq<char>,
    mode: ModeArg,
    since: Seq<char>,
    total: i64,
    production: Option<Seq<DiffClass>>,
    catalog: Option<Seq<DiffClass>>,
) -> Seq<char> {
    "Policy Lab — "@ + file + " (mode: "@ + mode.name() + ")\n\n"@ + (match production {
        Some(diffs) => production_text(since, total, diffs),
        None => Seq::empty(),
    }) + (match catalog {
        Some(diffs) => catalog_text(diffs),
        None => Seq::empty(),
    })
}

/// One number with its label.
fn render_tile(label: &str, n: u64) -> (r: String)
    ensures
        r@ == tile(label@, n as nat),
{
    let mut out = "  ".to_owned();
    out.append(label);
    out.append(" ");
    out.append(show(n).as_str());
    out.append("\n");
    out
}

/// The part of the summary about the recorded traffic.
fn render_production(since: &str, total: i64, diffs: &Vec<DiffClass>) -> (r: String)
    ensures
        r@ == production_text(since@, total, diffs@),
{
    let counts = count_diffs(diffs);
    let mut out = "Production corpus  (since ".to_owned();
    out.append(since);
    out.append(", ");
    out.append(show(diffs.len() as u64).as_str());
    out.append(" replayed of ");
    out.append(show_signed(total).as_str());
    out.append(" in window)\n");
    out.append(render_tile("Allow → Deny    ", counts.allow_to_deny).as_str());
    out.append(render_tile("Allow → Yellow  ", counts.allow_to_yellow).as_str());
    out.append(render_tile("Deny  → Allow   ", counts.deny_to_allow).as_str());
    out.append(render_tile("unchanged       ", counts.unchanged).as_str());
    out.append("\n");
    out
}

/// The part of the summary about the catalog.
fn render_catalog(diffs: &Vec<DiffClass>) -> (r: String)
    ensures
        r@ == catalog_text(diffs@),
{
    let counts = count_diffs(diffs);
    let mut out = "Chaos catalog (".to_owned();
    out.append(show(diffs.len() as u64).as_str());
    out.append(" attacks)\n");
    out.append(render_tile("Allow → Deny    ", counts.allow_to_deny).as_str());
    out.append(render_tile("Deny  → Allow (regression) ", counts.deny_to_allow).as_str());
    out.append(render_tile("unchanged       ", counts.unchanged).as_str());
    out.append("  Regressions: ");
    out.append(show(count_regressions(diffs) as u64).as_str());
    out.append("\n");
    out
}

/// The summary for people.
pub fn render_human(
    file: &str,
    mode: ModeArg,
    since: &str,
    total: i64,
    production: &Option<Vec<DiffClass>>,
    catalog: &Option<Vec<DiffClass>>,
) -> (r: String)
    ensures
        r@ == human_text(
            file@,
            mode,
            since@,
            total,
            diffs_of(*production),
            diffs_of(*catalog),
        ),
{
    let mut out = "Policy Lab — ".to_owned();
    out.append(file);
    out.append(" (mode: ");
    out.append(mode.as_str());
    out.append(")\n\n");
    let first = match production {
        Some(diffs) => render_production(since, total, diffs),
        None => String::new(),
    };
    out.append(first.as_str());
    let second = match catalog {
        Some(diffs) => render_catalog(diffs),
        None => String::new(),
    };
    out.append(second.as_str());
    out
}

/// How a test ends: with an error only where that was asked for and a known
/// attack now passes.
pub open spec fn lab_exit(fail_on_regression: bool, regressed: nat) -> ExitCode {
    if fail_on_regression && regressed > 0 {
        ExitCode::Validation
    } else {
        ExitCode::Success
    }
}

/// A response of the policy engine: its members as indented JSON, and its
/// results member by member.
#[derive(Debug)]
pub struct Reply {
    /// The members before the results.
    pub head: Vec<Pair>,
    /// One result for each input.
    pub results: Vec<Vec<Pair>>,
    /// The members after the results.
    pub tail: Vec<Pair>,
}

/// The policy engine's responses; one that was not asked for is not looked at.
#[derive(Debug)]
pub struct Responses {
    pub production: Reply,
    pub catalog: Reply,
}

/// The members of each result.
pub open spec fn results_of(results: Seq<Vec<Pair>>) -> Seq<Seq<(Seq<char>, Seq<char>)>> {
    results.map_values(|result: Vec<Pair>| pairs_of(result@))
}

/// A result with the time at which its input was recorded, where there is one.
pub open spec fn with_time(
    result: Seq<(Seq<char>, Seq<char>)>,
    times: Seq<Seq<char>>,
    i: int,
) -> Seq<(Seq<char>, Seq<char>)> {
    if i < times.len() {
        result.push(("captured_at"@, quoted(times[i])))
    } else {
        result
    }
}

/// Each result with the time of the row of the same place.
pub open spec fn stamped_results(
    results: Seq<Seq<(Seq<char>, Seq<char>)>>,
    times: Seq<Seq<char>>,
) -> Seq<Seq<char>> {
    Seq::new(results.len(), |i: int| object_lines(with_time(results[i], times, i)))
}

/// The results of a response, their values one level further in.
pub open spec fn nested_results(reply: Reply) -> Seq<Seq<(Seq<char>, Seq<char>)>> {
    results_of(reply.results@).map_values(
        |result: Seq<(Seq<char>, Seq<char>)>| nested(result),
    )
}

/// A response as indented JSON, each result with the time of its row.
pub open spec fn reply_text(reply: Reply, times: Seq<Seq<char>>) -> Seq<char> {
    object_lines(
        nested(pairs_of(reply.head@)).push(
            ("results"@, indented(array_lines(stamped_results(nested_results(reply), times)))),
        ) + nested(pairs_of(reply.tail@)),
    )
}

/// A response as the value of a member, `null` where there is none.
pub open spec fn response_value(given: bool, reply: Reply, times: Seq<Seq<char>>) -> Seq<char> {
    if given {
        indented(reply_text(reply, times))
    } else {
        "null"@
    }
}

/// The summary as indented JSON: both responses, the window that was replayed,
/// and the number of regressions. The inputs of the catalog were never recorded,
/// so its results have no time.
pub open spec fn lab_json(lab: Lab, since: Seq<char>, responses: Responses) -> Seq<char> {
    object_lines(
        seq![
            ("catalog"@, response_value(lab.catalog is Some, responses.catalog, Seq::empty())),
            ("catalog_regressions"@, decimal(lab.regressed())),
            (
                "production"@,
                response_value(lab.production is Some, responses.production, texts(lab.times@)),
            ),
            ("production_window"@, indented(lab_window(lab, since))),
        ],
    )
}

/// The window that was replayed, as indented JSON.
pub open spec fn lab_window(lab: Lab, since: Seq<char>) -> Seq<char> {
    object_lines(
        seq![
            ("returned"@, signed_decimal(lab.returned as int)),
            ("since"@, quoted(since)),
            ("total_in_window"@, signed_decimal(lab.total_in_window as int)),
        ],
    )
}

/// A copy of the members of a result.
fn copy_pairs(pairs: &Vec<Pair>) -> (r: Vec<Pair>)
    ensures
        pairs_of(r@) == pairs_of(pairs@),
{
    let mut out: Vec<Pair> = Vec::new();
    let mut i: usize = 0;
    while i < pairs.len()
        invariant
            i <= pairs.len(),
            out.len() == i,
            forall|j: int|
                0 <= j < i ==> (#[trigger] out@[j]).name@ == pairs@[j].name@ && out@[j].value@
                    == pairs@[j].value@,
        decreases pairs.len() - i,
    {
        out.push(pair(pairs[i].name.as_str(), pairs[i].value.clone()));
        i += 1;
    }
    assert(pairs_of(out@) =~= pairs_of(pairs@));
    out
}

/// Each result as indented JSON, with `captured_at` of the row of the same
/// place; a result without a time stays as it is.
pub fn stamped(results: &Vec<Vec<Pair>>, times: &Vec<String>) -> (r: Vec<String>)
    ensures
        texts(r@) == stamped_results(results_of(results@), texts(times@)),
        r@.len() == results@.len(),
        forall|i: int|
            0 <= i < results@.len() && i < times@.len() ==> #[trigger] r@[i]@ == object_lines(
                pairs_of(results@[i]@).push(("captured_at"@, quoted(times@[i]@))),
            ),
        forall|i: int|
            times@.len() <= i < results@.len() ==> #[trigger] r@[i]@ == object_lines(
                pairs_of(results@[i]@),
            ),
{
    let mut out: Vec<String> = Vec::new();
    let mut i: usize = 0;
    while i < results.len()
        invariant
            i <= results.len(),
            out.len() == i,
            forall|j: int|
                0 <= j < i ==> #[trigger] out@[j]@ == object_lines(
                    with_time(pairs_of(results@[j]@), texts(times@), j),
                ),
        decreases results.len() - i,
    {
        let mut members = copy_pairs(&results[i]);
        if i < times.len() {
            let ghost before = members@;
            members.push(pair("captured_at", quote(times[i].as_str())));
            assert(pairs_of(members@) =~= pairs_of(before).push(
                ("captured_at"@, quoted(texts(times@)[i as int])),
            ));
        }
        out.push(write_object_lines(&members));
        i += 1;
    }
    assert(texts(out@) =~= stamped_results(results_of(results@), texts(times@)));
    out
}

/// The results of a response, their values one level further in.
fn nest_results(results: &Vec<Vec<Pair>>) -> (r: Vec<Vec<Pair>>)
    ensures
        results_of(r@) == results_of(results@).map_values(
            |result: Seq<(Seq<char>, Seq<char>)>| nested(result),
        ),
{
    let mut out: Vec<Vec<Pair>> = Vec::new();
    let mut i: usize = 0;
    while i < results.len()
        invariant
            i <= results.len(),
            out.len() == i,
            forall|j: int|
                0 <= j < i ==> pairs_of((#[trigger] out@[j])@) == nested(pairs_of(results@[j]@)),
        decreases results.len() - i,
    {
        out.push(nest(&results[i]));
        i += 1;
    }
    assert(results_of(out@) =~= results_of(results@).map_values(
        |result: Seq<(Seq<char>, Seq<char>)>| nested(result),
    ));
    out
}

/// A response as indented JSON, each result with the time of its row.
fn render_reply(reply: &Reply, times: &Vec<String>) -> (r: String)
    ensures
        r@ == reply_text(*reply, texts(times@)),
{
    let results = stamped(&nest_results(&reply.results), times);
    let mut members = nest(&reply.head);
    let ghost head = members@;
    let list = indent(write_array_lines(&results).as_str());
    members.push(pair("results", list));
    assert(pairs_of(members@) =~= pairs_of(head).push(("results"@, list@)));
    let mut rest = nest(&reply.tail);
    let ghost first = members@;
    let ghost second = rest@;
    members.append(&mut rest);
    assert(pairs_of(members@) =~= pairs_of(first) + pairs_of(second));
    write_object_lines(&members)
}

/// A response as the value of a member.
fn render_response(given: bool, reply: &Reply, times: &Vec<String>) -> (r: String)
    ensures
        r@ == response_value(given, *reply, texts(times@)),
{
    if given {
        indent(render_reply(reply, times).as_str())
    } else {
        "null".to_owned()
    }
}

impl Lab {
    /// The summary as indented JSON.
    fn render_json(&self, since: &str, responses: &Responses) -> (r: String)
        ensures
            r@ == lab_json(*self, since@, *responses),
    {
        let mut window: Vec<Pair> = Vec::new();
        window.push(pair("returned", show_signed(self.returned)));
        window.push(pair("since", quote(since)));
        window.push(pair("total_in_window", show_signed(self.total_in_window)));
        let ghost inner = seq![
            ("returned"@, signed_decimal(self.returned as int)),
            ("since"@, quoted(since@)),
            ("total_in_window"@, signed_decimal(self.total_in_window as int)),
        ];
        assert(pairs_of(window@) =~= inner);
        let window_text = write_object_lines(&window);
        let regressed = show(self.catalog_regressions() as u64);
        let mut whole: Vec<Pair> = Vec::new();
        let none: Vec<String> = Vec::new();
        assert(texts(none@) =~= Seq::empty());
        whole.push(
            pair(
                "catalog",
                render_response(self.catalog.is_some(), &responses.catalog, &none),
            ),
        );
        whole.push(pair("catalog_regressions", regressed));
        whole.push(
            pair(
                "production",
                render_response(self.production.is_some(), &responses.production, &self.times),
            ),
        );
        whole.push(pair("production_window", indent(window_text.as_str())));
        let ghost outer = seq![
            ("catalog"@, response_value(self.catalog is Some, responses.catalog, Seq::empty())),
            ("catalog_regressions"@, decimal(self.regressed())),
            (
                "production"@,
                response_value(self.production is Some, responses.production, texts(self.times@)),
            ),
            ("production_window"@, indented(lab_window(*self, since@))),
        ];
        assert(pairs_of(whole@) =~= outer);
        write_object_lines(&whole)
    }

    /// What is reported once there is nothing left to ask.
    pub fn report(
        &self,
        file: &str,
        plan: &TestPlan,
        json: bool,
        responses: &Responses,
        fail_on_regression: bool,
    ) -> (r: Report)
        requires
            self.wf(),
            self.ask == LabAsk::Nothing,
        ensures
            r@ == (ReportView {
                stdout: PrintedView::Text(
                    if json {
                        lab_json(*self, plan.since_text@, *responses) + "\n"@
                    } else {
                        human_text(
                            file@,
                            plan.mode,
                            plan.since_text@,
                            self.total_in_window,
                            diffs_of(self.production),
                            diffs_of(self.catalog),
                        )
                    },
                ),
                stderr: Seq::empty(),
                exit: lab_exit(fail_on_regression, self.regressed()),
            }),
            r.exit == ExitCode::Success || r.exit == ExitCode::Validation,
            r.exit == ExitCode::Validation <==> fail_on_regression && self.catalog is Some
                && self.catalog->0@.contains(DiffClass::DenyToAllow),
            r.stderr@.len() == 0,
            r.stdout matches Printed::Text(out) && out@ == (if json {
                lab_json(*self, plan.since_text@, *responses) + "\n"@
            } else {
                human_text(
                    file@,
                    plan.mode,
                    plan.since_text@,
                    self.total_in_window,
                    diffs_of(self.production),
                    diffs_of(self.catalog),
                )
            }),
    {
        let text = if json {
            let mut text = self.render_json(plan.since_text.as_str(), responses);
            text.append("\n");
            text
        } else {
            render_human(
                file,
                plan.mode,
                plan.since_text.as_str(),
                self.total_in_window,
                &self.production,
                &self.catalog,
            )
        };
        proof {
            if self.catalog is Some {
                regressions_are_inputs(self.catalog->0@);
            }
        }
        let exit = if fail_on_regression && self.catalog_regressions() > 0 {
            ExitCode::Validation
        } else {
            ExitCode::Success
        };
        Report { stdout: Printed::Text(text), stderr: String::new(), exit }
    }
}

/// What is reported of a candidate that cannot be read.
pub fn unreadable(file: &str, message: &str) -> (r: Report)
    ensures
        r@ == complaint("read "@ + file@ + ": "@ + message@, ExitCode::Validation),
{
    let mut text = "read ".to_owned();
    text.append(file);
    text.append(": ");
    text.append(message);
    complain(text.as_str(), ExitCode::Validation)
}

/// What is reported of a ledger address that is none.
pub fn bad_ledger_url(url: &str, message: &str) -> (r: Report)
    ensures
        r@ == complaint("ledger url "@ + url@ + ": "@ + message@, ExitCode::Validation),
{
    let mut text = "ledger url ".to_owned();
    text.append(url);
    text.append(": ");
    text.append(message);
    complain(text.as_str(), ExitCode::Validation)
}

// ── Laws ─────────────────────────────────────────────────────────────────

/// Every input is counted in exactly one way.
pub proof fn diffs_add_up(diffs: Seq<DiffClass>)
    ensures
        occurrences(diffs, DiffClass::AllowToDeny) + occurrences(diffs, DiffClass::AllowToYellow)
            + occurrences(diffs, DiffClass::DenyToAllow) + occurrences(
            diffs,
            DiffClass::YellowToAllow,
        ) + occurrences(diffs, DiffClass::Unchanged) + occurrences(diffs, DiffClass::Other)
            == diffs.len(),
        regressions(diffs) <= diffs.len(),
    decreases diffs.len(),
{
    if diffs.len() > 0 {
        diffs_add_up(diffs.drop_last());
    }
}

/// A test that was told to ends with an error exactly where some known attack
/// passes that was denied before; one that was not never does.
pub proof fn any_regression_fails(diffs: Seq<DiffClass>)
    ensures
        lab_exit(true, regressions(diffs)) == ExitCode::Validation <==> diffs.contains(
            DiffClass::DenyToAllow,
        ),
        lab_exit(false, regressions(diffs)) == ExitCode::Success,
{
    regressions_are_inputs(diffs);
}

proof fn regressions_are_inputs(diffs: Seq<DiffClass>)
    ensures
        regressions(diffs) > 0 <==> diffs.contains(DiffClass::DenyToAllow),
    decreases diffs.len(),
{
    if diffs.len() > 0 {
        let front = diffs.drop_last();
        regressions_are_inputs(front);
        assert(diffs[diffs.len() - 1] == diffs.last());
        if front.contains(DiffClass::DenyToAllow) {
            let i = choose|i: int| 0 <= i < front.len() && front[i] == DiffClass::DenyToAllow;
            assert(diffs[i] == front[i]);
        }
        if diffs.contains(DiffClass::DenyToAllow) {
            let i = choose|i: int| 0 <= i < diffs.len() && diffs[i] == DiffClass::DenyToAllow;
            if i < front.len() {
                assert(front[i] == diffs[i]);
            }
        }
    }
}

/// A finished test has replayed the catalog exactly where that was asked for,
/// and no recorded traffic where only the catalog was.
pub proof fn only_what_was_asked_for(lab: Lab)
    requires
        lab.wf(),
        lab.ask == LabAsk::Nothing,
    ensures
        lab.catalog is Some <==> lab.against != AgainstArg::Prod,
        lab.against == AgainstArg::Catalog ==> lab.production is None,
{
}

/// In the summary as JSON every result about recorded traffic carries the time of
/// the very row whose input it is about.
pub proof fn every_result_has_its_time<I>(lab: Lab, rows: Seq<CorpusRow<I>>, reply: Reply, i: int)
    requires
        texts(lab.times@) == times_of(rows),
        reply.results@.len() == rows.len(),
        0 <= i < rows.len(),
    ensures
        stamped_results(nested_results(reply), texts(lab.times@))[i] == object_lines(
            nested(pairs_of(reply.results@[i]@)).push(
                ("captured_at"@, quoted(rows[i].captured_at@)),
            ),
        ),
{
}

/// A window of so many days is as long as one of twenty-four times as many
/// hours, and sixty times as many minutes as hours.
pub proof fn units_agree(n: i64, hours: i64, minutes: i64)
    requires
        hours == n * 24,
        minutes == hours * 60,
    ensures
        (Window { count: n, unit: WindowUnit::Days }).length() == (Window {
            count: hours,
            unit: WindowUnit::Hours,
        }).length(),
        (Window { count: hours, unit: WindowUnit::Hours }).length() == (Window {
            count: minutes,
            unit: WindowUnit::Minutes,
        }).length(),
{
}

/// The number of a class is how many of the verdicts are of it.
pub proof fn occurrences_count(diffs: Seq<DiffClass>, class: DiffClass)
    ensures
        occurrences(diffs, class) == diffs.filter(|d: DiffClass| d == class).len(),
    decreases diffs.len(),
{
    reveal(Seq::filter);
    if diffs.len() > 0 {
        occurrences_count(diffs.drop_last(), class);
    }
}

/// One more verdict adds one to the number of its own class and nothing to any
/// other, wherever the verdicts stand.
pub proof fn verdicts_are_counted_once(
    a: Seq<DiffClass>,
    d: DiffClass,
    b: Seq<DiffClass>,
    class: DiffClass,
)
    ensures
        occurrences(a.push(d) + b, class) == occurrences(a + b, class) + (if d == class {
            1int
        } else {
            0
        }),
    decreases b.len(),
{
    if b.len() == 0 {
        assert(a.push(d) + b =~= a.push(d));
        assert(a.push(d).drop_last() =~= a);
        assert(a + b =~= a);
    } else {
        verdicts_are_counted_once(a, d, b.drop_last(), class);
        assert((a.push(d) + b).drop_last() =~= a.push(d) + b.drop_last());
        assert((a + b).drop_last() =~= a + b.drop_last());
    }
}

/// What stands in one of the parts of a text of six.
proof fn part_of_six(
    a: Seq<char>,
    b: Seq<char>,
    c: Seq<char>,
    d: Seq<char>,
    e: Seq<char>,
    f: Seq<char>,
)
    ensures
        holds(a + b + c + d + e + f, a),
        holds(a + b + c + d + e + f, b),
        holds(a + b + c + d + e + f, c),
        holds(a + b + c + d + e + f, d),
        holds(a + b + c + d + e + f, e),
{
    broadcast use holds_on;

    holds_end(Seq::empty(), a);
    assert(Seq::<char>::empty() + a =~= a);
    holds_end(a, b);
    holds_end(a + b, c);
    holds_end(a + b + c, d);
    holds_end(a + b + c + d, e);
}

/// A label and a number on a line.
proof fn tile_is_a_line(label: Seq<char>, whole: Seq<char>, n: nat)
    requires
        whole == seq![' ', ' '] + label + seq![' '],
    ensures
        tile(label, n) == whole + decimal(n) + "\n"@,
{
    reveal_strlit("  ");
    reveal_strlit(" ");
    assert("  "@ =~= seq![' ', ' ']);
    assert(" "@ =~= seq![' ']);
}

proof fn labels_are_whole()
    ensures
        "  Allow → Deny     "@ == seq![' ', ' '] + "Allow → Deny    "@ + seq![' '],
        "  Allow → Yellow   "@ == seq![' ', ' '] + "Allow → Yellow  "@ + seq![' '],
        "  Deny  → Allow    "@ == seq![' ', ' '] + "Deny  → Allow   "@ + seq![' '],
        "  unchanged        "@ == seq![' ', ' '] + "unchanged       "@ + seq![' '],
        "  Deny  → Allow (regression)  "@ == seq![' ', ' '] + "Deny  → Allow (regression) "@ + seq![
            ' ',
        ],
{
    reveal_strlit("  Allow → Deny     ");
    reveal_strlit("Allow → Deny    ");
    assert("  Allow → Deny     "@ =~= seq![' ', ' '] + "Allow → Deny    "@ + seq![' ']);
    reveal_strlit("  Allow → Yellow   ");
    reveal_strlit("Allow → Yellow  ");
    assert("  Allow → Yellow   "@ =~= seq![' ', ' '] + "Allow → Yellow  "@ + seq![' ']);
    reveal_strlit("  Deny  → Allow    ");
    reveal_strlit("Deny  → Allow   ");
    assert("  Deny  → Allow    "@ =~= seq![' ', ' '] + "Deny  → Allow   "@ + seq![' ']);
    reveal_strlit("  unchanged        ");
    reveal_strlit("unchanged       ");
    assert("  unchanged        "@ =~= seq![' ', ' '] + "unchanged       "@ + seq![' ']);
    reveal_strlit("  Deny  → Allow (regression)  ");
    reveal_strlit("Deny  → Allow (regression) ");
    assert("  Deny  → Allow (regression)  "@ =~= seq![' ', ' '] + "Deny  → Allow (regression) "@
        + seq![' ']);
}

/// In the summary of recorded traffic each label stands before the number of
/// verdicts of its own class, and the first line says how many were replayed.
pub proof fn traffic_is_summed_up(since: Seq<char>, total: i64, diffs: Seq<DiffClass>)
    ensures
        production_text(since, total, diffs) == "Production corpus  (since "@ + since + ", "@
            + decimal(diffs.len()) + " replayed of "@ + signed_decimal(total as int)
            + " in window)\n"@ + ("  Allow → Deny     "@ + decimal(
            diffs.filter(|d: DiffClass| d == DiffClass::AllowToDeny).len(),
        ) + "\n"@) + ("  Allow → Yellow   "@ + decimal(
            diffs.filter(|d: DiffClass| d == DiffClass::AllowToYellow).len(),
        ) + "\n"@) + ("  Deny  → Allow    "@ + decimal(
            diffs.filter(|d: DiffClass| d == DiffClass::DenyToAllow).len(),
        ) + "\n"@) + ("  unchanged        "@ + decimal(
            diffs.filter(|d: DiffClass| d == DiffClass::Unchanged).len(),
        ) + "\n"@) + "\n"@,
        holds(
            production_text(since, total, diffs),
            "Production corpus  (since "@ + since + ", "@ + decimal(diffs.len()) + " replayed of "@
                + signed_decimal(total as int) + " in window)\n"@,
        ),
        holds(
            production_text(since, total, diffs),
            "  Allow → Deny     "@ + decimal(
                diffs.filter(|d: DiffClass| d == DiffClass::AllowToDeny).len(),
            ) + "\n"@,
        ),
        holds(
            production_text(since, total, diffs),
            "  Allow → Yellow   "@ + decimal(
                diffs.filter(|d: DiffClass| d == DiffClass::AllowToYellow).len(),
            ) + "\n"@,
        ),
        holds(
            production_text(since, total, diffs),
            "  Deny  → Allow    "@ + decimal(
                diffs.filter(|d: DiffClass| d == DiffClass::DenyToAllow).len(),
            ) + "\n"@,
        ),
        holds(
            production_text(since, total, diffs),
            "  unchanged        "@ + decimal(
                diffs.filter(|d: DiffClass| d == DiffClass::Unchanged).len(),
            ) + "\n"@,
        ),
{
    let n1 = diffs.filter(|d: DiffClass| d == DiffClass::AllowToDeny).len();
    let n2 = diffs.filter(|d: DiffClass| d == DiffClass::AllowToYellow).len();
    let n3 = diffs.filter(|d: DiffClass| d == DiffClass::DenyToAllow).len();
    let n4 = diffs.filter(|d: DiffClass| d == DiffClass::Unchanged).len();
    occurrences_count(diffs, DiffClass::AllowToDeny);
    occurrences_count(diffs, DiffClass::AllowToYellow);
    occurrences_count(diffs, DiffClass::DenyToAllow);
    occurrences_count(diffs, DiffClass::Unchanged);
    labels_are_whole();
    tile_is_a_line("Allow → Deny    "@, "  Allow → Deny     "@, n1);
    tile_is_a_line("Allow → Yellow  "@, "  Allow → Yellow   "@, n2);
    tile_is_a_line("Deny  → Allow   "@, "  Deny  → Allow    "@, n3);
    tile_is_a_line("unchanged       "@, "  unchanged        "@, n4);
    part_of_six(
        "Production corpus  (since "@ + since + ", "@ + decimal(diffs.len()) + " replayed of "@
            + signed_decimal(total as int) + " in window)\n"@,
        tile("Allow → Deny    "@, n1),
        tile("Allow → Yellow  "@, n2),
        tile("Deny  → Allow   "@, n3),
        tile("unchanged       "@, n4),
        "\n"@,
    );
}

/// In the summary of the catalog each label stands before the number of verdicts
/// of its own class, and the last line gives the regressions: the attacks that
/// were denied and now pass.
pub proof fn attacks_are_summed_up(diffs: Seq<DiffClass>)
    ensures
        catalog_text(diffs) == "Chaos catalog ("@ + decimal(diffs.len()) + " attacks)\n"@ + (
        "  Allow → Deny     "@ + decimal(
            diffs.filter(|d: DiffClass| d == DiffClass::AllowToDeny).len(),
        ) + "\n"@) + ("  Deny  → Allow (regression)  "@ + decimal(
            diffs.filter(|d: DiffClass| d == DiffClass::DenyToAllow).len(),
        ) + "\n"@) + ("  unchanged        "@ + decimal(
            diffs.filter(|d: DiffClass| d == DiffClass::Unchanged).len(),
        ) + "\n"@) + "  Regressions: "@ + decimal(
            diffs.filter(|d: DiffClass| d == DiffClass::DenyToAllow).len(),
        ) + "\n"@,
        holds(catalog_text(diffs), "Chaos catalog ("@ + decimal(diffs.len()) + " attacks)\n"@),
        holds(
            catalog_text(diffs),
            "  Allow → Deny     "@ + decimal(
                diffs.filter(|d: DiffClass| d == DiffClass::AllowToDeny).len(),
            ) + "\n"@,
        ),
        holds(
            catalog_text(diffs),
            "  Deny  → Allow (regression)  "@ + decimal(
                diffs.filter(|d: DiffClass| d == DiffClass::DenyToAllow).len(),
            ) + "\n"@,
        ),
        holds(
            catalog_text(diffs),
            "  unchanged        "@ + decimal(
                diffs.filter(|d: DiffClass| d == DiffClass::Unchanged).len(),
            ) + "\n"@,
        ),
        holds(
            catalog_text(diffs),
            "  Regressions: "@ + decimal(
                diffs.filter(|d: DiffClass| d == DiffClass::DenyToAllow).len(),
            ) + "\n"@,
        ),
{
    let n1 = diffs.filter(|d: DiffClass| d == DiffClass::AllowToDeny).len();
    let n3 = diffs.filter(|d: DiffClass| d == DiffClass::DenyToAllow).len();
    let n4 = diffs.filter(|d: DiffClass| d == DiffClass::Unchanged).len();
    occurrences_count(diffs, DiffClass::AllowToDeny);
    occurrences_count(diffs, DiffClass::DenyToAllow);
    occurrences_count(diffs, DiffClass::Unchanged);
    labels_are_whole();
    tile_is_a_line("Allow → Deny    "@, "  Allow → Deny     "@, n1);
    tile_is_a_line("Deny  → Allow (regression) "@, "  Deny  → Allow (regression)  "@, n3);
    tile_is_a_line("unchanged       "@, "  unchanged        "@, n4);
    let head = "Chaos catalog ("@ + decimal(diffs.len()) + " attacks)\n"@;
    let t1 = tile("Allow → Deny    "@, n1);
    let t2 = tile("Deny  → Allow (regression) "@, n3);
    let t3 = tile("unchanged       "@, n4);
    let last = "  Regressions: "@ + decimal(n3) + "\n"@;
    part_of_six(head, t1, t2, t3, last, Seq::empty());
    last_line_regroups(head + t1 + t2 + t3, "  Regressions: "@, decimal(n3), "\n"@);
}

proof fn last_line_regroups(top: Seq<char>, label: Seq<char>, number: Seq<char>, end: Seq<char>)
    ensures
        top + (label + number + end) + Seq::<char>::empty() == top + label + number + end,
{
    assert(top + (label + number + end) + Seq::<char>::empty() =~= top + label + number + end);
}

/// The summary names the candidate and its mode, and goes on with a part for
/// each set of inputs that was replayed, and with nothing else.
pub proof fn summary_has_its_parts(
    file: Seq<char>,
    mode: ModeArg,
    since: Seq<char>,
    total: i64,
    production: Seq<DiffClass>,
    catalog: Seq<DiffClass>,
)
    ensures
        ({
            let head = "Policy Lab — "@ + file + " (mode: "@ + (if mode == ModeArg::Add {
                "add"@
            } else {
                "replace"@
            }) + ")\n\n"@;
            let traffic = production_text(since, total, production);
            let attacks = catalog_text(catalog);
            &&& human_text(file, mode, since, total, None, None) == head
            &&& human_text(file, mode, since, total, Some(production), None) == head + traffic
            &&& human_text(file, mode, since, total, None, Some(catalog)) == head + attacks
            &&& human_text(file, mode, since, total, Some(production), Some(catalog)) == head
                + traffic + attacks
        }),
{
    let head = "Policy Lab — "@ + file + " (mode: "@ + mode.name() + ")\n\n"@;
    let none = Seq::<char>::empty();
    let traffic = production_text(since, total, production);
    let attacks = catalog_text(catalog);
    assert(head + none + none =~= head);
    assert(head + traffic + none =~= head + traffic);
    assert(head + none =~= head);
}

/// A number and one of the letters is a window of that many days, hours or
/// minutes, whatever the number.
pub proof fn windows_read_back(n: i64)
    ensures
        window_of(signed_decimal(n as int).push('d')) == Ok::<Window, Seq<char>>(
            Window { count: n, unit: WindowUnit::Days },
        ),
        window_of(signed_decimal(n as int).push('h')) == Ok::<Window, Seq<char>>(
            Window { count: n, unit: WindowUnit::Hours },
        ),
        window_of(signed_decimal(n as int).push('m')) == Ok::<Window, Seq<char>>(
            Window { count: n, unit: WindowUnit::Minutes },
        ),
{
    let s = signed_decimal(n as int);
    signed_decimal_reads_back(n);
    assert(s.push('d').drop_last() =~= s);
    assert(s.push('h').drop_last() =~= s);
    assert(s.push('m').drop_last() =~= s);
}

/// Nothing but a number and one of the letters is a window; what is wrong with
/// the number is said before what is wrong with the letter.
pub proof fn other_windows_are_refused(s: Seq<char>, c: char)
    ensures
        window_of(Seq::empty()) == Err::<Window, Seq<char>>("empty"@),
        window_of(s.push(c)) is Ok <==> integer_of(s) is Some && (c == 'd' || c == 'h' || c == 'm'),
        window_of(s.push(c)) is Ok ==> window_of(s.push(c))->Ok_0.count == integer_of(s)->0,
        integer_of(s) is None ==> window_of(s.push(c)) == Err::<Window, Seq<char>>(
            "not a number: "@ + integer_fault(s),
        ),
        integer_of(s) is Some && c != 'd' && c != 'h' && c != 'm' ==> window_of(s.push(c))
            == Err::<Window, Seq<char>>(
            "unknown unit "@ + debug_text(seq![c]) + "; expected d|h|m"@,
        ),
{
    assert(s.push(c).drop_last() =~= s);
    assert(s.push(c).last() == c);
}

/// A day has twenty-four hours, an hour sixty minutes, a minute sixty seconds.
pub proof fn windows_are_this_long(count: i64)
    ensures
        (Window { count, unit: WindowUnit::Minutes }).length() == count * 60,
        (Window { count, unit: WindowUnit::Hours }).length() == count * 60 * 60,
        (Window { count, unit: WindowUnit::Days }).length() == count * 24 * 60 * 60,
{
}

/// A window begins its own length before the present, to the nanosecond, unless
/// that is out of range.
pub proof fn window_ends_now(now: Instant, window: Window)
    ensures
        window_start_of(now, window) matches Some(start) ==> start.secs + window.length()
            == now.secs && start.nanos == now.nanos,
        window_start_of(now, window) is None <==> !in_span(window.length()) || now.secs
            - window.length() < i64::MIN || now.secs - window.length() > i64::MAX,
{
}

/// The catalog in one glance: which tools it calls, and that each attack but the
/// tools' own differs from a harmless call in one thing only.
pub proof fn catalog_is_these()
    ensures
        catalog().len() == 8,
        catalog()[0].tool_type == "shell_exec"@,
        catalog()[1].tool_type == "sql_execute"@,
        catalog()[2].tool_type == "read_only"@,
        catalog()[3].tool_type == "bulk_export"@,
        catalog()[4].tool_type == "read_only"@,
        catalog()[5].tool_type == "wire_transfer"@,
        catalog()[6].tool_type == "bulk_export"@,
        catalog()[7].tool_type == "read_only"@,
        forall|i: int|
            0 <= i < 8 ==> {
                &&& (#[trigger] catalog()[i]).intent_percent == (if i == 2 { 95u8 } else { 5 })
                &&& catalog()[i].recent_request_count == (if i == 4 { 101u32 } else { 0 })
                &&& catalog()[i].current_time == (if i == 3 {
                    "2026-04-29T22:00:00Z"@
                } else {
                    "2026-04-29T14:00:00Z"@
                })
                &&& catalog()[i].agent_id == "catalog-bot"@
                &&& catalog()[i].method == "tools/call"@
                &&& catalog()[i].agent_kind == "mcp"@
            },
{
}

/// Inputs and plans are seen as they are, member by member.
pub proof fn inputs_and_plans_are_seen_whole(input: CatalogInput, plan: TestPlan)
    ensures
        input@.tool_type == input.tool_type@,
        input@.intent_percent == input.intent_percent,
        input@.current_time == input.current_time@,
        input@.agent_id == input.agent_id@,
        input@.method == input.method@,
        input@.recent_request_count == input.recent_request_count,
        input@.agent_kind == input.agent_kind@,
        plan@.candidate_name == plan.candidate_name@,
        plan@.mode == plan.mode,
        plan@.replace is Some <==> plan.replace is Some,
        plan.replace is Some ==> plan@.replace == Some(plan.replace->0@),
        plan@.since == plan.since,
        plan@.since_text == plan.since_text@,
        plan@.ledger_url == plan.ledger_url@,
        plan@.policy_url == plan.policy_url@,
{
}

/// A plan is made exactly where a replacement names what it replaces, the window
/// is one, and it begins within the calendar; it begins there.
pub proof fn plan_keeps_to_the_arguments(args: TestArgs, around: Surroundings)
    ensures
        planned(args, around) matches PlannedView::Ready(plan) ==> {
            &&& args.mode == ModeArg::Replace ==> args.replace is Some
            &&& window_of(args.since@) is Ok
            &&& plan.since.secs + window_of(args.since@)->Ok_0.length() == around.now.secs
            &&& plan.since.nanos == around.now.nanos
            &&& rfc3339_text(plan.since.secs, plan.since.nanos) == Some(plan.since_text)
            &&& plan.mode == args.mode
            &&& args.replace is Some ==> plan.replace == Some(args.replace->0@)
            &&& args.name is Some ==> plan.candidate_name == args.name->0@
            &&& args.name is None && around.file_name is Some ==> plan.candidate_name
                == around.file_name->0@
            &&& args.ledger_url is Some ==> plan.ledger_url == args.ledger_url->0@
            &&& args.policy_url is Some ==> plan.policy_url == args.policy_url->0@
        },
        planned(args, around) matches PlannedView::Stop(report) ==> {
            &&& report.exit == ExitCode::Validation
            &&& (args.mode == ModeArg::Replace && args.replace is None) || window_of(
                args.since@,
            ) is Err || window_start_of(around.now, window_of(args.since@)->Ok_0) is None || {
                let start = window_start_of(around.now, window_of(args.since@)->Ok_0)->0;
                rfc3339_text(start.secs, start.nanos) is None
            }
            &&& args.mode == ModeArg::Replace && args.replace is None ==> report.stderr == "error: "@
                + "--mode replace requires --replace <rule-name>"@ + "\n"@
            &&& !(args.mode == ModeArg::Replace && args.replace is None) && window_of(
                args.since@,
            ) is Err ==> report.stderr == "error: "@ + ("--since: "@ + window_of(
                args.since@,
            )->Err_0) + "\n"@
            &&& !(args.mode == ModeArg::Replace && args.replace is None) && window_of(
                args.since@,
            ) is Ok ==> report.stderr == "error: "@ + "--since: out of range"@ + "\n"@
        },
{
}

/// The candidate is to blame exactly where the engine answered that it does not
/// compile; every other fault is judged as any failed call is.
pub proof fn blame_is_the_candidates(fault: BatchFault)
    ensures
        fault.failure.answer is Some && fault.failure.answer->0.status == 400
            && fault.compile_fault is Some ==> batch_fault_report(fault).exit
            == ExitCode::Validation && holds(
            batch_fault_report(fault).stderr,
            fault.compile_fault->0.message@,
        ),
        fault.compile_fault is None || fault.failure.answer is None
            || fault.failure.answer->0.status != 400 ==> batch_fault_report(fault).stderr
            == "error: "@ + ("evaluate-batch: "@ + fault.failure.message@) + "\n"@
            && batch_fault_report(fault).exit == exit_of_failure(fault.failure@),
{
    if fault.failure.answer is Some && fault.failure.answer->0.status == 400
        && fault.compile_fault is Some {
        let e = fault.compile_fault->0;
        let head = "candidate failed to compile:\n  "@;
        holds_end(head, e.message@);
        holds_on(head + e.message@, place_text(e), e.message@);
        holds_behind("error: "@, head + e.message@ + place_text(e), e.message@);
        holds_on("error: "@ + (head + e.message@ + place_text(e)), "\n"@, e.message@);
    }
}

/// A place is given exactly where both line and column are known.
pub proof fn places_are_whole(e: CompileFault)
    ensures
        e.line is Some && e.column is Some ==> place_text(e) == "\n  at line "@ + decimal(
            e.line->0 as nat,
        ) + ", column "@ + decimal(e.column->0 as nat),
        e.line is None || e.column is None ==> place_text(e).len() == 0,
{
}

/// The catalog's regressions are the attacks that were denied and now pass;
/// without the catalog there are none.
pub proof fn regressions_are_of_the_catalog(lab: Lab)
    ensures
        lab.catalog is None ==> lab.regressed() == 0,
        lab.catalog is Some ==> lab.regressed() == lab.catalog->0@.filter(
            |d: DiffClass| d == DiffClass::DenyToAllow,
        ).len(),
{
    if lab.catalog is Some {
        occurrences_count(lab.catalog->0@, DiffClass::DenyToAllow);
    }
}

/// As JSON the summary gives the regressions, the window, and each response or
/// `null`, each under its own name.
pub proof fn json_names_its_parts(lab: Lab, since: Seq<char>, responses: Responses)
    ensures
        holds(
            lab_json(lab, since, responses),
            quoted("catalog_regressions"@) + seq![':', ' '] + decimal(lab.regressed()),
        ),
        lab.catalog is None ==> holds(
            lab_json(lab, since, responses),
            quoted("catalog"@) + seq![':', ' '] + "null"@,
        ),
        lab.production is None ==> holds(
            lab_json(lab, since, responses),
            quoted("production"@) + seq![':', ' '] + "null"@,
        ),
        lab.catalog is Some ==> holds(
            lab_json(lab, since, responses),
            quoted("catalog"@) + seq![':', ' '] + indented(
                reply_text(responses.catalog, Seq::empty()),
            ),
        ),
        lab.production is Some ==> holds(
            lab_json(lab, since, responses),
            quoted("production"@) + seq![':', ' '] + indented(
                reply_text(responses.production, texts(lab.times@)),
            ),
        ),
        holds(
            lab_json(lab, since, responses),
            quoted("returned"@) + seq![':', ' '] + signed_decimal(lab.returned as int),
        ),
        holds(lab_json(lab, since, responses), quoted("since"@) + seq![':', ' '] + quoted(since)),
        holds(
            lab_json(lab, since, responses),
            quoted("total_in_window"@) + seq![':', ' '] + signed_decimal(
                lab.total_in_window as int,
            ),
        ),
{
    let outer = seq![
        ("catalog"@, response_value(lab.catalog is Some, responses.catalog, Seq::empty())),
        ("catalog_regressions"@, decimal(lab.regressed())),
        (
            "production"@,
            response_value(lab.production is Some, responses.production, texts(lab.times@)),
        ),
        ("production_window"@, indented(lab_window(lab, since))),
    ];
    objects_hold_each_member(outer, 0);
    objects_hold_each_member(outer, 1);
    objects_hold_each_member(outer, 2);
    objects_hold_each_member(outer, 3);
    let inner = seq![
        ("returned"@, signed_decimal(lab.returned as int)),
        ("since"@, quoted(since)),
        ("total_in_window"@, signed_decimal(lab.total_in_window as int)),
    ];
    number_is_one_line(lab.returned as int);
    number_is_one_line(lab.total_in_window as int);
    quoted_is_one_line(since);
    window_line(lab, since, responses, inner, 0);
    window_line(lab, since, responses, inner, 1);
    window_line(lab, since, responses, inner, 2);
}

proof fn window_line(
    lab: Lab,
    since: Seq<char>,
    responses: Responses,
    inner: Seq<(Seq<char>, Seq<char>)>,
    k: int,
)
    requires
        0 <= k < inner.len(),
        lab_window(lab, since) == object_lines(inner),
        one_line(inner[k].1),
        holds(
            lab_json(lab, since, responses),
            quoted("production_window"@) + seq![':', ' '] + indented(lab_window(lab, since)),
        ),
    ensures
        holds(
            lab_json(lab, since, responses),
            quoted(inner[k].0) + seq![':', ' '] + inner[k].1,
        ),
{
    let part = quoted(inner[k].0) + seq![':', ' '] + inner[k].1;
    objects_hold_each_member(inner, k);
    quoted_is_one_line(inner[k].0);
    assert(one_line(part));
    indented_keeps_lines(object_lines(inner), part);
    let head = quoted("production_window"@) + seq![':', ' '];
    holds_behind(head, indented(lab_window(lab, since)), part);
    holds_through(
        lab_json(lab, since, responses),
        head + indented(lab_window(lab, since)),
        part,
    );
}

proof fn number_is_one_line(n: int)
    ensures
        one_line(signed_decimal(n)),
{
    let digits = decimal(if n < 0 { (-n) as nat } else { n as nat });
    decimal_reads_back(if n < 0 { (-n) as nat } else { n as nat });
    assert forall|i: int| 0 <= i < digits.len() implies #[trigger] digits[i] != '\n' by {
        assert('0' <= digits[i]);
    }
    reveal_strlit("-");
    if signed_decimal(n).contains('\n') {
        let k = choose|k: int| 0 <= k < signed_decimal(n).len() && signed_decimal(n)[k] == '\n';
        if n < 0 {
            if k > 0 {
                assert(digits[k - 1] == '\n');
            }
        } else {
            assert(digits[k] == '\n');
        }
    }
}

/// A response keeps every member that the engine sent, before and after the
/// results, and every result.
pub proof fn responses_are_kept_whole(reply: Reply, times: Seq<Seq<char>>, i: int)
    ensures
        0 <= i < reply.head@.len() ==> holds(
            reply_text(reply, times),
            quoted(reply.head@[i].name@) + seq![':', ' '] + indented(reply.head@[i].value@),
        ),
        0 <= i < reply.tail@.len() ==> holds(
            reply_text(reply, times),
            quoted(reply.tail@[i].name@) + seq![':', ' '] + indented(reply.tail@[i].value@),
        ),
        0 <= i < reply.results@.len() && i < times.len() ==> holds(
            array_lines(stamped_results(nested_results(reply), times)),
            indented(
                object_lines(
                    nested(pairs_of(reply.results@[i]@)).push(("captured_at"@, quoted(times[i]))),
                ),
            ),
        ),
        0 <= i < reply.results@.len() && i >= times.len() ==> holds(
            array_lines(stamped_results(nested_results(reply), times)),
            indented(object_lines(nested(pairs_of(reply.results@[i]@)))),
        ),
        stamped_results(nested_results(reply), times).len() == reply.results@.len(),
        reply_text(reply, times) == object_lines(
            nested(pairs_of(reply.head@)) + seq![
                (
                    "results"@,
                    indented(array_lines(stamped_results(nested_results(reply), times))),
                ),
            ] + nested(pairs_of(reply.tail@)),
        ),
        holds(
            reply_text(reply, times),
            quoted("results"@) + seq![':', ' '] + indented(
                array_lines(stamped_results(nested_results(reply), times)),
            ),
        ),
{
    let head = nested(pairs_of(reply.head@));
    let list = ("results"@, indented(array_lines(stamped_results(nested_results(reply), times))));
    let tail = nested(pairs_of(reply.tail@));
    let all = head.push(list) + tail;
    assert(head.push(list) =~= head + seq![list]);
    assert(all[head.len() as int] == list);
    objects_hold_each_member(all, head.len() as int);
    if 0 <= i < reply.head@.len() {
        assert(all[i] == head[i]);
        objects_hold_each_member(all, i);
    }
    if 0 <= i < reply.tail@.len() {
        assert(all[head.len() + 1 + i] == tail[i]);
        objects_hold_each_member(all, head.len() + 1 + i);
    }
    if 0 <= i < reply.results@.len() {
        array_holds_each_item(stamped_results(nested_results(reply), times), i);
    }
}

/// As JSON the summary has four members, and the window three.
pub proof fn json_has_no_other_parts(lab: Lab, since: Seq<char>, responses: Responses)
    ensures
        lab_json(lab, since, responses) == object_lines(
            seq![
                ("catalog"@, if lab.catalog is Some {
                    indented(reply_text(responses.catalog, Seq::empty()))
                } else {
                    "null"@
                }),
                ("catalog_regressions"@, decimal(lab.regressed())),
                ("production"@, if lab.production is Some {
                    indented(reply_text(responses.production, texts(lab.times@)))
                } else {
                    "null"@
                }),
                (
                    "production_window"@,
                    indented(
                        object_lines(
                            seq![
                                ("returned"@, signed_decimal(lab.returned as int)),
                                ("since"@, quoted(since)),
                                ("total_in_window"@, signed_decimal(lab.total_in_window as int)),
                            ],
                        ),
                    ),
                ),
            ],
        ),
{
}

/// Verdicts are seen as they are, where there are any.
pub proof fn verdicts_are_seen_whole(diffs: Option<Vec<DiffClass>>)
    ensures
        diffs_of(diffs) is Some <==> diffs is Some,
        diffs is Some ==> diffs_of(diffs)->0 == diffs->0@,
{
}

/// What became of the arguments is seen as it is.
pub proof fn planned_is_seen_whole(p: Planned)
    ensures
        p matches Planned::Ready(plan) ==> p@ == PlannedView::Ready(plan@),
        p matches Planned::Stop(report) ==> p@ == PlannedView::Stop(report@),
{
}

/// After the recorded traffic comes the catalog, unless only the traffic was
/// asked for.
pub proof fn catalog_comes_last(against: AgainstArg)
    ensures
        after_production(against) == LabAsk::Nothing <==> against == AgainstArg::Prod,
        after_production(against) == LabAsk::Catalog <==> against != AgainstArg::Prod,
{
}

} // verus!
