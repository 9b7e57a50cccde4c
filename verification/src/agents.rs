//! `wardenctl agents`: reading and changing the agent registry.

use crate::json::{
    object_lines, object_lines_grow, pair, pairs_of, quote, quoted, write_object_lines, Pair,
};
use crate::migrate::{migration_request_view, MigrateArgs};
use crate::registry::{
    rows_of, state_names_differ, AgentListFilter, AgentRecord, AgentRecordView, AgentState,
    CreateAgentRequest, CreateAgentRequestView, EnvelopeRequest,
};
use crate::report::{
    complain, complaint, exit_of_failure, fail, failed, said, say, show_json, show_text, shown,
    shown_json, ExitCode, Failure, Report, ReportView,
};
use crate::text::{
    byte_len, byte_len_covers_chars, copy_option, copy_texts, decimal, flush_left, flush_right,
    holds, holds_end, holds_on, join, joined, pad_left, pad_right, show, size, text_of, texts,
    widest, widest_is_the_largest,
};
use vstd::prelude::*;
use vstd::string::*;

verus! {

/// The arguments of `agents`.
#[derive(Debug)]
pub struct AgentsArgs {
    pub command: AgentsCommand,
}

/// The verbs of `agents`.
#[derive(Debug)]
pub enum AgentsCommand {
    /// List the agents of a tenant.
    List(ListArgs),
    /// Look up one agent by its id.
    Get(GetArgs),
    /// Register a new agent.
    Create(CreateArgs),
    /// Pause an agent.
    Suspend(LifecycleArgs),
    /// Resume a suspended agent.
    Unsuspend(LifecycleArgs),
    /// Retire an agent for good.
    Decommission(LifecycleArgs),
    /// Narrow or widen the capability envelope.
    Envelope(EnvelopeArgs),
    /// Hand an agent to another team.
    Transfer(TransferArgs),
    /// Change the free-text description.
    Description(DescriptionArgs),
    /// Enroll a list of existing agents.
    Migrate(MigrateArgs),
}

/// The arguments of `agents list`.
#[derive(Debug)]
pub struct ListArgs {
    /// The tenant to list within.
    pub tenant: Option<String>,
    /// Only agents in this state.
    pub state: Option<String>,
    /// Only agents of this team.
    pub owner_team: Option<String>,
    /// Print JSON instead of the table.
    pub json: bool,
}

/// The arguments of `agents get`.
#[derive(Debug)]
pub struct GetArgs {
    /// The agent's id.
    pub id: String,
    /// The agent's tenant.
    pub tenant: Option<String>,
    /// Print JSON instead of labelled lines.
    pub json: bool,
}

/// The arguments of `agents create`.
#[derive(Debug)]
pub struct CreateArgs {
    pub tenant: Option<String>,
    /// The agent's name, unique within the tenant for all time.
    pub name: String,
    /// The team that owns the agent.
    pub owner_team: String,
    /// The capability envelope.
    pub scope: Vec<String>,
    /// The yellow-tier envelope.
    pub yellow_scope: Vec<String>,
    /// The attestation kinds accepted; none means the platform's.
    pub attestation_kind: Vec<String>,
    /// Free text.
    pub description: Option<String>,
    /// Ask for the row first, and create only where there is none.
    pub if_absent: bool,
    pub json: bool,
}

/// The arguments of `agents suspend`, `unsuspend` and `decommission`.
#[derive(Debug)]
pub struct LifecycleArgs {
    /// The agent's id.
    pub id: String,
    pub tenant: Option<String>,
    /// Why, in free text.
    pub reason: Option<String>,
    pub json: bool,
}

/// The arguments of `agents envelope`.
#[derive(Debug)]
pub struct EnvelopeArgs {
    pub direction: EnvelopeDirection,
}

/// Which way an envelope changes. Either way the whole new envelope is given.
#[derive(Debug)]
pub enum EnvelopeDirection {
    /// Take scopes away.
    Narrow(EnvelopeChangeArgs),
    /// Add scopes.
    Widen(EnvelopeChangeArgs),
}

/// The arguments of either change of an envelope.
#[derive(Debug)]
pub struct EnvelopeChangeArgs {
    pub id: String,
    pub tenant: Option<String>,
    /// All scopes after the change.
    pub scope: Vec<String>,
    /// All yellow-tier scopes after the change.
    pub yellow_scope: Vec<String>,
    pub json: bool,
}

/// The arguments of `agents transfer`.
#[derive(Debug)]
pub struct TransferArgs {
    pub id: String,
    pub tenant: Option<String>,
    /// The team that takes over.
    pub to_team: String,
    pub json: bool,
}

/// The arguments of `agents description`.
#[derive(Debug)]
pub struct DescriptionArgs {
    pub id: String,
    pub tenant: Option<String>,
    /// The new description.
    pub text: Option<String>,
    /// Remove the description.
    pub clear: bool,
    pub json: bool,
}

/// `s` cut to `max` characters where it takes more than `max` bytes. Where
/// there is room, the last character kept is an ellipsis.
pub open spec fn cut(s: Seq<char>, max: int) -> Seq<char> {
    if byte_len(s) <= max {
        s
    } else if max <= 1 {
        first(s, max)
    } else {
        first(s, max - 1).push('…')
    }
}

/// The first `n` characters of `s`, or all of it where it has fewer.
pub open spec fn first(s: Seq<char>, n: int) -> Seq<char> {
    if n < s.len() { s.take(n) } else { s }
}

/// The first `n` characters of `s`.
fn take_chars(s: &str, n: usize) -> (r: &str)
    ensures
        r@ == first(s@, n as int),
{
    let len: usize = s.unicode_len();
    if n < len {
        s.substring_char(0, n)
    } else {
        s
    }
}

/// `s` cut to a column of `max`.
pub fn truncate(s: &str, max: usize) -> (r: String)
    ensures
        r@ == cut(s@, max as int),
        byte_len(s@) <= max ==> r@ == s@,
        byte_len(s@) > max && max >= 2 ==> r@.len() > 0 && r@.last() == '…'
            && r@.drop_last().is_prefix_of(s@) && r@.len() <= max,
        byte_len(s@) > max && max < 2 ==> r@.is_prefix_of(s@) && r@.len() <= max,
{
    proof {
        cut_is_marked(s@, max as nat);
    }
    if size(s) <= max {
        s.to_owned()
    } else if max <= 1 {
        take_chars(s, max).to_owned()
    } else {
        let mut out = take_chars(s, max - 1).to_owned();
        proof {
            reveal_strlit("…");
        }
        out.append("…");
        assert(out@ =~= cut(s@, max as int));
        out
    }
}

/// What is cut to `max` has at most `max` characters.
pub proof fn cut_fits(s: Seq<char>, max: nat)
    ensures
        cut(s, max as int).len() <= max,
{
    byte_len_covers_chars(s);
}

// ── Requests ─────────────────────────────────────────────────────────────

/// What keeps a command from reaching the registry.
#[derive(Debug)]
pub enum SetupFault {
    /// The configuration file cannot be read.
    Config(String),
    /// The credentials cannot be read.
    Credentials(String),
    /// There is no usable token for the tenant.
    Bearer(String),
    /// The identity service's address is none.
    Url(String),
}

/// What is reported of a fault of the setup, and `url` the identity service's
/// address.
pub open spec fn setup_report(fault: SetupFault, url: Seq<char>) -> ReportView {
    match fault {
        SetupFault::Config(e) => complaint("load config: "@ + e@, ExitCode::Validation),
        SetupFault::Credentials(e) => complaint("load credentials: "@ + e@, ExitCode::Server),
        SetupFault::Bearer(e) => complaint(e@, ExitCode::Auth),
        SetupFault::Url(e) => complaint(
            "invalid identity URL '"@ + url + "': "@ + e@,
            ExitCode::Validation,
        ),
    }
}

/// What is reported of a fault of the setup.
pub fn setup_failed(fault: &SetupFault, url: &str) -> (r: Report)
    ensures
        r@ == setup_report(*fault, url@),
        fault matches SetupFault::Config(e) ==> r.exit == ExitCode::Validation && r.stderr@
            == "error: "@ + ("load config: "@ + e@) + "\n"@,
        fault matches SetupFault::Credentials(e) ==> r.exit == ExitCode::Server && r.stderr@
            == "error: "@ + ("load credentials: "@ + e@) + "\n"@,
        fault matches SetupFault::Bearer(e) ==> r.exit == ExitCode::Auth && r.stderr@ == "error: "@
            + e@ + "\n"@,
        fault matches SetupFault::Url(e) ==> r.exit == ExitCode::Validation && r.stderr@
            == "error: "@ + ("invalid identity URL '"@ + url@ + "': "@ + e@) + "\n"@,
{
    match fault {
        SetupFault::Config(e) => {
            let mut text = "load config: ".to_owned();
            text.append(e.as_str());
            complain(text.as_str(), ExitCode::Validation)
        },
        SetupFault::Credentials(e) => {
            let mut text = "load credentials: ".to_owned();
            text.append(e.as_str());
            complain(text.as_str(), ExitCode::Server)
        },
        SetupFault::Bearer(e) => complain(e.as_str(), ExitCode::Auth),
        SetupFault::Url(e) => {
            let mut text = "invalid identity URL '".to_owned();
            text.append(url);
            text.append("': ");
            text.append(e.as_str());
            complain(text.as_str(), ExitCode::Validation)
        },
    }
}

/// The three ways to move an agent through its life.
#[derive(Debug, Clone, Copy, PartialEq, Eq, Structural)]
pub enum LifecycleVerb {
    Suspend,
    Unsuspend,
    Decommission,
}

/// What is asked of the registry.
#[derive(Debug)]
pub enum Ask {
    /// The rows that pass the filter.
    List { filter: AgentListFilter },
    /// One row.
    Get { id: String },
    /// A new row, after a look for one of the same name where `look_first`.
    Create { request: CreateAgentRequest, look_first: bool },
    /// A step in an agent's life.
    Lifecycle { verb: LifecycleVerb, id: String, reason: Option<String> },
    /// Another envelope: a narrower one, or else a wider one.
    Envelope { narrow: bool, id: String, envelope: EnvelopeRequest },
    /// Another owner.
    Transfer { id: String, to_team: String },
    /// Another description, or none.
    Describe { id: String, text: Option<String> },
    /// A migration, which asks on its own.
    Migrate,
}

/// What an [`Ask`] holds.
pub enum AskView {
    List { state: Option<AgentState>, owner_team: Option<Seq<char>> },
    Get { id: Seq<char> },
    Create { request: CreateAgentRequestView, look_first: bool },
    Lifecycle { verb: LifecycleVerb, id: Seq<char>, reason: Option<Seq<char>> },
    Envelope {
        narrow: bool,
        id: Seq<char>,
        scope_envelope: Seq<Seq<char>>,
        yellow_envelope: Seq<Seq<char>>,
    },
    Transfer { id: Seq<char>, to_team: Seq<char> },
    Describe { id: Seq<char>, text: Option<Seq<char>> },
    Migrate,
}

impl View for Ask {
    type V = AskView;

    open spec fn view(&self) -> AskView {
        match self {
            Ask::List { filter } => AskView::List {
                state: filter.state,
                owner_team: text_of(filter.owner_team),
            },
            Ask::Get { id } => AskView::Get { id: id@ },
            Ask::Create { request, look_first } => AskView::Create {
                request: request@,
                look_first: *look_first,
            },
            Ask::Lifecycle { verb, id, reason } => AskView::Lifecycle {
                verb: *verb,
                id: id@,
                reason: text_of(*reason),
            },
            Ask::Envelope { narrow, id, envelope } => AskView::Envelope {
                narrow: *narrow,
                id: id@,
                scope_envelope: texts(envelope.scope_envelope@),
                yellow_envelope: texts(envelope.yellow_envelope@),
            },
            Ask::Transfer { id, to_team } => AskView::Transfer { id: id@, to_team: to_team@ },
            Ask::Describe { id, text } => AskView::Describe { id: id@, text: text_of(*text) },
            Ask::Migrate => AskView::Migrate,
        }
    }
}

/// The state of that name, if there is one.
pub open spec fn state_named(name: Seq<char>) -> Option<AgentState> {
    if name == AgentState::Active.wire() {
        Some(AgentState::Active)
    } else if name == AgentState::Suspended.wire() {
        Some(AgentState::Suspended)
    } else if name == AgentState::Decommissioned.wire() {
        Some(AgentState::Decommissioned)
    } else {
        None
    }
}

/// The request behind `agents create`. It names no actor: the row is made in
/// the name of whoever holds the token.
pub open spec fn create_request_view(args: CreateArgs, tenant: Seq<char>) -> CreateAgentRequestView {
    CreateAgentRequestView {
        tenant,
        agent_name: args.name@,
        owner_team: args.owner_team@,
        scope_envelope: texts(args.scope@),
        yellow_envelope: texts(args.yellow_scope@),
        attestation_kinds: texts(args.attestation_kind@),
        description: text_of(args.description),
        actor_sub: None,
    }
}

/// The change that `args` asks for.
pub open spec fn envelope_ask(args: EnvelopeChangeArgs, narrow: bool) -> AskView {
    AskView::Envelope {
        narrow,
        id: args.id@,
        scope_envelope: texts(args.scope@),
        yellow_envelope: texts(args.yellow_scope@),
    }
}

/// The step that `args` asks for.
pub open spec fn lifecycle_ask(args: LifecycleArgs, verb: LifecycleVerb) -> AskView {
    AskView::Lifecycle { verb, id: args.id@, reason: text_of(args.reason) }
}

/// What is wrong with a command before the registry is looked for.
pub open spec fn bad_flag(command: AgentsCommand) -> Option<Seq<char>> {
    match command {
        AgentsCommand::List(a) => match a.state {
            Some(s) => if state_named(s@) is None {
                Some("invalid --state '"@ + s@ + "' (active|suspended|decommissioned)"@)
            } else {
                None
            },
            None => None,
        },
        _ => None,
    }
}

/// What a command asks of the registry; `None` where it says too little.
pub open spec fn ask_of(command: AgentsCommand, tenant: Seq<char>) -> Option<AskView> {
    match command {
        AgentsCommand::List(a) => Some(
            AskView::List {
                state: match a.state {
                    Some(s) => state_named(s@),
                    None => None,
                },
                owner_team: text_of(a.owner_team),
            },
        ),
        AgentsCommand::Get(a) => Some(AskView::Get { id: a.id@ }),
        AgentsCommand::Create(a) => Some(
            AskView::Create { request: create_request_view(a, tenant), look_first: a.if_absent },
        ),
        AgentsCommand::Suspend(a) => Some(lifecycle_ask(a, LifecycleVerb::Suspend)),
        AgentsCommand::Unsuspend(a) => Some(lifecycle_ask(a, LifecycleVerb::Unsuspend)),
        AgentsCommand::Decommission(a) => Some(lifecycle_ask(a, LifecycleVerb::Decommission)),
        AgentsCommand::Envelope(a) => Some(
            match a.direction {
                EnvelopeDirection::Narrow(c) => envelope_ask(c, true),
                EnvelopeDirection::Widen(c) => envelope_ask(c, false),
            },
        ),
        AgentsCommand::Transfer(a) => Some(
            AskView::Transfer { id: a.id@, to_team: a.to_team@ },
        ),
        AgentsCommand::Description(a) => if a.clear {
            Some(AskView::Describe { id: a.id@, text: None })
        } else {
            match a.text {
                Some(t) => if t@.len() == 0 {
                    None
                } else {
                    Some(AskView::Describe { id: a.id@, text: Some(t@) })
                },
                None => None,
            }
        },
        AgentsCommand::Migrate(a) => Some(AskView::Migrate),
    }
}

/// The request behind `agents create`.
pub fn create_request(args: &CreateArgs, tenant: &str) -> (r: CreateAgentRequest)
    ensures
        r@ == create_request_view(*args, tenant@),
        r.tenant@ == tenant@,
        r.agent_name@ == args.name@,
        r.owner_team@ == args.owner_team@,
        texts(r.scope_envelope@) == texts(args.scope@),
        texts(r.yellow_envelope@) == texts(args.yellow_scope@),
        texts(r.attestation_kinds@) == texts(args.attestation_kind@),
        text_of(r.description) == text_of(args.description),
        r.actor_sub is None,
{
    CreateAgentRequest {
        tenant: tenant.to_owned(),
        agent_name: args.name.clone(),
        owner_team: args.owner_team.clone(),
        scope_envelope: copy_texts(&args.scope),
        yellow_envelope: copy_texts(&args.yellow_scope),
        attestation_kinds: copy_texts(&args.attestation_kind),
        description: copy_option(&args.description),
        actor_sub: None,
    }
}

/// The step that `args` asks for.
fn make_lifecycle(args: &LifecycleArgs, verb: LifecycleVerb) -> (r: Ask)
    ensures
        r@ == lifecycle_ask(*args, verb),
        r matches Ask::Lifecycle { verb: v, id, reason } && v == verb && id@ == args.id@ && text_of(
            reason,
        ) == text_of(args.reason),
{
    Ask::Lifecycle { verb, id: args.id.clone(), reason: copy_option(&args.reason) }
}

/// The change that `args` asks for.
fn make_envelope(args: &EnvelopeChangeArgs, narrow: bool) -> (r: Ask)
    ensures
        r@ == envelope_ask(*args, narrow),
        r matches Ask::Envelope { narrow: n, id, envelope } && n == narrow && id@ == args.id@
            && texts(envelope.scope_envelope@) == texts(args.scope@) && texts(
            envelope.yellow_envelope@,
        ) == texts(args.yellow_scope@),
{
    Ask::Envelope {
        narrow,
        id: args.id.clone(),
        envelope: EnvelopeRequest {
            scope_envelope: copy_texts(&args.scope),
            yellow_envelope: copy_texts(&args.yellow_scope),
        },
    }
}

/// The state that a listing is restricted to, or the report of an unknown one.
pub fn parse_state(flag: &Option<String>) -> (r: Result<Option<AgentState>, Report>)
    ensures
        match *flag {
            None => r == Ok::<Option<AgentState>, Report>(None),
            Some(s) => match state_named(s@) {
                Some(state) => r == Ok::<Option<AgentState>, Report>(Some(state)),
                None => r matches Err(report) && report@ == complaint(
                    "invalid --state '"@ + s@ + "' (active|suspended|decommissioned)"@,
                    ExitCode::Validation,
                ),
            },
        },
{
    match flag {
        None => Ok(None),
        Some(s) => match AgentState::parse(s.as_str()) {
            Some(state) => {
                proof {
                    state_names_differ(state, AgentState::Active);
                    state_names_differ(state, AgentState::Suspended);
                    state_names_differ(state, AgentState::Decommissioned);
                }
                Ok(Some(state))
            },
            None => {
                assert(s@ != AgentState::Active.wire());
                assert(s@ != AgentState::Suspended.wire());
                assert(s@ != AgentState::Decommissioned.wire());
                let mut text = "invalid --state '".to_owned();
                text.append(s.as_str());
                text.append("' (active|suspended|decommissioned)");
                Err(complain(text.as_str(), ExitCode::Validation))
            },
        },
    }
}

/// The description that is sent, `None` to remove it, or the report where
/// neither a text nor the wish to remove it is given.
pub fn description_text(args: &DescriptionArgs) -> (r: Result<Option<String>, Report>)
    ensures
        match r {
            Ok(text) => ask_of(AgentsCommand::Description(*args), Seq::empty()) == Some(
                AskView::Describe { id: args.id@, text: text_of(text) },
            ),
            Err(report) => ask_of(AgentsCommand::Description(*args), Seq::empty()) is None
                && report@ == complaint(
                "pass --text \"…\" or --clear to remove the description"@,
                ExitCode::Validation,
            ),
        },
{
    if args.clear {
        return Ok(None);
    }
    match &args.text {
        Some(t) => if !t.as_str().is_empty() {
            return Ok(Some(t.clone()));
        },
        None => {},
    }
    Err(
        complain(
            "pass --text \"…\" or --clear to remove the description",
            ExitCode::Validation,
        ),
    )
}

/// Whether the configuration file itself is the fault.
pub open spec fn is_config_fault(setup: Option<SetupFault>) -> bool {
    setup matches Some(fault) && fault is Config
}

/// What a command asks of the registry, or the report that ends it. Faults are
/// told in the order in which they are met: the configuration, an unknown state,
/// the rest of the setup, a missing description.
pub fn plan(
    command: &AgentsCommand,
    tenant: &str,
    setup: &Option<SetupFault>,
    url: &str,
) -> (r: Result<Ask, Report>)
    ensures
        is_config_fault(*setup) ==> (r matches Err(report) && report@ == setup_report(
            setup->0,
            url@,
        )),
        *setup is Some && (setup->0 is Config || bad_flag(*command) is None) ==> (r matches Err(
            report,
        ) && report@ == setup_report(setup->0, url@)),
        bad_flag(*command) is Some && (*setup is None || !(setup->0 is Config)) ==> (r matches Err(
            report,
        ) && report.exit == ExitCode::Validation && report.stderr@ == "error: "@ + bad_flag(
            *command,
        )->0 + "\n"@),
        r is Ok ==> *setup is None && bad_flag(*command) is None,
        !is_config_fault(*setup) ==> match bad_flag(*command) {
            Some(text) => r matches Err(report) && report@ == complaint(text, ExitCode::Validation),
            None => match *setup {
                Some(fault) => r matches Err(report) && report@ == setup_report(fault, url@),
                None => match ask_of(*command, tenant@) {
                    Some(view) => r matches Ok(ask) && ask@ == view,
                    None => r matches Err(report) && report@ == complaint(
                        "pass --text \"…\" or --clear to remove the description"@,
                        ExitCode::Validation,
                    ),
                },
            },
        },
{
    if let Some(SetupFault::Config(_)) = setup {
        if let Some(fault) = setup {
            return Err(setup_failed(fault, url));
        }
    }
    let mut state: Option<AgentState> = None;
    if let AgentsCommand::List(a) = command {
        match parse_state(&a.state) {
            Ok(parsed) => {
                state = parsed;
            },
            Err(report) => {
                return Err(report);
            },
        }
    }
    if let Some(fault) = setup {
        return Err(setup_failed(fault, url));
    }
    match command {
        AgentsCommand::List(a) => Ok(
            Ask::List {
                filter: AgentListFilter { state, owner_team: copy_option(&a.owner_team) },
            },
        ),
        AgentsCommand::Get(a) => Ok(Ask::Get { id: a.id.clone() }),
        AgentsCommand::Create(a) => Ok(
            Ask::Create { request: create_request(a, tenant), look_first: a.if_absent },
        ),
        AgentsCommand::Suspend(a) => Ok(make_lifecycle(a, LifecycleVerb::Suspend)),
        AgentsCommand::Unsuspend(a) => Ok(make_lifecycle(a, LifecycleVerb::Unsuspend)),
        AgentsCommand::Decommission(a) => Ok(make_lifecycle(a, LifecycleVerb::Decommission)),
        AgentsCommand::Envelope(a) => match &a.direction {
            EnvelopeDirection::Narrow(c) => Ok(make_envelope(c, true)),
            EnvelopeDirection::Widen(c) => Ok(make_envelope(c, false)),
        },
        AgentsCommand::Transfer(a) => Ok(
            Ask::Transfer { id: a.id.clone(), to_team: a.to_team.clone() },
        ),
        AgentsCommand::Description(a) => match description_text(a) {
            Ok(text) => Ok(Ask::Describe { id: a.id.clone(), text }),
            Err(report) => Err(report),
        },
        AgentsCommand::Migrate(_) => Ok(Ask::Migrate),
    }
}

// ── Create only where there is none ──────────────────────────────────────

/// What a look for a row of the same name gave.
#[derive(Debug)]
pub enum Lookup {
    /// There is none.
    Absent,
    /// There is one; `equal` tells whether it is as the request asks.
    Present { id: String, equal: bool },
    /// The call failed.
    Failed(Failure),
}

/// What is printed where the row is there already.
pub open spec fn matched_text(name: Seq<char>, id: Seq<char>, json: bool) -> Seq<char> {
    if json {
        object_lines(seq![("id"@, quoted(id)), ("status"@, "\"matched\""@)])
    } else {
        "agent '"@ + name + "' already matches (id "@ + id + ")"@
    }
}

/// What a look for the row leads to: the end, with this report, or the creation.
pub open spec fn on_lookup(args: CreateArgs, lookup: Lookup) -> Option<ReportView> {
    match lookup {
        Lookup::Absent => None,
        Lookup::Present { id, equal } => Some(
            if equal {
                said(matched_text(args.name@, id@, args.json))
            } else {
                complaint(
                    "agent '"@ + args.name@
                        + "' exists with a different envelope/owner_team/kinds; reconcile manually"@,
                    ExitCode::Conflict,
                )
            },
        ),
        Lookup::Failed(failure) => Some(
            complaint("pre-fetch failed: "@ + failure@.message, exit_of_failure(failure@)),
        ),
    }
}

/// What is printed where the row is there already.
fn render_matched(name: &str, id: &str, json: bool) -> (r: String)
    ensures
        r@ == matched_text(name@, id@, json),
{
    if json {
        let mut pairs: Vec<Pair> = Vec::new();
        pairs.push(pair("id", quote(id)));
        pairs.push(pair("status", "\"matched\"".to_owned()));
        assert(pairs_of(pairs@) =~= seq![("id"@, quoted(id@)), ("status"@, "\"matched\""@)]);
        write_object_lines(&pairs)
    } else {
        let mut text = "agent '".to_owned();
        text.append(name);
        text.append("' already matches (id ");
        text.append(id);
        text.append(")");
        text
    }
}

/// What a look for the row leads to: `Some` report ends the command, `None`
/// means that the row is to be created.
pub fn after_lookup(args: &CreateArgs, lookup: &Lookup) -> (r: Option<Report>)
    ensures
        match on_lookup(*args, *lookup) {
            Some(view) => r matches Some(report) && report@ == view,
            None => r is None,
        },
        r is None <==> lookup is Absent,
        lookup is Present && lookup->equal ==> r->0.exit == ExitCode::Success,
        lookup is Present && !lookup->equal ==> r->0.exit == ExitCode::Conflict && r->0.stderr@
            == "error: "@ + ("agent '"@ + args.name@
            + "' exists with a different envelope/owner_team/kinds; reconcile manually"@) + "\n"@,
        lookup matches Lookup::Failed(failure) ==> r->0.exit == exit_of_failure(failure@)
            && r->0.stderr@ == "error: "@ + ("pre-fetch failed: "@ + failure.message@) + "\n"@,
{
    match lookup {
        Lookup::Absent => None,
        Lookup::Present { id, equal } => if *equal {
            Some(say(render_matched(args.name.as_str(), id.as_str(), args.json).as_str()))
        } else {
            let mut text = "agent '".to_owned();
            text.append(args.name.as_str());
            text.append(
                "' exists with a different envelope/owner_team/kinds; reconcile manually",
            );
            Some(complain(text.as_str(), ExitCode::Conflict))
        },
        Lookup::Failed(failure) => {
            let mut text = "pre-fetch failed: ".to_owned();
            text.append(failure.message.as_str());
            Some(complain(text.as_str(), ExitCode::from_warden_error(failure)))
        },
    }
}

// ── Reports ──────────────────────────────────────────────────────────────

/// `n`, but no less than `low` and no more than `high`.
pub open spec fn clamped(n: int, low: int, high: int) -> int {
    if n < low {
        low
    } else if n > high {
        high
    } else {
        n
    }
}

/// The width of the column of names.
pub open spec fn name_width(rows: Seq<AgentRecordView>) -> int {
    clamped(widest(rows.map_values(|r: AgentRecordView| r.agent_name)) as int, 10, 40)
}

/// The width of the column of teams.
pub open spec fn team_width(rows: Seq<AgentRecordView>) -> int {
    clamped(widest(rows.map_values(|r: AgentRecordView| r.owner_team)) as int, 10, 32)
}

/// A line of the table up to the column of ids, from what stands in its cells.
pub open spec fn cells(
    name: Seq<char>,
    state: Seq<char>,
    team: Seq<char>,
    scopes: Seq<char>,
    yellow: Seq<char>,
    name_w: int,
    team_w: int,
) -> Seq<char> {
    flush_left(name, name_w) + "  "@ + flush_left(state, 14) + "  "@ + flush_left(team, team_w)
        + "  "@ + flush_right(scopes, 6) + "  "@ + flush_right(yellow, 13) + "  "@
}

/// The first line of the table.
pub open spec fn table_head(name_w: int, team_w: int) -> Seq<char> {
    cells("AGENT_NAME"@, "STATE"@, "OWNER_TEAM"@, "SCOPES"@, "YELLOW_SCOPES"@, name_w, team_w)
        + "ID"@ + "\n"@
}

/// The cells of a row: what is too long for its column is cut.
pub open spec fn row_cells(r: AgentRecordView, name_w: int, team_w: int) -> Seq<char> {
    cells(
        cut(r.agent_name, name_w),
        r.state.wire(),
        cut(r.owner_team, team_w),
        decimal(r.scope_envelope.len()),
        decimal(r.yellow_envelope.len()),
        name_w,
        team_w,
    )
}

/// The line of a row.
pub open spec fn table_row(r: AgentRecordView, name_w: int, team_w: int) -> Seq<char> {
    row_cells(r, name_w, team_w) + r.id + "\n"@
}

/// The lines of the rows.
pub open spec fn table_rows(rows: Seq<AgentRecordView>, name_w: int, team_w: int) -> Seq<char>
    decreases rows.len(),
{
    if rows.len() == 0 {
        Seq::empty()
    } else {
        table_rows(rows.drop_last(), name_w, team_w) + table_row(rows.last(), name_w, team_w)
    }
}

/// The table of rows.
pub open spec fn table_text(rows: Seq<AgentRecordView>) -> Seq<char> {
    if rows.len() == 0 {
        "(no agents)"@ + "\n"@
    } else {
        table_head(name_width(rows), team_width(rows)) + table_rows(
            rows,
            name_width(rows),
            team_width(rows),
        )
    }
}

/// A line of the table up to the column of ids.
fn render_cells(
    name: &str,
    state: &str,
    team: &str,
    scopes: &str,
    yellow: &str,
    name_w: usize,
    team_w: usize,
) -> (r: String)
    ensures
        r@ == cells(name@, state@, team@, scopes@, yellow@, name_w as int, team_w as int),
{
    let mut out = pad_right(name, name_w);
    out.append("  ");
    out.append(pad_right(state, 14).as_str());
    out.append("  ");
    out.append(pad_right(team, team_w).as_str());
    out.append("  ");
    out.append(pad_left(scopes, 6).as_str());
    out.append("  ");
    out.append(pad_left(yellow, 13).as_str());
    out.append("  ");
    out
}

/// `n`, but no less than `low` and no more than `high`.
fn clamp(n: usize, low: usize, high: usize) -> (r: usize)
    ensures
        r == clamped(n as int, low as int, high as int),
{
    if n < low {
        low
    } else if n > high {
        high
    } else {
        n
    }
}

/// The line of a row.
fn render_row(r: &AgentRecord, name_w: usize, team_w: usize) -> (text: String)
    ensures
        text@ == table_row(r@, name_w as int, team_w as int),
{
    let mut text = render_cells(
        truncate(r.agent_name.as_str(), name_w).as_str(),
        r.state.as_wire(),
        truncate(r.owner_team.as_str(), team_w).as_str(),
        show(r.scope_envelope.len() as u64).as_str(),
        show(r.yellow_envelope.len() as u64).as_str(),
        name_w,
        team_w,
    );
    text.append(r.id.as_str());
    text.append("\n");
    text
}

/// The table of rows: columns as wide as what is in them, within limits.
pub fn render_table(rows: &Vec<AgentRecord>) -> (r: String)
    ensures
        r@ == table_text(rows_of(rows@)),
{
    let ghost all = rows_of(rows@);
    let ghost names = all.map_values(|r: AgentRecordView| r.agent_name);
    let ghost teams = all.map_values(|r: AgentRecordView| r.owner_team);
    if rows.len() == 0 {
        let mut none = "(no agents)".to_owned();
        none.append("\n");
        return none;
    }
    let mut name_w: usize = 0;
    let mut team_w: usize = 0;
    let mut i: usize = 0;
    while i < rows.len()
        invariant
            i <= rows.len(),
            all == rows_of(rows@),
            names == all.map_values(|r: AgentRecordView| r.agent_name),
            teams == all.map_values(|r: AgentRecordView| r.owner_team),
            name_w == widest(names.take(i as int)),
            team_w == widest(teams.take(i as int)),
        decreases rows.len() - i,
    {
        assert(names.take(i + 1).drop_last() =~= names.take(i as int));
        assert(teams.take(i + 1).drop_last() =~= teams.take(i as int));
        let name: usize = size(rows[i].agent_name.as_str());
        let team: usize = size(rows[i].owner_team.as_str());
        if name_w < name {
            name_w = name;
        }
        if team_w < team {
            team_w = team;
        }
        i += 1;
    }
    assert(names.take(i as int) =~= names);
    assert(teams.take(i as int) =~= teams);
    name_w = clamp(name_w, 10, 40);
    team_w = clamp(team_w, 10, 32);
    let mut out = render_cells(
        "AGENT_NAME",
        "STATE",
        "OWNER_TEAM",
        "SCOPES",
        "YELLOW_SCOPES",
        name_w,
        team_w,
    );
    out.append("ID");
    out.append("\n");
    let mut k: usize = 0;
    let ghost head = out@;
    assert(head + Seq::<char>::empty() =~= head);
    while k < rows.len()
        invariant
            k <= rows.len(),
            all == rows_of(rows@),
            out@ == head + table_rows(all.take(k as int), name_w as int, team_w as int),
        decreases rows.len() - k,
    {
        assert(all.take(k + 1).drop_last() =~= all.take(k as int));
        out.append(render_row(&rows[k], name_w, team_w).as_str());
        assert(out@ =~= head + table_rows(all.take(k + 1), name_w as int, team_w as int));
        k += 1;
    }
    assert(all.take(k as int) =~= all);
    out
}

/// A labelled line.
pub open spec fn field_line(label: Seq<char>, value: Seq<char>) -> Seq<char> {
    flush_left(label, 29) + value + "\n"@
}

/// A list between brackets.
pub open spec fn bracketed(items: Seq<Seq<char>>) -> Seq<char> {
    "["@ + joined(items, ", "@) + "]"@
}

/// A row in labelled lines, one for each field; the description only where
/// there is one.
pub open spec fn record_text(r: AgentRecordView) -> Seq<char> {
    field_line("id:"@, r.id) + field_line("tenant:"@, r.tenant) + field_line(
        "agent_name:"@,
        r.agent_name,
    ) + field_line("state:"@, r.state.wire()) + field_line("owner_team:"@, r.owner_team)
        + field_line("created_by_sub:"@, r.created_by_sub) + field_line(
        "created_by_idp:"@,
        r.created_by_idp,
    ) + field_line("created_at:"@, r.created_at) + field_line(
        "state_changed_at:"@,
        r.state_changed_at,
    ) + field_line("state_changed_by:"@, r.state_changed_by) + field_line(
        "scope_envelope:"@,
        bracketed(r.scope_envelope),
    ) + field_line("yellow_envelope:"@, bracketed(r.yellow_envelope)) + field_line(
        "attestation_kinds_accepted:"@,
        bracketed(r.attestation_kinds_accepted),
    ) + match r.description {
        Some(d) => field_line("description:"@, d),
        None => Seq::empty(),
    }
}

/// Adds a labelled line.
fn add_field(out: &mut String, label: &str, value: &str)
    ensures
        final(out)@ == old(out)@ + field_line(label@, value@),
{
    let mut line = pad_right(label, 29);
    line.append(value);
    line.append("\n");
    out.append(line.as_str());
}

/// A list between brackets.
fn render_list(items: &Vec<String>) -> (r: String)
    ensures
        r@ == bracketed(texts(items@)),
{
    let mut out = "[".to_owned();
    out.append(join(items, ", ").as_str());
    out.append("]");
    out
}

/// A row in labelled lines.
pub fn render_record(r: &AgentRecord) -> (text: String)
    ensures
        text@ == record_text(r@),
{
    let mut out = String::new();
    add_field(&mut out, "id:", r.id.as_str());
    assert(out@ =~= field_line("id:"@, r.id@));
    add_field(&mut out, "tenant:", r.tenant.as_str());
    add_field(&mut out, "agent_name:", r.agent_name.as_str());
    add_field(&mut out, "state:", r.state.as_wire());
    add_field(&mut out, "owner_team:", r.owner_team.as_str());
    add_field(&mut out, "created_by_sub:", r.created_by_sub.as_str());
    add_field(&mut out, "created_by_idp:", r.created_by_idp.as_str());
    add_field(&mut out, "created_at:", r.created_at.as_str());
    add_field(&mut out, "state_changed_at:", r.state_changed_at.as_str());
    add_field(&mut out, "state_changed_by:", r.state_changed_by.as_str());
    add_field(&mut out, "scope_envelope:", render_list(&r.scope_envelope).as_str());
    add_field(&mut out, "yellow_envelope:", render_list(&r.yellow_envelope).as_str());
    add_field(
        &mut out,
        "attestation_kinds_accepted:",
        render_list(&r.attestation_kinds_accepted).as_str(),
    );
    match &r.description {
        Some(d) => add_field(&mut out, "description:", d.as_str()),
        None => {
            assert(out@ + Seq::<char>::empty() =~= out@);
        },
    }
    out
}

/// What is reported of a listing.
pub fn list_report(json: bool, rows: &Result<Vec<AgentRecord>, Failure>) -> (r: Report)
    ensures
        match *rows {
            Ok(rows) => r@ == if json {
                shown_json()
            } else {
                shown(table_text(rows_of(rows@)))
            },
            Err(failure) => r@ == failed(failure@),
        },
{
    match rows {
        Ok(rows) => if json {
            show_json()
        } else {
            show_text(render_table(rows))
        },
        Err(failure) => fail(failure),
    }
}

/// What is reported of a command that gives back a row: `get`, and either
/// change of an envelope.
pub fn record_report(json: bool, record: &Result<AgentRecord, Failure>) -> (r: Report)
    ensures
        match *record {
            Ok(record) => r@ == if json {
                shown_json()
            } else {
                shown(record_text(record@))
            },
            Err(failure) => r@ == failed(failure@),
        },
{
    match record {
        Ok(record) => if json {
            show_json()
        } else {
            show_text(render_record(record))
        },
        Err(failure) => fail(failure),
    }
}

/// A new row, and the SPIFFE ids that its agent may use.
#[derive(Debug)]
pub struct Created {
    pub record: AgentRecord,
    pub spiffe_id_pattern: String,
}

/// What is reported of a creation.
pub fn create_report(json: bool, created: &Result<Created, Failure>) -> (r: Report)
    ensures
        match *created {
            Ok(c) => r@ == if json {
                shown_json()
            } else {
                said(
                    "registered agent '"@ + c.record.agent_name@ + "' (id "@ + c.record.id@
                        + ", state "@ + c.record.state.wire() + ")\nspiffe_id_pattern: "@
                        + c.spiffe_id_pattern@,
                )
            },
            Err(failure) => r@ == failed(failure@),
        },
{
    match created {
        Ok(c) => if json {
            show_json()
        } else {
            let mut text = "registered agent '".to_owned();
            text.append(c.record.agent_name.as_str());
            text.append("' (id ");
            text.append(c.record.id.as_str());
            text.append(", state ");
            text.append(c.record.state.as_wire());
            text.append(")\nspiffe_id_pattern: ");
            text.append(c.spiffe_id_pattern.as_str());
            say(text.as_str())
        },
        Err(failure) => fail(failure),
    }
}

/// Where an agent stands after a step in its life.
#[derive(Debug)]
pub struct Changed {
    pub state: AgentState,
    pub state_changed_at: String,
}

/// What is reported of a step in an agent's life.
pub fn lifecycle_report(args: &LifecycleArgs, changed: &Result<Changed, Failure>) -> (r: Report)
    ensures
        match *changed {
            Ok(c) => r@ == if args.json {
                shown_json()
            } else {
                said(
                    "agent "@ + args.id@ + " → "@ + c.state.wire() + " (changed at "@
                        + c.state_changed_at@ + ")"@,
                )
            },
            Err(failure) => r@ == failed(failure@),
        },
{
    match changed {
        Ok(c) => if args.json {
            show_json()
        } else {
            let mut text = "agent ".to_owned();
            text.append(args.id.as_str());
            text.append(" → ");
            text.append(c.state.as_wire());
            text.append(" (changed at ");
            text.append(c.state_changed_at.as_str());
            text.append(")");
            say(text.as_str())
        },
        Err(failure) => fail(failure),
    }
}

/// What is reported of a transfer: the owner that the registry now has.
pub fn transfer_report(args: &TransferArgs, record: &Result<AgentRecord, Failure>) -> (r: Report)
    ensures
        match *record {
            Ok(record) => r@ == if args.json {
                shown_json()
            } else {
                said("agent "@ + args.id@ + " owner_team → "@ + record.owner_team@)
            },
            Err(failure) => r@ == failed(failure@),
        },
{
    match record {
        Ok(record) => if args.json {
            show_json()
        } else {
            let mut text = "agent ".to_owned();
            text.append(args.id.as_str());
            text.append(" owner_team → ");
            text.append(record.owner_team.as_str());
            say(text.as_str())
        },
        Err(failure) => fail(failure),
    }
}

/// What is reported of a change of description: the one that the registry now
/// has.
pub fn description_report(
    args: &DescriptionArgs,
    record: &Result<AgentRecord, Failure>,
) -> (r: Report)
    ensures
        match *record {
            Ok(record) => r@ == if args.json {
                shown_json()
            } else {
                said(
                    "agent "@ + args.id@ + " description: "@ + match text_of(record.description) {
                        Some(d) => d,
                        None => "(cleared)"@,
                    },
                )
            },
            Err(failure) => r@ == failed(failure@),
        },
{
    match record {
        Ok(record) => if args.json {
            show_json()
        } else {
            let mut text = "agent ".to_owned();
            text.append(args.id.as_str());
            text.append(" description: ");
            match &record.description {
                Some(d) => text.append(d.as_str()),
                None => text.append("(cleared)"),
            }
            say(text.as_str())
        },
        Err(failure) => fail(failure),
    }
}

// ── Laws ─────────────────────────────────────────────────────────────────

/// Cells that fit their columns fill them exactly.
proof fn cells_fill(
    name: Seq<char>,
    state: Seq<char>,
    team: Seq<char>,
    scopes: Seq<char>,
    yellow: Seq<char>,
    name_w: int,
    team_w: int,
)
    requires
        name.len() <= name_w,
        state.len() <= 14,
        team.len() <= team_w,
        scopes.len() <= 6,
        yellow.len() <= 13,
    ensures
        cells(name, state, team, scopes, yellow, name_w, team_w).len() == name_w + team_w + 43,
{
    reveal_strlit("  ");
    assert("  "@.len() == 2);
}

/// A number has as many digits as its size asks for.
proof fn decimal_fits(n: nat)
    ensures
        n < 1_000_000 ==> decimal(n).len() <= 6,
        n < 10_000_000_000_000 ==> decimal(n).len() <= 13,
{
    reveal_with_fuel(decimal, 13);
}

/// The columns of the table line up: in every row the id begins where it does
/// in the head, however long the agent's name or its team's.
pub proof fn columns_line_up(rows: Seq<AgentRecordView>, r: AgentRecordView)
    requires
        r.scope_envelope.len() < 1_000_000,
        r.yellow_envelope.len() < 10_000_000_000_000,
    ensures
        row_cells(r, name_width(rows), team_width(rows)).len() == name_width(rows) + team_width(rows)
            + 43,
        cells(
            "AGENT_NAME"@,
            "STATE"@,
            "OWNER_TEAM"@,
            "SCOPES"@,
            "YELLOW_SCOPES"@,
            name_width(rows),
            team_width(rows),
        ).len() == name_width(rows) + team_width(rows) + 43,
{
    let name_w = name_width(rows);
    let team_w = team_width(rows);
    cut_fits(r.agent_name, name_w as nat);
    cut_fits(r.owner_team, team_w as nat);
    decimal_fits(r.scope_envelope.len());
    decimal_fits(r.yellow_envelope.len());
    reveal_strlit("active");
    reveal_strlit("suspended");
    reveal_strlit("decommissioned");
    reveal_strlit("AGENT_NAME");
    reveal_strlit("STATE");
    reveal_strlit("OWNER_TEAM");
    reveal_strlit("SCOPES");
    reveal_strlit("YELLOW_SCOPES");
    cells_fill(
        cut(r.agent_name, name_w),
        r.state.wire(),
        cut(r.owner_team, team_w),
        decimal(r.scope_envelope.len()),
        decimal(r.yellow_envelope.len()),
        name_w,
        team_w,
    );
    cells_fill(
        "AGENT_NAME"@,
        "STATE"@,
        "OWNER_TEAM"@,
        "SCOPES"@,
        "YELLOW_SCOPES"@,
        name_w,
        team_w,
    );
}

/// The line of a row stands among the lines of all rows.
proof fn row_is_among(rows: Seq<AgentRecordView>, i: int, name_w: int, team_w: int)
    requires
        0 <= i < rows.len(),
    ensures
        holds(table_rows(rows, name_w, team_w), table_row(rows[i], name_w, team_w)),
    decreases rows.len(),
{
    let before = table_rows(rows.drop_last(), name_w, team_w);
    let last = table_row(rows.last(), name_w, team_w);
    if i < rows.len() - 1 {
        row_is_among(rows.drop_last(), i, name_w, team_w);
        holds_on(before, last, table_row(rows[i], name_w, team_w));
    } else {
        holds_end(before, last);
    }
}

/// The table leaves no agent out: each has its line, with its whole id.
pub proof fn table_lists_every_agent(rows: Seq<AgentRecordView>, i: int)
    requires
        0 <= i < rows.len(),
    ensures
        holds(table_text(rows), table_row(rows[i], name_width(rows), team_width(rows))),
{
    let name_w = name_width(rows);
    let team_w = team_width(rows);
    let head = table_head(name_w, team_w);
    let lines = table_rows(rows, name_w, team_w);
    let part = table_row(rows[i], name_w, team_w);
    row_is_among(rows, i, name_w, team_w);
    let at = choose|k: int|
        0 <= k <= lines.len() - part.len() && #[trigger] lines.subrange(k, k + part.len()) == part;
    let from = head.len() + at;
    assert((head + lines).subrange(from, from + part.len()) =~= lines.subrange(
        at,
        at + part.len(),
    ));
}

/// Asking only for what is absent never overwrites: a row is created only where
/// none was found, an equal one is a success, and a different one a conflict.
pub proof fn lookup_never_overwrites(args: CreateArgs, lookup: Lookup)
    ensures
        on_lookup(args, lookup) is None <==> lookup is Absent,
        lookup is Present && lookup->equal ==> on_lookup(args, lookup)->0.exit == ExitCode::Success,
        lookup is Present && !lookup->equal ==> on_lookup(args, lookup)->0.exit
            == ExitCode::Conflict,
        lookup is Failed ==> on_lookup(args, lookup)->0.exit != ExitCode::Success,
{
}

/// A row that was made by hand can be told from one that was migrated: only the
/// request for the latter names an actor.
pub proof fn hand_made_rows_can_be_told(
    args: CreateArgs,
    migration: MigrateArgs,
    tenant: Seq<char>,
    name: Seq<char>,
    actor: Seq<char>,
)
    ensures
        create_request_view(args, tenant).actor_sub is None,
        migration_request_view(migration, tenant, name, actor).actor_sub is Some,
{
}

/// An empty description is never sent, and nothing but the wish to remove the
/// description removes it.
pub proof fn no_empty_description(args: DescriptionArgs, tenant: Seq<char>)
    ensures
        ask_of(AgentsCommand::Description(args), tenant) matches Some(ask) ==> (ask matches
            AskView::Describe { id, text } && id == args.id@ && (text is None <==> args.clear)
            && (text matches Some(t) ==> t.len() > 0)),
{
}

/// Every state can be asked for by its name, and by no other.
pub proof fn states_are_named(state: AgentState, name: Seq<char>)
    ensures
        state_named(name) == Some(state) <==> name == state.wire(),
{
    state_names_differ(state, AgentState::Active);
    state_names_differ(state, AgentState::Suspended);
    state_names_differ(state, AgentState::Decommissioned);
}

/// What is cut keeps its beginning, and shows by an ellipsis that there was more;
/// what fits is not touched.
pub proof fn cut_is_marked(s: Seq<char>, max: nat)
    ensures
        byte_len(s) <= max ==> cut(s, max as int) == s,
        byte_len(s) > max && max >= 2 ==> cut(s, max as int).len() > 0 && cut(s, max as int).last()
            == '…' && cut(s, max as int).drop_last().is_prefix_of(s) && cut(s, max as int).len()
            == (if s.len() < max - 1 {
            (s.len() + 1) as nat
        } else {
            max
        }),
        byte_len(s) > max && max < 2 ==> cut(s, max as int).is_prefix_of(s) && cut(
            s,
            max as int,
        ).len() == (if s.len() < max {
            s.len()
        } else {
            max
        }),
{
    if byte_len(s) > max {
        let n = if max >= 2 {
            max - 1
        } else {
            max as int
        };
        let kept = first(s, n);
        assert(kept =~= s.subrange(0, kept.len() as int));
        assert(kept.push('…').drop_last() =~= kept);
    }
}

/// Whether `width` is the width of a column for `items`, no less than `low` and
/// no more than `high`: that of the longest, as far as the limits let it.
pub open spec fn fits_between(width: int, items: Seq<Seq<char>>, low: int, high: int) -> bool {
    &&& low <= width <= high
    &&& width < high ==> forall|i: int|
        0 <= i < items.len() ==> byte_len(#[trigger] items[i]) <= width
    &&& width > low ==> exists|i: int|
        0 <= i < items.len() && byte_len(#[trigger] items[i]) >= width
}

proof fn only_one_width_fits_between(width: int, items: Seq<Seq<char>>, low: int, high: int)
    requires
        0 <= low <= high,
        fits_between(width, items, low, high),
    ensures
        width == clamped(widest(items) as int, low, high),
{
    widest_is_the_largest(items);
    if width > low {
        let k = choose|k: int| 0 <= k < items.len() && byte_len(#[trigger] items[k]) >= width;
        assert(byte_len(items[k]) <= widest(items));
    }
    if items.len() > 0 {
        let k = choose|k: int|
            0 <= k < items.len() && byte_len(#[trigger] items[k]) == widest(items);
        assert(width < high ==> byte_len(items[k]) <= width);
    }
}

/// The table shows every agent on a line of its own: its name, state, team and
/// the numbers of its scopes in columns, then its id; names and teams that are
/// too long are cut.
pub proof fn every_agent_has_its_line(
    rows: Seq<AgentRecordView>,
    name_w: int,
    team_w: int,
    i: int,
)
    requires
        0 <= i < rows.len(),
        fits_between(name_w, rows.map_values(|r: AgentRecordView| r.agent_name), 10, 40),
        fits_between(team_w, rows.map_values(|r: AgentRecordView| r.owner_team), 10, 32),
    ensures
        holds(
            table_text(rows),
            flush_left(cut(rows[i].agent_name, name_w), name_w) + "  "@ + flush_left(
                rows[i].state.wire(),
                14,
            ) + "  "@ + flush_left(cut(rows[i].owner_team, team_w), team_w) + "  "@ + flush_right(
                decimal(rows[i].scope_envelope.len()),
                6,
            ) + "  "@ + flush_right(decimal(rows[i].yellow_envelope.len()), 13) + "  "@ + rows[i].id
                + "\n"@,
        ),
        (flush_left("AGENT_NAME"@, name_w) + "  "@ + flush_left("STATE"@, 14) + "  "@ + flush_left(
            "OWNER_TEAM"@,
            team_w,
        ) + "  "@ + flush_right("SCOPES"@, 6) + "  "@ + flush_right("YELLOW_SCOPES"@, 13) + "  "@
            + "ID"@ + "\n"@).is_prefix_of(table_text(rows)),
{
    only_one_width_fits_between(
        name_w,
        rows.map_values(|r: AgentRecordView| r.agent_name),
        10,
        40,
    );
    only_one_width_fits_between(
        team_w,
        rows.map_values(|r: AgentRecordView| r.owner_team),
        10,
        32,
    );
    table_lists_every_agent(rows, i);
    head_comes_first(table_head(name_w, team_w), table_rows(rows, name_w, team_w));
}

proof fn head_comes_first(head: Seq<char>, lines: Seq<char>)
    ensures
        head.is_prefix_of(head + lines),
{
    assert((head + lines).subrange(0, head.len() as int) =~= head);
}

/// The table has no other lines: it is its head and one line for each agent, in
/// their order.
pub proof fn table_has_no_other_lines(rows: Seq<AgentRecordView>, r: AgentRecordView)
    ensures
        table_text(Seq::empty()) == "(no agents)"@ + "\n"@,
        table_text(seq![r]) == table_head(name_width(seq![r]), team_width(seq![r])) + table_row(
            r,
            name_width(seq![r]),
            team_width(seq![r]),
        ),
        rows.len() > 0 && name_width(rows.push(r)) == name_width(rows) && team_width(rows.push(r))
            == team_width(rows) ==> table_text(rows.push(r)) == table_text(rows) + table_row(
            r,
            name_width(rows),
            team_width(rows),
        ),
{
    let one = seq![r];
    let nw = name_width(one);
    let tw = team_width(one);
    assert(one.drop_last() =~= Seq::empty());
    assert(table_rows(Seq::empty(), nw, tw) =~= Seq::empty());
    assert(Seq::<char>::empty() + table_row(r, nw, tw) =~= table_row(r, nw, tw));
    assert(rows.push(r).drop_last() =~= rows);
    let nw2 = name_width(rows);
    let tw2 = team_width(rows);
    assert(table_head(nw2, tw2) + (table_rows(rows, nw2, tw2) + table_row(r, nw2, tw2))
        =~= table_head(nw2, tw2) + table_rows(rows, nw2, tw2) + table_row(r, nw2, tw2));
}

/// A row in labelled lines leaves out none of its members: each stands behind its
/// own label, and the lists stand between brackets.
pub proof fn every_member_has_its_line(r: AgentRecordView)
    ensures
        r.description is None ==> record_text(r) == (flush_left("id:"@, 29) + r.id + "\n"@)
            + (flush_left("tenant:"@, 29) + r.tenant + "\n"@)
            + (flush_left("agent_name:"@, 29) + r.agent_name + "\n"@)
            + (flush_left("state:"@, 29) + r.state.wire() + "\n"@)
            + (flush_left("owner_team:"@, 29) + r.owner_team + "\n"@)
            + (flush_left("created_by_sub:"@, 29) + r.created_by_sub + "\n"@)
            + (flush_left("created_by_idp:"@, 29) + r.created_by_idp + "\n"@)
            + (flush_left("created_at:"@, 29) + r.created_at + "\n"@)
            + (flush_left("state_changed_at:"@, 29) + r.state_changed_at + "\n"@)
            + (flush_left("state_changed_by:"@, 29) + r.state_changed_by + "\n"@)
            + (flush_left("scope_envelope:"@, 29) + ("["@ + joined(r.scope_envelope, ", "@) + "]"@)
            + "\n"@)
            + (flush_left("yellow_envelope:"@, 29)
            + ("["@ + joined(r.yellow_envelope, ", "@) + "]"@) + "\n"@)
            + (flush_left("attestation_kinds_accepted:"@, 29)
            + ("["@ + joined(r.attestation_kinds_accepted, ", "@) + "]"@) + "\n"@),
        holds(record_text(r), flush_left("id:"@, 29) + r.id + "\n"@),
        holds(record_text(r), flush_left("tenant:"@, 29) + r.tenant + "\n"@),
        holds(record_text(r), flush_left("agent_name:"@, 29) + r.agent_name + "\n"@),
        holds(record_text(r), flush_left("state:"@, 29) + r.state.wire() + "\n"@),
        holds(record_text(r), flush_left("owner_team:"@, 29) + r.owner_team + "\n"@),
        holds(record_text(r), flush_left("created_by_sub:"@, 29) + r.created_by_sub + "\n"@),
        holds(record_text(r), flush_left("created_by_idp:"@, 29) + r.created_by_idp + "\n"@),
        holds(record_text(r), flush_left("created_at:"@, 29) + r.created_at + "\n"@),
        holds(record_text(r), flush_left("state_changed_at:"@, 29) + r.state_changed_at + "\n"@),
        holds(record_text(r), flush_left("state_changed_by:"@, 29) + r.state_changed_by + "\n"@),
        holds(
            record_text(r),
            flush_left("scope_envelope:"@, 29)
                + ("["@ + joined(r.scope_envelope, ", "@) + "]"@) + "\n"@,
        ),
        holds(
            record_text(r),
            flush_left("yellow_envelope:"@, 29)
                + ("["@ + joined(r.yellow_envelope, ", "@) + "]"@) + "\n"@,
        ),
        holds(
            record_text(r),
            flush_left("attestation_kinds_accepted:"@, 29)
                + ("["@ + joined(r.attestation_kinds_accepted, ", "@) + "]"@) + "\n"@,
        ),
        r.description is Some ==> holds(
            record_text(r),
            flush_left("description:"@, 29) + r.description->0 + "\n"@,
        ),
{
    broadcast use holds_on;

    let l0 = flush_left("id:"@, 29) + r.id + "\n"@;
    let l1 = flush_left("tenant:"@, 29) + r.tenant + "\n"@;
    let l2 = flush_left("agent_name:"@, 29) + r.agent_name + "\n"@;
    let l3 = flush_left("state:"@, 29) + r.state.wire() + "\n"@;
    let l4 = flush_left("owner_team:"@, 29) + r.owner_team + "\n"@;
    let l5 = flush_left("created_by_sub:"@, 29) + r.created_by_sub + "\n"@;
    let l6 = flush_left("created_by_idp:"@, 29) + r.created_by_idp + "\n"@;
    let l7 = flush_left("created_at:"@, 29) + r.created_at + "\n"@;
    let l8 = flush_left("state_changed_at:"@, 29) + r.state_changed_at + "\n"@;
    let l9 = flush_left("state_changed_by:"@, 29) + r.state_changed_by + "\n"@;
    let l10 = flush_left("scope_envelope:"@, 29)
        + ("["@ + joined(r.scope_envelope, ", "@) + "]"@) + "\n"@;
    let l11 = flush_left("yellow_envelope:"@, 29)
        + ("["@ + joined(r.yellow_envelope, ", "@) + "]"@) + "\n"@;
    let l12 = flush_left("attestation_kinds_accepted:"@, 29)
        + ("["@ + joined(r.attestation_kinds_accepted, ", "@) + "]"@) + "\n"@;
    holds_end(Seq::empty(), l0);
    assert(Seq::<char>::empty() + l0 =~= l0);
    holds_end(l0, l1);
    holds_end(l0 + l1, l2);
    holds_end(l0 + l1 + l2, l3);
    holds_end(l0 + l1 + l2 + l3, l4);
    holds_end(l0 + l1 + l2 + l3 + l4, l5);
    holds_end(l0 + l1 + l2 + l3 + l4 + l5, l6);
    holds_end(l0 + l1 + l2 + l3 + l4 + l5 + l6, l7);
    holds_end(l0 + l1 + l2 + l3 + l4 + l5 + l6 + l7, l8);
    holds_end(l0 + l1 + l2 + l3 + l4 + l5 + l6 + l7 + l8, l9);
    holds_end(l0 + l1 + l2 + l3 + l4 + l5 + l6 + l7 + l8 + l9, l10);
    holds_end(l0 + l1 + l2 + l3 + l4 + l5 + l6 + l7 + l8 + l9 + l10, l11);
    holds_end(l0 + l1 + l2 + l3 + l4 + l5 + l6 + l7 + l8 + l9 + l10 + l11, l12);
    let all = l0 + l1 + l2 + l3 + l4 + l5 + l6 + l7 + l8 + l9 + l10 + l11 + l12;
    if r.description is Some {
        holds_end(all, flush_left("description:"@, 29) + r.description->0 + "\n"@);
    } else {
        assert(all + Seq::<char>::empty() =~= all);
    }
}

/// A row without a description ends with its lists; with one, the description is
/// all that is added.
pub proof fn description_comes_last(r: AgentRecordView, d: Seq<char>)
    requires
        r.description is None,
    ensures
        record_text(AgentRecordView { description: Some(d), ..r }) == record_text(r) + (flush_left(
            "description:"@,
            29,
        ) + d + "\n"@),
{
    assert forall|s: Seq<char>| #[trigger] (s + Seq::<char>::empty()) == s by {
        assert(s + Seq::<char>::empty() =~= s);
    }
}

/// What each command asks of the registry.
pub proof fn commands_ask_for_this(
    list: ListArgs,
    get: GetArgs,
    create: CreateArgs,
    step: LifecycleArgs,
    change: EnvelopeChangeArgs,
    transfer: TransferArgs,
    tenant: Seq<char>,
)
    ensures
        ask_of(AgentsCommand::List(list), tenant) matches Some(AskView::List { state, owner_team })
            && owner_team == text_of(list.owner_team) && (list.state is None ==> state is None) && (
        list.state is Some ==> state == state_named(list.state->0@)),
        ask_of(AgentsCommand::Get(get), tenant) == Some(AskView::Get { id: get.id@ }),
        ask_of(AgentsCommand::Create(create), tenant) matches Some(
            AskView::Create { request, look_first },
        ) && look_first == create.if_absent && request.tenant == tenant && request.agent_name
            == create.name@ && request.owner_team == create.owner_team@ && request.scope_envelope
            == texts(create.scope@) && request.yellow_envelope == texts(create.yellow_scope@)
            && request.attestation_kinds == texts(create.attestation_kind@) && request.description
            == text_of(create.description) && request.actor_sub is None,
        ask_of(AgentsCommand::Suspend(step), tenant) == Some(
            AskView::Lifecycle {
                verb: LifecycleVerb::Suspend,
                id: step.id@,
                reason: text_of(step.reason),
            },
        ),
        ask_of(AgentsCommand::Unsuspend(step), tenant) == Some(
            AskView::Lifecycle {
                verb: LifecycleVerb::Unsuspend,
                id: step.id@,
                reason: text_of(step.reason),
            },
        ),
        ask_of(AgentsCommand::Decommission(step), tenant) == Some(
            AskView::Lifecycle {
                verb: LifecycleVerb::Decommission,
                id: step.id@,
                reason: text_of(step.reason),
            },
        ),
        ask_of(
            AgentsCommand::Envelope(EnvelopeArgs { direction: EnvelopeDirection::Narrow(change) }),
            tenant,
        ) == Some(
            AskView::Envelope {
                narrow: true,
                id: change.id@,
                scope_envelope: texts(change.scope@),
                yellow_envelope: texts(change.yellow_scope@),
            },
        ),
        ask_of(
            AgentsCommand::Envelope(EnvelopeArgs { direction: EnvelopeDirection::Widen(change) }),
            tenant,
        ) == Some(
            AskView::Envelope {
                narrow: false,
                id: change.id@,
                scope_envelope: texts(change.scope@),
                yellow_envelope: texts(change.yellow_scope@),
            },
        ),
        ask_of(AgentsCommand::Transfer(transfer), tenant) == Some(
            AskView::Transfer { id: transfer.id@, to_team: transfer.to_team@ },
        ),
{
}

/// A description is set to the text that was given, removed where that was asked
/// for, and left alone where neither was.
pub proof fn descriptions_are_as_given(args: DescriptionArgs, tenant: Seq<char>)
    ensures
        args.clear ==> ask_of(AgentsCommand::Description(args), tenant) == Some(
            AskView::Describe { id: args.id@, text: None },
        ),
        !args.clear && args.text is Some && args.text->0@.len() > 0 ==> ask_of(
            AgentsCommand::Description(args),
            tenant,
        ) == Some(AskView::Describe { id: args.id@, text: Some(args.text->0@) }),
        !args.clear && (args.text is None || args.text->0@.len() == 0) ==> ask_of(
            AgentsCommand::Description(args),
            tenant,
        ) is None,
{
}

/// What is asked is seen as it is.
pub proof fn asks_are_seen_whole(ask: Ask)
    ensures
        ask matches Ask::List { filter } ==> ask@ == (AskView::List {
            state: filter.state,
            owner_team: text_of(filter.owner_team),
        }),
        ask matches Ask::Get { id } ==> ask@ == (AskView::Get { id: id@ }),
        ask matches Ask::Create { request, look_first } ==> ask@ == (AskView::Create {
            request: request@,
            look_first,
        }),
        ask matches Ask::Lifecycle { verb, id, reason } ==> ask@ == (AskView::Lifecycle {
            verb,
            id: id@,
            reason: text_of(reason),
        }),
        ask matches Ask::Envelope { narrow, id, envelope } ==> ask@ == (AskView::Envelope {
            narrow,
            id: id@,
            scope_envelope: texts(envelope.scope_envelope@),
            yellow_envelope: texts(envelope.yellow_envelope@),
        }),
        ask matches Ask::Transfer { id, to_team } ==> ask@ == (AskView::Transfer {
            id: id@,
            to_team: to_team@,
        }),
        ask matches Ask::Describe { id, text } ==> ask@ == (AskView::Describe {
            id: id@,
            text: text_of(text),
        }),
        ask is Migrate ==> ask@ is Migrate,
{
}

/// Only a listing by a state that is none of the three is a bad flag.
pub proof fn only_unknown_states_are_bad(command: AgentsCommand)
    ensures
        bad_flag(command) is Some <==> (command matches AgentsCommand::List(a) && a.state is Some
            && a.state->0@ != "active"@ && a.state->0@ != "suspended"@ && a.state->0@
            != "decommissioned"@),
        command matches AgentsCommand::List(a) ==> (bad_flag(command) is Some ==> bad_flag(command)
            == Some("invalid --state '"@ + a.state->0@ + "' (active|suspended|decommissioned)"@)),
{
}

/// What keeps a command from reaching the registry is told apart by its exit: the
/// operator's files and addresses, the service's, the token.
pub proof fn setup_faults_are_told_apart(e: String, url: Seq<char>)
    ensures
        setup_report(SetupFault::Config(e), url).exit == ExitCode::Validation,
        setup_report(SetupFault::Credentials(e), url).exit == ExitCode::Server,
        setup_report(SetupFault::Bearer(e), url).exit == ExitCode::Auth,
        setup_report(SetupFault::Url(e), url).exit == ExitCode::Validation,
        setup_report(SetupFault::Config(e), url).stderr == "error: "@ + ("load config: "@ + e@)
            + "\n"@,
        setup_report(SetupFault::Credentials(e), url).stderr == "error: "@ + ("load credentials: "@
            + e@) + "\n"@,
        setup_report(SetupFault::Bearer(e), url).stderr == "error: "@ + e@ + "\n"@,
        setup_report(SetupFault::Url(e), url).stderr == "error: "@ + ("invalid identity URL '"@ + url
            + "': "@ + e@) + "\n"@,
{
}

/// A row that is there already is told by its id, in words or as JSON.
pub proof fn matches_are_told_by_id(name: Seq<char>, id: Seq<char>)
    ensures
        matched_text(name, id, false) == "agent '"@ + name + "' already matches (id "@ + id + ")"@,
        matched_text(name, id, true) == seq!['{', '\n', ' ', ' '] + quoted("id"@) + seq![':', ' ']
            + quoted(id) + seq![',', '\n', ' ', ' '] + quoted("status"@) + seq![':', ' ']
            + "\"matched\""@ + seq!['\n', '}'],
{
    let one = seq![("id"@, quoted(id))];
    object_lines_grow(Seq::empty(), "id"@, quoted(id));
    object_lines_grow(one, "status"@, "\"matched\""@);
    assert(one.push(("status"@, "\"matched\""@)) =~= seq![
        ("id"@, quoted(id)),
        ("status"@, "\"matched\""@),
    ]);
    let text = object_lines(one);
    assert(text.take(text.len() - 2) =~= seq!['{', '\n', ' ', ' '] + quoted("id"@) + seq![':', ' ']
        + quoted(id));
}

/// A row that is there already ends the command: an equal one is named, a
/// different one is a conflict, and a failed look is a failed call.
pub proof fn lookups_are_reported(args: CreateArgs, id: String, failure: Failure)
    ensures
        on_lookup(args, Lookup::Present { id, equal: true }) == Some(
            said(matched_text(args.name@, id@, args.json)),
        ),
        on_lookup(args, Lookup::Present { id, equal: false })->0.stderr == "error: "@ + ("agent '"@
            + args.name@
            + "' exists with a different envelope/owner_team/kinds; reconcile manually"@) + "\n"@,
        on_lookup(args, Lookup::Failed(failure))->0.stderr == "error: "@ + ("pre-fetch failed: "@
            + failure.message@) + "\n"@,
        on_lookup(args, Lookup::Failed(failure))->0.exit == exit_of_failure(failure@),
{
}

/// Only the configuration file is looked at before the flags.
pub proof fn configuration_comes_first(fault: SetupFault)
    ensures
        is_config_fault(Some(fault)) <==> fault is Config,
        !is_config_fault(None),
{
}

} // verus!
