//! `wardenctl agents migrate`: enrolling a list of existing agents.
//!
//! For each name the registry is asked first. No row: one is created, on behalf
//! of the migration. A row that matches the defaults: nothing to do. A row that
//! differs: left alone and reported, for the operator to reconcile. A dry run
//! asks but never creates.

use crate::json::{
    array_holds_each_item, array_lines, array_lines_grow, indented, indented_keeps_lines,
    object_lines, objects_hold_each_member, one_line, quoted_is_one_line, pair, pairs_of, quote,
    quoted, write_array_lines, write_object_lines, Pair,
};
use crate::registry::{CreateAgentRequest, CreateAgentRequestView};
use crate::report::{complain, complaint, ExitCode, Printed, PrintedView, Report, ReportView};
use crate::text::{
    byte_len, copy_texts, decimal, filter_keeps_all, flush_left, holds, holds_behind, holds_end,
    holds_on, holds_through, is_word, join, joined, joined_grows, kept_was_there, listed, pad_right,
    pieces, pieces_of_joined, pieces_shape, show, size, split, text_of, texts, trim, trimmed,
    trimmed_shape, widest, widest_is_the_largest,
};
use vstd::prelude::*;
use vstd::string::*;

verus! {

/// The arguments of `agents migrate`.
#[derive(Debug)]
pub struct MigrateArgs {
    /// The tenant to migrate within.
    pub tenant: Option<String>,
    /// The file of agent names, one on each line.
    pub names: std::path::PathBuf,
    /// The owner team of every created row.
    pub default_owner_team: String,
    /// The scope envelope of every created row.
    pub default_scope: Vec<String>,
    /// The yellow-tier envelope of every created row.
    pub default_yellow_scope: Vec<String>,
    /// The attestation kinds of every created row; none means the platform's.
    pub default_attestation_kind: Vec<String>,
    /// Report what would be created and create nothing.
    pub dry_run: bool,
    /// Print the outcomes as JSON.
    pub json: bool,
}

/// What every `actor_sub` of a migration begins with.
pub const MIGRATION_ACTOR_SUB_PREFIX: &'static str = "system:migration:";

/// What became of one name.
#[derive(Debug, Clone, Copy, PartialEq, Eq, Structural)]
pub enum Action {
    /// A row was created.
    Created,
    /// A row exists and differs from the defaults; it was left alone.
    Drift,
    /// The registry could not be asked, or refused.
    Failed,
    /// A row exists and matches the defaults.
    Matched,
    /// A dry run would have created a row.
    WouldCreate,
}

impl Action {
    /// The action's name in the summary.
    pub open spec fn label(self) -> Seq<char> {
        match self {
            Action::Created => "created"@,
            Action::Drift => "drift"@,
            Action::Failed => "failed"@,
            Action::Matched => "matched"@,
            Action::WouldCreate => "would-create"@,
        }
    }

    /// The action's name in the summary.
    pub fn as_str(self) -> (r: &'static str)
        ensures
            r@ == self.label(),
            self == Action::Created ==> r@ == "created"@,
            self == Action::Drift ==> r@ == "drift"@,
            self == Action::Failed ==> r@ == "failed"@,
            self == Action::Matched ==> r@ == "matched"@,
            self == Action::WouldCreate ==> r@ == "would-create"@,
    {
        match self {
            Action::Created => "created",
            Action::Drift => "drift",
            Action::Failed => "failed",
            Action::Matched => "matched",
            Action::WouldCreate => "would-create",
        }
    }
}

/// What became of one name, with the row's id and what went wrong.
#[derive(Debug)]
pub struct Outcome {
    pub name: String,
    pub action: Action,
    pub id: Option<String>,
    pub error: Option<String>,
}

/// What an [`Outcome`] holds.
pub struct OutcomeView {
    pub name: Seq<char>,
    pub action: Action,
    pub id: Option<Seq<char>>,
    pub error: Option<Seq<char>>,
}

impl View for Outcome {
    type V = OutcomeView;

    open spec fn view(&self) -> OutcomeView {
        OutcomeView {
            name: self.name@,
            action: self.action,
            id: text_of(self.id),
            error: text_of(self.error),
        }
    }
}

/// The views of a sequence of outcomes.
pub open spec fn outcomes_of(outcomes: Seq<Outcome>) -> Seq<OutcomeView> {
    outcomes.map_values(|o: Outcome| o@)
}

// ── The list of names ────────────────────────────────────────────────────

/// Whether a trimmed line names an agent: it is neither blank nor a comment.
pub open spec fn names_agent(line: Seq<char>) -> bool {
    line.len() > 0 && line[0] != '#'
}

/// The trimmed lines of `body` that name an agent.
pub open spec fn named_lines(body: Seq<char>) -> Seq<Seq<char>> {
    pieces(body, '\n').map_values(|line: Seq<char>| trimmed(line)).filter(
        |line: Seq<char>| names_agent(line),
    )
}

/// `items` without those that stood earlier.
pub open spec fn first_seen(items: Seq<Seq<char>>) -> Seq<Seq<char>>
    decreases items.len(),
{
    if items.len() == 0 {
        Seq::empty()
    } else {
        let before = first_seen(items.drop_last());
        if before.contains(items.last()) {
            before
        } else {
            before.push(items.last())
        }
    }
}

/// The names to migrate, out of the text of a names file.
pub fn parse_names(body: &str) -> (r: Vec<String>)
    ensures
        texts(r@) == first_seen(named_lines(body@)),
{
    let lines = split(body, '\n');
    let mut out: Vec<String> = Vec::new();
    let mut i: usize = 0;
    let ghost trimmed_lines = texts(lines@).map_values(|line: Seq<char>| trimmed(line));
    let ghost keep = |line: Seq<char>| names_agent(line);
    proof {
        reveal(Seq::filter);
        assert(trimmed_lines.take(0).filter(keep) =~= Seq::empty());
        assert(texts(out@) =~= first_seen(trimmed_lines.take(0).filter(keep)));
    }
    while i < lines.len()
        invariant
            i <= lines.len(),
            trimmed_lines == texts(lines@).map_values(|line: Seq<char>| trimmed(line)),
            keep == (|line: Seq<char>| names_agent(line)),
            texts(out@) == first_seen(trimmed_lines.take(i as int).filter(keep)),
        decreases lines.len() - i,
    {
        let line = trim(lines[i].as_str());
        let ghost before = trimmed_lines.take(i as int).filter(keep);
        assert(line@ == trimmed_lines[i as int]);
        proof {
            reveal(Seq::filter);
            assert(trimmed_lines.take(i + 1).drop_last() =~= trimmed_lines.take(i as int));
            assert(trimmed_lines.take(i + 1).last() == line@);
        }
        if !line.is_empty() && line.get_char(0) != '#' {
            let name = line.to_owned();
            assert(before.push(name@).drop_last() =~= before);
            if !listed(&out, &name) {
                let ghost seen = texts(out@);
                out.push(name);
                assert(texts(out@) =~= seen.push(name@));
            }
        }
        i += 1;
    }
    assert(trimmed_lines.take(i as int) =~= trimmed_lines);
    out
}

// ── Who migrates ─────────────────────────────────────────────────────────

/// On whose behalf rows are created: the migration's prefix and the operator's
/// subject, or `unknown` where the token shows none.
pub open spec fn actor_sub_text(sub: Option<Seq<char>>) -> Seq<char> {
    MIGRATION_ACTOR_SUB_PREFIX@ + match sub {
        Some(s) => s,
        None => "unknown"@,
    }
}

/// On whose behalf rows are created, and a warning for the operator.
#[derive(Debug)]
pub struct Actor {
    pub actor_sub: String,
    pub warning: String,
}

/// Reads the operator's subject off the decoded token. A token that does not
/// decode is no obstacle: the rows then name nobody, and a warning says so.
pub fn actor(decoded: &Result<Option<String>, String>) -> (r: Actor)
    ensures
        match *decoded {
            Ok(sub) => r.actor_sub@ == actor_sub_text(text_of(sub)) && r.warning@.len() == 0,
            Err(e) => r.actor_sub@ == actor_sub_text(None) && r.warning@
                == "warn: could not decode id_token sub claim: "@ + e@ + "\n"@,
        },
        *decoded matches Ok(Some(sub)) ==> r.actor_sub@ == "system:migration:"@ + sub@,
        !(*decoded matches Ok(Some(sub))) ==> r.actor_sub@ == "system:migration:"@ + "unknown"@,
{
    let mut actor_sub = MIGRATION_ACTOR_SUB_PREFIX.to_owned();
    match decoded {
        Ok(Some(sub)) => {
            actor_sub.append(sub.as_str());
            Actor { actor_sub, warning: String::new() }
        },
        Ok(None) => {
            actor_sub.append("unknown");
            Actor { actor_sub, warning: String::new() }
        },
        Err(e) => {
            actor_sub.append("unknown");
            let mut warning = "warn: could not decode id_token sub claim: ".to_owned();
            warning.append(e.as_str());
            warning.append("\n");
            Actor { actor_sub, warning }
        },
    }
}

/// The request that creates the row for `name`.
pub open spec fn migration_request_view(
    args: MigrateArgs,
    tenant: Seq<char>,
    name: Seq<char>,
    actor_sub: Seq<char>,
) -> CreateAgentRequestView {
    CreateAgentRequestView {
        tenant,
        agent_name: name,
        owner_team: args.default_owner_team@,
        scope_envelope: texts(args.default_scope@),
        yellow_envelope: texts(args.default_yellow_scope@),
        attestation_kinds: texts(args.default_attestation_kind@),
        description: None,
        actor_sub: Some(actor_sub),
    }
}

/// The request that creates the row for `name`.
pub fn migration_request(args: &MigrateArgs, tenant: &str, name: &str, actor_sub: &str) -> (r:
    CreateAgentRequest)
    ensures
        r@ == migration_request_view(*args, tenant@, name@, actor_sub@),
        r.tenant@ == tenant@,
        r.agent_name@ == name@,
        r.owner_team@ == args.default_owner_team@,
        texts(r.scope_envelope@) == texts(args.default_scope@),
        texts(r.yellow_envelope@) == texts(args.default_yellow_scope@),
        texts(r.attestation_kinds@) == texts(args.default_attestation_kind@),
        r.description is None,
        r.actor_sub is Some,
        r.actor_sub->0@ == actor_sub@,
{
    CreateAgentRequest {
        tenant: tenant.to_owned(),
        agent_name: name.to_owned(),
        owner_team: args.default_owner_team.clone(),
        scope_envelope: copy_texts(&args.default_scope),
        yellow_envelope: copy_texts(&args.default_yellow_scope),
        attestation_kinds: copy_texts(&args.default_attestation_kind),
        description: None,
        actor_sub: Some(actor_sub.to_owned()),
    }
}

/// Every row of a migration says so: its `actor_sub` begins with the prefix.
pub proof fn migration_is_marked(
    args: MigrateArgs,
    tenant: Seq<char>,
    name: Seq<char>,
    sub: Option<Seq<char>>,
)
    ensures
        migration_request_view(args, tenant, name, actor_sub_text(sub)).actor_sub matches Some(actor)
            && MIGRATION_ACTOR_SUB_PREFIX@.is_prefix_of(actor),
{
    let actor = actor_sub_text(sub);
    assert(actor.subrange(0, MIGRATION_ACTOR_SUB_PREFIX@.len() as int)
        =~= MIGRATION_ACTOR_SUB_PREFIX@);
}

// ── One name after another ───────────────────────────────────────────────

/// What the registry says of a name.
#[derive(Debug)]
pub enum Found {
    /// There is no row.
    Absent,
    /// There is a row; `matches` tells whether it is as the defaults ask.
    Present { id: String, matches: bool },
    /// The registry could not be asked.
    Failed { message: String },
}

/// What to do after the registry was asked.
#[derive(Debug, Clone, Copy, PartialEq, Eq, Structural)]
pub enum MigrateStep {
    /// Create the row, and hand the result to [`Migration::created`].
    Create,
    /// Go on with the next name.
    Next,
}

/// What became of `name` by what the registry said; `None` where the row has to
/// be created.
pub open spec fn found_outcome(name: Seq<char>, dry_run: bool, found: Found) -> Option<
    OutcomeView,
> {
    match found {
        Found::Failed { message } => Some(
            OutcomeView {
                name,
                action: Action::Failed,
                id: None,
                error: Some("find: "@ + message@),
            },
        ),
        Found::Present { id, matches } => if matches {
            Some(OutcomeView { name, action: Action::Matched, id: Some(id@), error: None })
        } else {
            Some(
                OutcomeView {
                    name,
                    action: Action::Drift,
                    id: Some(id@),
                    error: Some("existing row's envelope/owner_team/kinds differ from defaults"@),
                },
            )
        },
        Found::Absent => if dry_run {
            Some(OutcomeView { name, action: Action::WouldCreate, id: None, error: None })
        } else {
            None
        },
    }
}

/// What became of `name` by how creating its row went: the new row's id, or the
/// refusal.
pub open spec fn created_outcome(name: Seq<char>, result: Result<String, String>) -> OutcomeView {
    match result {
        Ok(id) => OutcomeView { name, action: Action::Created, id: Some(id@), error: None },
        Err(e) => OutcomeView { name, action: Action::Failed, id: None, error: Some(e@) },
    }
}

/// Whether one of the outcomes is a failure.
pub open spec fn any_failed(outcomes: Seq<OutcomeView>) -> bool {
    exists|i: int| 0 <= i < outcomes.len() && #[trigger] outcomes[i].action == Action::Failed
}

/// A migration under way: the names, and what became of those done so far.
#[derive(Debug)]
pub struct Migration {
    pub names: Vec<String>,
    pub dry_run: bool,
    pub outcomes: Vec<Outcome>,
}

impl Migration {
    /// The names done so far have one outcome each, in the order of the names;
    /// a dry run has created nothing, and only a dry run would have.
    pub open spec fn wf(self) -> bool {
        &&& self.outcomes.len() <= self.names.len()
        &&& forall|i: int|
            0 <= i < self.outcomes.len() ==> {
                &&& (#[trigger] self.outcomes@[i]).name@ == self.names@[i]@
                &&& self.dry_run ==> self.outcomes@[i].action != Action::Created
                &&& !self.dry_run ==> self.outcomes@[i].action != Action::WouldCreate
            }
    }

    /// Whether every name is done.
    pub open spec fn done(self) -> bool {
        self.outcomes.len() == self.names.len()
    }

    /// Begins with the first name.
    pub fn new(names: Vec<String>, dry_run: bool) -> (r: Migration)
        ensures
            r.wf(),
            r.names == names,
            r.dry_run == dry_run,
            r.outcomes@.len() == 0,
    {
        Migration { names, dry_run, outcomes: Vec::new() }
    }

    /// The name that is next, or `None` when every name is done.
    pub fn next_name(&self) -> (r: Option<&String>)
        requires
            self.wf(),
        ensures
            match r {
                Some(name) => !self.done() && name@ == self.names@[self.outcomes@.len() as int]@,
                None => self.done(),
            },
    {
        let at: usize = self.outcomes.len();
        if at < self.names.len() {
            Some(&self.names[at])
        } else {
            None
        }
    }

    /// Takes what the registry says of the next name.
    pub fn found(&mut self, found: Found) -> (r: MigrateStep)
        requires
            old(self).wf(),
            !old(self).done(),
        ensures
            final(self).wf(),
            final(self).names == old(self).names,
            final(self).dry_run == old(self).dry_run,
            match found_outcome(
                old(self).names@[old(self).outcomes@.len() as int]@,
                old(self).dry_run,
                found,
            ) {
                Some(outcome) => r == MigrateStep::Next && outcomes_of(final(self).outcomes@)
                    == outcomes_of(old(self).outcomes@).push(outcome),
                None => r == MigrateStep::Create && *final(self) == *old(self),
            },
            r == MigrateStep::Create <==> found is Absent && !old(self).dry_run,
            r == MigrateStep::Next ==> final(self).outcomes@.len() == old(self).outcomes@.len() + 1
                && final(self).outcomes@.take(old(self).outcomes@.len() as int)
                == old(self).outcomes@,
            found matches Found::Failed { message } ==> final(self).outcomes@.last().action
                == Action::Failed && final(self).outcomes@.last().id is None
                && final(self).outcomes@.last().error is Some
                && final(self).outcomes@.last().error->0@ == "find: "@ + message@,
            found is Present ==> final(self).outcomes@.last().action == (if found->matches {
                Action::Matched
            } else {
                Action::Drift
            }) && final(self).outcomes@.last().id == Some(found->id),
            found is Present && found->matches ==> final(self).outcomes@.last().error is None,
            found is Present && !found->matches ==> final(self).outcomes@.last().error is Some
                && final(self).outcomes@.last().error->0@
                == "existing row's envelope/owner_team/kinds differ from defaults"@,
            found is Absent && old(self).dry_run ==> final(self).outcomes@.last().action
                == Action::WouldCreate && final(self).outcomes@.last().id is None
                && final(self).outcomes@.last().error is None,
    {
        let at: usize = self.outcomes.len();
        let name = self.names[at].clone();
        let ghost before = self.outcomes@;
        let outcome = match found {
            Found::Failed { message } => {
                let mut error = "find: ".to_owned();
                error.append(message.as_str());
                Outcome { name, action: Action::Failed, id: None, error: Some(error) }
            },
            Found::Present { id, matches } => if matches {
                Outcome { name, action: Action::Matched, id: Some(id), error: None }
            } else {
                Outcome {
                    name,
                    action: Action::Drift,
                    id: Some(id),
                    error: Some(
                        "existing row's envelope/owner_team/kinds differ from defaults".to_owned(),
                    ),
                }
            },
            Found::Absent => {
                if !self.dry_run {
                    return MigrateStep::Create;
                }
                Outcome { name, action: Action::WouldCreate, id: None, error: None }
            },
        };
        self.outcomes.push(outcome);
        assert(outcomes_of(self.outcomes@) =~= outcomes_of(before).push(outcome@));
        assert(self.outcomes@.take(before.len() as int) =~= before);
        MigrateStep::Next
    }

    /// Takes how creating the row of the next name went: its id, or the refusal.
    pub fn created(&mut self, result: Result<String, String>)
        requires
            old(self).wf(),
            !old(self).done(),
            !old(self).dry_run,
        ensures
            final(self).wf(),
            final(self).names == old(self).names,
            final(self).dry_run == old(self).dry_run,
            outcomes_of(final(self).outcomes@) == outcomes_of(old(self).outcomes@).push(
                created_outcome(old(self).names@[old(self).outcomes@.len() as int]@, result),
            ),
            final(self).outcomes@.len() == old(self).outcomes@.len() + 1,
            final(self).outcomes@.drop_last() == old(self).outcomes@,
            result matches Ok(id) ==> final(self).outcomes@.last().action == Action::Created
                && final(self).outcomes@.last().id == Some(id)
                && final(self).outcomes@.last().error is None,
            result matches Err(e) ==> final(self).outcomes@.last().action == Action::Failed
                && final(self).outcomes@.last().id is None && final(self).outcomes@.last().error
                == Some(e),
    {
        let at: usize = self.outcomes.len();
        let name = self.names[at].clone();
        let ghost before = self.outcomes@;
        let outcome = match result {
            Ok(id) => Outcome { name, action: Action::Created, id: Some(id), error: None },
            Err(e) => Outcome { name, action: Action::Failed, id: None, error: Some(e) },
        };
        self.outcomes.push(outcome);
        assert(outcomes_of(self.outcomes@) =~= outcomes_of(before).push(outcome@));
        assert(self.outcomes@.drop_last() =~= before);
    }
}

// ── The summary ──────────────────────────────────────────────────────────

/// What each outcome is called.
pub open spec fn names_of(outcomes: Seq<OutcomeView>) -> Seq<Seq<char>> {
    outcomes.map_values(|o: OutcomeView| o.name)
}

/// What became of each, by name.
pub open spec fn labels_of(outcomes: Seq<OutcomeView>) -> Seq<Seq<char>> {
    outcomes.map_values(|o: OutcomeView| o.action.label())
}

/// The text, or nothing.
pub open spec fn or_empty(o: Option<Seq<char>>) -> Seq<char> {
    match o {
        Some(s) => s,
        None => Seq::empty(),
    }
}

/// One line of the table.
pub open spec fn outcome_line(o: OutcomeView, name_w: int, action_w: int) -> Seq<char> {
    flush_left(o.name, name_w) + "  "@ + flush_left(o.action.label(), action_w) + "  "@
        + flush_left(or_empty(o.id), 36) + "  "@ + or_empty(o.error) + "\n"@
}

/// The lines of the table.
pub open spec fn outcome_lines(outcomes: Seq<OutcomeView>, name_w: int, action_w: int) -> Seq<char>
    decreases outcomes.len(),
{
    if outcomes.len() == 0 {
        Seq::empty()
    } else {
        outcome_lines(outcomes.drop_last(), name_w, action_w) + outcome_line(
            outcomes.last(),
            name_w,
            action_w,
        )
    }
}

/// How many of the outcomes are `action`.
pub open spec fn tally(outcomes: Seq<OutcomeView>, action: Action) -> nat
    decreases outcomes.len(),
{
    if outcomes.len() == 0 {
        0
    } else {
        tally(outcomes.drop_last(), action) + if outcomes.last().action == action {
            1nat
        } else {
            0nat
        }
    }
}

/// `items` and, where any outcome is `action`, how many are.
pub open spec fn with_tally(
    items: Seq<Seq<char>>,
    outcomes: Seq<OutcomeView>,
    action: Action,
) -> Seq<Seq<char>> {
    if tally(outcomes, action) == 0 {
        items
    } else {
        items.push(action.label() + ": "@ + decimal(tally(outcomes, action)))
    }
}

/// What the summary line lists: a mark for a dry run, then each action that
/// occurred with its number, in the order of the actions' names.
pub open spec fn summary_items(outcomes: Seq<OutcomeView>, dry_run: bool) -> Seq<Seq<char>> {
    let start = if dry_run {
        seq!["DRY-RUN"@]
    } else {
        Seq::empty()
    };
    let created = with_tally(start, outcomes, Action::Created);
    let drift = with_tally(created, outcomes, Action::Drift);
    let failed = with_tally(drift, outcomes, Action::Failed);
    let matched = with_tally(failed, outcomes, Action::Matched);
    with_tally(matched, outcomes, Action::WouldCreate)
}

/// The larger of two numbers.
pub open spec fn at_least(n: int, least: int) -> int {
    if n < least { least } else { n }
}

/// The table of outcomes and the summary line.
pub open spec fn outcomes_text(outcomes: Seq<OutcomeView>, dry_run: bool) -> Seq<char> {
    if outcomes.len() == 0 {
        "(no rows)\n"@
    } else {
        let name_w = at_least(widest(names_of(outcomes)) as int, 4);
        let action_w = at_least(widest(labels_of(outcomes)) as int, 6);
        flush_left("NAME"@, name_w) + "  "@ + flush_left("ACTION"@, action_w)
            + "  ID                                   ERROR\n"@ + outcome_lines(
            outcomes,
            name_w,
            action_w,
        ) + "\n"@ + joined(summary_items(outcomes, dry_run), "  "@) + "\n"@
    }
}

/// How many of the outcomes are `action`.
fn count_action(outcomes: &Vec<Outcome>, action: Action) -> (r: usize)
    ensures
        r == tally(outcomes_of(outcomes@), action),
{
    let mut n: usize = 0;
    let mut i: usize = 0;
    while i < outcomes.len()
        invariant
            i <= outcomes.len(),
            n <= i,
            n == tally(outcomes_of(outcomes@).take(i as int), action),
        decreases outcomes.len() - i,
    {
        let ghost seen = outcomes_of(outcomes@).take(i + 1);
        assert(seen.drop_last() =~= outcomes_of(outcomes@).take(i as int));
        assert(seen.last() == outcomes@[i as int]@);
        if outcomes[i].action == action {
            n += 1;
        }
        i += 1;
    }
    assert(outcomes_of(outcomes@).take(i as int) =~= outcomes_of(outcomes@));
    n
}

/// Adds the number of `action` to the summary, where it occurred.
fn add_tally(items: &mut Vec<String>, outcomes: &Vec<Outcome>, action: Action)
    ensures
        texts(final(items)@) == with_tally(
            texts(old(items)@),
            outcomes_of(outcomes@),
            action,
        ),
{
    let n = count_action(outcomes, action);
    if n > 0 {
        let mut item = action.as_str().to_owned();
        item.append(": ");
        item.append(show(n as u64).as_str());
        let ghost before = texts(items@);
        items.push(item);
        assert(texts(items@) =~= before.push(item@));
    }
}

/// One line of the table.
fn render_outcome(o: &Outcome, name_w: usize, action_w: usize) -> (r: String)
    ensures
        r@ == outcome_line(o@, name_w as int, action_w as int),
{
    let mut out = pad_right(o.name.as_str(), name_w);
    out.append("  ");
    out.append(pad_right(o.action.as_str(), action_w).as_str());
    out.append("  ");
    let id = match &o.id {
        Some(id) => id.clone(),
        None => String::new(),
    };
    out.append(pad_right(id.as_str(), 36).as_str());
    out.append("  ");
    let error = match &o.error {
        Some(e) => e.clone(),
        None => String::new(),
    };
    out.append(error.as_str());
    out.append("\n");
    out
}

/// The table of outcomes and the summary line.
pub fn render_outcomes(outcomes: &Vec<Outcome>, dry_run: bool) -> (r: String)
    ensures
        r@ == outcomes_text(outcomes_of(outcomes@), dry_run),
{
    let ghost all = outcomes_of(outcomes@);
    if outcomes.len() == 0 {
        return "(no rows)\n".to_owned();
    }
    let mut name_w: usize = 0;
    let mut action_w: usize = 0;
    let mut i: usize = 0;
    while i < outcomes.len()
        invariant
            all == outcomes_of(outcomes@),
            i <= outcomes.len(),
            name_w == widest(names_of(all).take(i as int)),
            action_w == widest(labels_of(all).take(i as int)),
        decreases outcomes.len() - i,
    {
        assert(names_of(all).take(i + 1).drop_last() =~= names_of(all).take(i as int));
        assert(labels_of(all).take(i + 1).drop_last() =~= labels_of(all).take(i as int));
        assert(names_of(all).take(i + 1).last() == outcomes@[i as int].name@);
        assert(labels_of(all).take(i + 1).last() == outcomes@[i as int].action.label());
        let name_len = size(outcomes[i].name.as_str());
        if name_w < name_len {
            name_w = name_len;
        }
        let action_len = size(outcomes[i].action.as_str());
        if action_w < action_len {
            action_w = action_len;
        }
        i += 1;
    }
    assert(names_of(all).take(i as int) =~= names_of(all));
    assert(labels_of(all).take(i as int) =~= labels_of(all));
    if name_w < 4 {
        name_w = 4;
    }
    if action_w < 6 {
        action_w = 6;
    }
    let mut out = pad_right("NAME", name_w);
    out.append("  ");
    out.append(pad_right("ACTION", action_w).as_str());
    out.append("  ID                                   ERROR\n");
    let ghost head = out@;
    i = 0;
    assert(out@ =~= head + outcome_lines(all.take(0), name_w as int, action_w as int));
    while i < outcomes.len()
        invariant
            all == outcomes_of(outcomes@),
            i <= outcomes.len(),
            out@ == head + outcome_lines(all.take(i as int), name_w as int, action_w as int),
        decreases outcomes.len() - i,
    {
        assert(all.take(i + 1).drop_last() =~= all.take(i as int));
        assert(all.take(i + 1).last() == outcomes@[i as int]@);
        out.append(render_outcome(&outcomes[i], name_w, action_w).as_str());
        i += 1;
        assert(out@ =~= head + outcome_lines(all.take(i as int), name_w as int, action_w as int));
    }
    assert(all.take(i as int) =~= all);
    out.append("\n");
    let mut items: Vec<String> = Vec::new();
    if dry_run {
        items.push("DRY-RUN".to_owned());
    }
    assert(texts(items@) =~= if dry_run {
        seq!["DRY-RUN"@]
    } else {
        Seq::empty()
    });
    add_tally(&mut items, outcomes, Action::Created);
    add_tally(&mut items, outcomes, Action::Drift);
    add_tally(&mut items, outcomes, Action::Failed);
    add_tally(&mut items, outcomes, Action::Matched);
    add_tally(&mut items, outcomes, Action::WouldCreate);
    out.append(join(&items, "  ").as_str());
    out.append("\n");
    out
}

/// `pairs` and, where it is given, one more with a text.
pub open spec fn with_text(
    pairs: Seq<(Seq<char>, Seq<char>)>,
    name: Seq<char>,
    value: Option<Seq<char>>,
) -> Seq<(Seq<char>, Seq<char>)> {
    match value {
        Some(v) => pairs.push((name, quoted(v))),
        None => pairs,
    }
}

/// The members of an outcome: its name and action always, its id and error where
/// there is one.
pub open spec fn outcome_members(o: OutcomeView) -> Seq<(Seq<char>, Seq<char>)> {
    let named = seq![("name"@, quoted(o.name)), ("action"@, quoted(o.action.label()))];
    with_text(with_text(named, "id"@, o.id), "error"@, o.error)
}

/// The outcomes as indented JSON: an array with one object for each.
pub open spec fn outcomes_array(outcomes: Seq<OutcomeView>) -> Seq<char> {
    array_lines(outcomes.map_values(|o: OutcomeView| object_lines(outcome_members(o))))
}

/// Adds a member with a text, where it is given.
fn add_text(pairs: &mut Vec<Pair>, name: &str, value: &Option<String>)
    ensures
        pairs_of(final(pairs)@) == with_text(pairs_of(old(pairs)@), name@, text_of(*value)),
{
    if let Some(v) = value {
        let ghost before = pairs@;
        pairs.push(pair(name, quote(v.as_str())));
        assert(pairs_of(pairs@) =~= pairs_of(before).push((name@, quoted(v@))));
    }
}

/// An outcome as indented JSON.
fn outcome_json(o: &Outcome) -> (r: String)
    ensures
        r@ == object_lines(outcome_members(o@)),
{
    let mut pairs: Vec<Pair> = Vec::new();
    pairs.push(pair("name", quote(o.name.as_str())));
    pairs.push(pair("action", quote(o.action.as_str())));
    assert(pairs_of(pairs@) =~= seq![
        ("name"@, quoted(o.name@)),
        ("action"@, quoted(o.action.label())),
    ]);
    add_text(&mut pairs, "id", &o.id);
    add_text(&mut pairs, "error", &o.error);
    write_object_lines(&pairs)
}

/// The outcomes as indented JSON.
pub fn outcomes_json(outcomes: &Vec<Outcome>) -> (r: String)
    ensures
        r@ == outcomes_array(outcomes_of(outcomes@)),
{
    let ghost all = outcomes_of(outcomes@);
    let mut items: Vec<String> = Vec::new();
    let mut i: usize = 0;
    while i < outcomes.len()
        invariant
            i <= outcomes.len(),
            items.len() == i,
            forall|j: int|
                0 <= j < i ==> #[trigger] items@[j]@ == object_lines(
                    outcome_members(outcomes@[j]@),
                ),
        decreases outcomes.len() - i,
    {
        items.push(outcome_json(&outcomes[i]));
        i += 1;
    }
    assert(texts(items@) =~= all.map_values(
        |o: OutcomeView| object_lines(outcome_members(o)),
    ));
    write_array_lines(&items)
}

// ── The command ──────────────────────────────────────────────────────────

/// The names to migrate, by how reading the file at `path` went. Without a
/// readable file, and without a name in it, the command ends here; the latter
/// is no error.
pub fn read_names(path: &str, body: &Result<String, String>) -> (r: Result<Vec<String>, Report>)
    ensures
        match *body {
            Err(e) => r matches Err(report) && report@ == complaint(
                "--names "@ + path@ + ": "@ + e@,
                ExitCode::Validation,
            ),
            Ok(text) => {
                let names = first_seen(named_lines(text@));
                if names.len() == 0 {
                    r matches Err(report) && report@ == (ReportView {
                        stdout: PrintedView::Text(Seq::empty()),
                        stderr: "(no names in "@ + path@ + " — nothing to migrate)\n"@,
                        exit: ExitCode::Success,
                    })
                } else {
                    r matches Ok(v) && texts(v@) == names
                }
            },
        },
{
    match body {
        Err(e) => {
            let mut text = "--names ".to_owned();
            text.append(path);
            text.append(": ");
            text.append(e.as_str());
            Err(complain(text.as_str(), ExitCode::Validation))
        },
        Ok(body) => {
            let names = parse_names(body.as_str());
            assert(texts(names@).len() == names@.len());
            if names.len() == 0 {
                let mut stderr = "(no names in ".to_owned();
                stderr.append(path);
                stderr.append(" — nothing to migrate)\n");
                Err(
                    Report {
                        stdout: Printed::Text(String::new()),
                        stderr,
                        exit: ExitCode::Success,
                    },
                )
            } else {
                Ok(names)
            }
        },
    }
}

/// How a migration with these outcomes ends: only a failure is an error, a row
/// that differs is not.
pub open spec fn migration_exit(outcomes: Seq<OutcomeView>) -> ExitCode {
    if any_failed(outcomes) {
        ExitCode::Server
    } else {
        ExitCode::Success
    }
}

/// What is reported of a migration with these outcomes.
pub open spec fn migration_report(
    outcomes: Seq<OutcomeView>,
    dry_run: bool,
    json: bool,
) -> ReportView {
    ReportView {
        stdout: PrintedView::Text(
            if json {
                outcomes_array(outcomes) + "\n"@
            } else {
                outcomes_text(outcomes, dry_run)
            },
        ),
        stderr: Seq::empty(),
        exit: migration_exit(outcomes),
    }
}

impl Migration {
    /// What is reported once every name is done.
    pub fn report(&self, json: bool) -> (r: Report)
        requires
            self.wf(),
            self.done(),
        ensures
            r@ == migration_report(outcomes_of(self.outcomes@), self.dry_run, json),
            r.stdout matches Printed::Text(out) && out@ == (if json {
                outcomes_array(outcomes_of(self.outcomes@)) + "\n"@
            } else {
                outcomes_text(outcomes_of(self.outcomes@), self.dry_run)
            }),
            r.stderr@.len() == 0,
            r.exit == ExitCode::Success || r.exit == ExitCode::Server,
            r.exit == ExitCode::Server <==> exists|i: int|
                0 <= i < self.outcomes@.len() && (#[trigger] self.outcomes@[i]).action
                    == Action::Failed,
    {
        let mut exit = ExitCode::Success;
        let mut i: usize = 0;
        let ghost all = outcomes_of(self.outcomes@);
        while i < self.outcomes.len()
            invariant
                all == outcomes_of(self.outcomes@),
                i <= self.outcomes.len(),
                exit == ExitCode::Success || exit == ExitCode::Server,
                exit == ExitCode::Server ==> any_failed(all),
                exit == ExitCode::Success ==> forall|j: int|
                    0 <= j < i ==> #[trigger] all[j].action != Action::Failed,
            decreases self.outcomes.len() - i,
        {
            assert(all[i as int].action == self.outcomes@[i as int].action);
            if self.outcomes[i].action == Action::Failed {
                exit = ExitCode::Server;
            }
            i += 1;
        }
        proof {
            if any_failed(all) {
                let k = choose|k: int|
                    0 <= k < all.len() && #[trigger] all[k].action == Action::Failed;
                assert(self.outcomes@[k].action == Action::Failed);
            }
            assert forall|k: int| 0 <= k < self.outcomes@.len() implies (
            #[trigger] self.outcomes@[k]).action == all[k].action by {}
        }
        let text = if json {
            let mut text = outcomes_json(&self.outcomes);
            text.append("\n");
            text
        } else {
            render_outcomes(&self.outcomes, self.dry_run)
        };
        Report { stdout: Printed::Text(text), stderr: String::new(), exit }
    }
}

// ── Laws ─────────────────────────────────────────────────────────────────

/// Whether `s` can be the name on a line of the file.
pub open spec fn is_name(s: Seq<char>) -> bool {
    is_word(s) && s[0] != '#' && !s.contains('\n')
}

/// Every name out of a file is a word without a line break, and no comment.
pub proof fn names_are_names(body: Seq<char>)
    ensures
        forall|i: int|
            0 <= i < first_seen(named_lines(body)).len() ==> is_name(
                #[trigger] first_seen(named_lines(body))[i],
            ),
{
    let all = pieces(body, '\n').map_values(|line: Seq<char>| trimmed(line));
    let keep = |line: Seq<char>| names_agent(line);
    let kept = named_lines(body);
    kept_was_there(all, keep);
    pieces_shape(body, '\n');
    first_seen_same_items(kept);
    assert forall|i: int| 0 <= i < first_seen(kept).len() implies is_name(
        #[trigger] first_seen(kept)[i],
    ) by {
        let name = first_seen(kept)[i];
        assert(first_seen(kept).contains(name));
        let m = choose|m: int| 0 <= m < kept.len() && kept[m] == name;
        assert(all.filter(keep)[m] == name);
        assert(all.contains(name));
        let k = choose|k: int| 0 <= k < all.len() && all[k] == name;
        trimmed_shape(pieces(body, '\n')[k]);
    }
}

/// Dropping repetitions drops no item and invents none.
pub proof fn first_seen_same_items(items: Seq<Seq<char>>)
    ensures
        forall|x: Seq<char>| #[trigger] first_seen(items).contains(x) <==> items.contains(x),
    decreases items.len(),
{
    if items.len() > 0 {
        let front = items.drop_last();
        let before = first_seen(front);
        first_seen_same_items(front);
        assert forall|x: Seq<char>| #[trigger]
            first_seen(items).contains(x) <==> items.contains(x) by {
            assert(items =~= front.push(items.last()));
            if first_seen(items).contains(x) {
                if before.contains(x) {
                    let k = choose|k: int| 0 <= k < front.len() && front[k] == x;
                    assert(items[k] == x);
                } else {
                    let k = choose|k: int|
                        0 <= k < first_seen(items).len() && first_seen(items)[k] == x;
                    assert(k == before.len());
                    assert(items[items.len() - 1] == x);
                }
            }
            if items.contains(x) {
                let k = choose|k: int| 0 <= k < items.len() && items[k] == x;
                if k < front.len() {
                    assert(front[k] == x);
                    assert(before.contains(x));
                    let m = choose|m: int| 0 <= m < before.len() && before[m] == x;
                    assert(first_seen(items)[m] == x);
                } else if !before.contains(x) {
                    assert(first_seen(items)[before.len() as int] == x);
                }
            }
        }
    }
}

/// No name comes twice.
pub proof fn first_seen_is_distinct(items: Seq<Seq<char>>)
    ensures
        first_seen(items).no_duplicates(),
    decreases items.len(),
{
    if items.len() > 0 {
        let before = first_seen(items.drop_last());
        first_seen_is_distinct(items.drop_last());
        if !before.contains(items.last()) {
            assert forall|i: int, j: int|
                0 <= i < first_seen(items).len() && 0 <= j < first_seen(items).len() && i
                    != j implies first_seen(items)[i] != first_seen(items)[j] by {
                if i == before.len() {
                    assert(before[j] == first_seen(items)[j]);
                } else if j == before.len() {
                    assert(before[i] == first_seen(items)[i]);
                } else {
                    assert(before[i] != before[j]);
                }
            }
        }
    }
}

/// Names keep the order in which they were first seen: what comes later in the
/// file only adds names after those that came earlier.
pub proof fn first_seen_keeps_order(earlier: Seq<Seq<char>>, later: Seq<Seq<char>>)
    ensures
        first_seen(earlier).is_prefix_of(first_seen(earlier + later)),
    decreases later.len(),
{
    if later.len() == 0 {
        assert(earlier + later =~= earlier);
        assert(first_seen(earlier).subrange(0, first_seen(earlier).len() as int)
            =~= first_seen(earlier));
    } else {
        first_seen_keeps_order(earlier, later.drop_last());
        assert((earlier + later).drop_last() =~= earlier + later.drop_last());
        let before = first_seen(earlier + later.drop_last());
        let head = first_seen(earlier);
        assert(first_seen(earlier + later).subrange(0, head.len() as int) =~= before.subrange(
            0,
            head.len() as int,
        ));
    }
}

/// Distinct items are all seen for the first time.
pub proof fn first_seen_of_distinct(items: Seq<Seq<char>>)
    requires
        items.no_duplicates(),
    ensures
        first_seen(items) == items,
    decreases items.len(),
{
    if items.len() > 0 {
        let front = items.drop_last();
        assert(front.no_duplicates()) by {
            assert forall|i: int, j: int|
                0 <= i < front.len() && 0 <= j < front.len() && i != j implies front[i]
                != front[j] by {
                assert(items[i] != items[j]);
            }
        }
        first_seen_of_distinct(front);
        assert(!front.contains(items.last())) by {
            if front.contains(items.last()) {
                let k = choose|k: int| 0 <= k < front.len() && front[k] == items.last();
                assert(items[k] != items[items.len() - 1]);
            }
        }
        assert(front.push(items.last()) =~= items);
    }
}

/// A file with one name on each line gives those names back, in their order.
pub proof fn names_read_back(names: Seq<Seq<char>>)
    requires
        names.no_duplicates(),
        forall|i: int| 0 <= i < names.len() ==> is_name(#[trigger] names[i]),
    ensures
        first_seen(named_lines(joined(names, "\n"@))) == names,
{
    let written = joined(names, "\n"@);
    let all = pieces(written, '\n').map_values(|line: Seq<char>| trimmed(line));
    let keep = |line: Seq<char>| names_agent(line);
    if names.len() == 0 {
        assert(trimmed(Seq::<char>::empty()) =~= Seq::empty());
        assert(all =~= seq![Seq::<char>::empty()]);
        reveal_with_fuel(Seq::<_>::filter, 2);
        assert(all.drop_last() =~= Seq::empty());
        assert(all.filter(keep) =~= names);
        assert(first_seen(names) =~= names);
    } else {
        reveal_strlit("\n");
        assert(seq!['\n'] + Seq::<char>::empty() =~= "\n"@);
        assert forall|i: int| 0 <= i < names.len() implies is_word(#[trigger] names[i]) by {
            assert(is_name(names[i]));
        }
        assert forall|i: int| 0 <= i < names.len() implies !(#[trigger] names[i]).contains('\n') by {
            assert(is_name(names[i]));
        }
        pieces_of_joined(names, '\n', Seq::empty());
        assert(all =~= names);
        assert forall|i: int| 0 <= i < names.len() implies keep(#[trigger] names[i]) by {
            assert(is_name(names[i]));
        }
        filter_keeps_all(names, keep);
        first_seen_of_distinct(names);
    }
}

/// Every outcome is counted once: the numbers of the summary add up to the
/// number of rows.
pub proof fn tallies_add_up(outcomes: Seq<OutcomeView>)
    ensures
        tally(outcomes, Action::Created) + tally(outcomes, Action::Drift) + tally(
            outcomes,
            Action::Failed,
        ) + tally(outcomes, Action::Matched) + tally(outcomes, Action::WouldCreate)
            == outcomes.len(),
    decreases outcomes.len(),
{
    if outcomes.len() > 0 {
        tallies_add_up(outcomes.drop_last());
    }
}

/// A finished migration has one outcome for each name, in the order of the
/// names; a dry run created none of them.
pub proof fn every_name_is_accounted_for(m: Migration)
    requires
        m.wf(),
        m.done(),
    ensures
        names_of(outcomes_of(m.outcomes@)) == texts(m.names@),
        m.dry_run ==> tally(outcomes_of(m.outcomes@), Action::Created) == 0,
{
    let all = outcomes_of(m.outcomes@);
    assert forall|i: int| 0 <= i < m.names@.len() implies #[trigger] names_of(all)[i] == texts(
        m.names@,
    )[i] by {
        assert(m.outcomes@[i].name@ == m.names@[i]@);
    }
    assert(names_of(all) =~= texts(m.names@));
    if m.dry_run {
        assert forall|i: int| 0 <= i < all.len() implies #[trigger] all[i].action
            != Action::Created by {
            assert(m.outcomes@[i].action != Action::Created);
        }
        absent_is_not_counted(all, Action::Created);
    }
}

proof fn absent_is_not_counted(outcomes: Seq<OutcomeView>, action: Action)
    requires
        forall|i: int| 0 <= i < outcomes.len() ==> #[trigger] outcomes[i].action != action,
    ensures
        tally(outcomes, action) == 0,
    decreases outcomes.len(),
{
    if outcomes.len() > 0 {
        assert(outcomes[outcomes.len() - 1].action != action);
        assert forall|i: int| 0 <= i < outcomes.drop_last().len() implies #[trigger]
            outcomes.drop_last()[i].action != action by {
            assert(outcomes[i].action != action);
        }
        absent_is_not_counted(outcomes.drop_last(), action);
    }
}

/// A row that exists is never created again, whether it matches or differs: a
/// second run over rows that the first one made writes nothing.
pub proof fn existing_rows_are_left_alone(
    name: Seq<char>,
    dry_run: bool,
    id: String,
    matches: bool,
)
    ensures
        found_outcome(name, dry_run, Found::Present { id, matches }) matches Some(o) && (o.action
            == Action::Matched <==> matches) && (o.action == Action::Drift <==> !matches)
            && o.id == Some(id@),
{
}

/// A migration fails exactly where a row failed: rows that differ, match or were
/// created do not make it fail.
pub proof fn only_failures_fail(outcomes: Seq<OutcomeView>)
    ensures
        migration_exit(outcomes) == ExitCode::Success <==> forall|i: int|
            0 <= i < outcomes.len() ==> (#[trigger] outcomes[i]).action != Action::Failed,
{
}

/// The row is asked for in the tenant that is migrated, under the name from the
/// file; only what the file does not say comes from the defaults.
pub proof fn request_names_tenant_and_agent(
    args: MigrateArgs,
    tenant: Seq<char>,
    name: Seq<char>,
    actor_sub: Seq<char>,
)
    ensures
        migration_request_view(args, tenant, name, actor_sub).tenant == tenant,
        migration_request_view(args, tenant, name, actor_sub).agent_name == name,
        migration_request_view(args, tenant, name, actor_sub).owner_team
            == args.default_owner_team@,
        migration_request_view(args, tenant, name, actor_sub).scope_envelope == texts(
            args.default_scope@,
        ),
        migration_request_view(args, tenant, name, actor_sub).yellow_envelope == texts(
            args.default_yellow_scope@,
        ),
        migration_request_view(args, tenant, name, actor_sub).attestation_kinds == texts(
            args.default_attestation_kind@,
        ),
        migration_request_view(args, tenant, name, actor_sub).description is None,
        migration_request_view(args, tenant, name, actor_sub).actor_sub == Some(actor_sub),
{
}

/// The operator is named behind the prefix; an operator that the token does not
/// show is `unknown`.
pub proof fn operator_is_named(sub: Seq<char>)
    ensures
        actor_sub_text(Some(sub)) == "system:migration:"@ + sub,
        actor_sub_text(None) == "system:migration:"@ + "unknown"@,
{
}

/// A name is migrated exactly where some line of the file is that name but for
/// white space round it, and is neither blank nor a comment.
pub proof fn every_named_line_counts(body: Seq<char>, name: Seq<char>)
    ensures
        first_seen(named_lines(body)).contains(name) <==> (name.len() > 0 && name[0] != '#'
            && exists|k: int|
            0 <= k < pieces(body, '\n').len() && trimmed(#[trigger] pieces(body, '\n')[k]) == name),
{
    let lines = pieces(body, '\n');
    let all = lines.map_values(|line: Seq<char>| trimmed(line));
    let keep = |line: Seq<char>| names_agent(line);
    let kept = all.filter(keep);
    first_seen_same_items(kept);
    kept_was_there(all, keep);
    if kept.contains(name) {
        let m = choose|m: int| 0 <= m < kept.len() && kept[m] == name;
        assert(keep(kept[m]));
        assert(all.contains(kept[m]));
        let k = choose|k: int| 0 <= k < all.len() && all[k] == name;
        assert(trimmed(lines[k]) == name);
    }
    if name.len() > 0 && name[0] != '#' && exists|k: int|
        0 <= k < lines.len() && trimmed(#[trigger] lines[k]) == name {
        let k = choose|k: int| 0 <= k < lines.len() && trimmed(#[trigger] lines[k]) == name;
        assert(all[k] == name);
        assert(keep(all[k]));
        broadcast use vstd::seq_lib::group_filter_ensures;

        assert(kept.contains(name));
    }
}

/// Actions go by these words.
pub proof fn actions_are_named(action: Action)
    ensures
        action == Action::Created ==> action.label() == "created"@,
        action == Action::Drift ==> action.label() == "drift"@,
        action == Action::Failed ==> action.label() == "failed"@,
        action == Action::Matched ==> action.label() == "matched"@,
        action == Action::WouldCreate ==> action.label() == "would-create"@,
{
}

/// What is said of a name by what the registry said of it.
pub proof fn registry_decides(name: Seq<char>, dry_run: bool, found: Found)
    ensures
        found_outcome(name, dry_run, found) is None <==> found is Absent && !dry_run,
        found_outcome(name, dry_run, found) matches Some(o) ==> {
            &&& o.name == name
            &&& o.action == Action::Failed <==> found is Failed
            &&& o.action == Action::WouldCreate <==> found is Absent
            &&& o.action == Action::Matched <==> found is Present && found->matches
            &&& o.action == Action::Drift <==> found is Present && !found->matches
            &&& o.id is Some <==> found is Present
            &&& found is Present ==> o.id == Some(found->id@)
            &&& o.error is Some <==> found is Failed || (found is Present && !found->matches)
            &&& found is Failed ==> o.error == Some("find: "@ + found->message@)
        },
{
}

/// A created row is reported under the id that it got, a refused one with the
/// refusal.
pub proof fn creation_is_reported(name: Seq<char>, result: Result<String, String>)
    ensures
        created_outcome(name, result).name == name,
        result matches Ok(id) ==> created_outcome(name, result).action == Action::Created
            && created_outcome(name, result).id == Some(id@) && created_outcome(
            name,
            result,
        ).error is None,
        result matches Err(e) ==> created_outcome(name, result).action == Action::Failed
            && created_outcome(name, result).id is None && created_outcome(name, result).error
            == Some(e@),
{
}

/// The number of an action is how many of the outcomes are it.
pub proof fn tally_counts(outcomes: Seq<OutcomeView>, action: Action)
    ensures
        tally(outcomes, action) == outcomes.filter(|o: OutcomeView| o.action == action).len(),
    decreases outcomes.len(),
{
    reveal(Seq::filter);
    if outcomes.len() > 0 {
        tally_counts(outcomes.drop_last(), action);
    }
}

/// The summary names each action that occurred, with how often it did, and no
/// other; it begins with a mark exactly in a dry run.
pub proof fn summary_names_what_occurred(outcomes: Seq<OutcomeView>, dry_run: bool, action: Action)
    ensures
        ({
            let n = outcomes.filter(|o: OutcomeView| o.action == action).len();
            n > 0 ==> summary_items(outcomes, dry_run).contains(action.label() + ": "@ + decimal(n))
        }),
        dry_run ==> summary_items(outcomes, dry_run).len() > 0 && summary_items(
            outcomes,
            dry_run,
        )[0] == "DRY-RUN"@,
        forall|k: int|
            (if dry_run { 1int } else { 0 }) <= k < summary_items(outcomes, dry_run).len() ==> exists|
                a: Action,
            |
                tally(outcomes, a) > 0 && #[trigger] summary_items(outcomes, dry_run)[k]
                    == #[trigger] a.label() + ": "@ + decimal(tally(outcomes, a)),
{
    tally_counts(outcomes, action);
    let start = if dry_run {
        seq!["DRY-RUN"@]
    } else {
        Seq::empty()
    };
    let s1 = with_tally(start, outcomes, Action::Created);
    let s2 = with_tally(s1, outcomes, Action::Drift);
    let s3 = with_tally(s2, outcomes, Action::Failed);
    let s4 = with_tally(s3, outcomes, Action::Matched);
    let s5 = with_tally(s4, outcomes, Action::WouldCreate);
    tally_is_added(start, outcomes, Action::Created);
    tally_is_added(s1, outcomes, Action::Drift);
    tally_is_added(s2, outcomes, Action::Failed);
    tally_is_added(s3, outcomes, Action::Matched);
    tally_is_added(s4, outcomes, Action::WouldCreate);
    let item = action.label() + ": "@ + decimal(tally(outcomes, action));
    if tally(outcomes, action) > 0 {
        match action {
            Action::Created => {
                assert(s1.contains(item));
            },
            Action::Drift => {
                assert(s2.contains(item));
            },
            Action::Failed => {
                assert(s3.contains(item));
            },
            Action::Matched => {
                assert(s4.contains(item));
            },
            Action::WouldCreate => {
                assert(s5.contains(item));
            },
        }
    }
    assert forall|k: int|
        (if dry_run { 1int } else { 0 }) <= k < s5.len() implies exists|a: Action|
        tally(outcomes, a) > 0 && #[trigger] s5[k] == #[trigger] a.label() + ": "@ + decimal(
            tally(outcomes, a),
        ) by {
        if k >= s4.len() {
            assert(s5[k] == Action::WouldCreate.label() + ": "@ + decimal(
                tally(outcomes, Action::WouldCreate),
            ));
        } else if k >= s3.len() {
            assert(s5[k] == Action::Matched.label() + ": "@ + decimal(
                tally(outcomes, Action::Matched),
            ));
        } else if k >= s2.len() {
            assert(s5[k] == Action::Failed.label() + ": "@ + decimal(
                tally(outcomes, Action::Failed),
            ));
        } else if k >= s1.len() {
            assert(s5[k] == Action::Drift.label() + ": "@ + decimal(tally(outcomes, Action::Drift)));
        } else {
            assert(s5[k] == Action::Created.label() + ": "@ + decimal(
                tally(outcomes, Action::Created),
            ));
        }
    }
}

proof fn tally_is_added(items: Seq<Seq<char>>, outcomes: Seq<OutcomeView>, action: Action)
    ensures
        ({
            let item = action.label() + ": "@ + decimal(tally(outcomes, action));
            let more = with_tally(items, outcomes, action);
            &&& tally(outcomes, action) > 0 ==> more.contains(item) && more.len() == items.len() + 1
                && more[items.len() as int] == item
            &&& tally(outcomes, action) == 0 ==> more == items
            &&& items.len() <= more.len()
            &&& forall|k: int| 0 <= k < items.len() ==> more[k] == #[trigger] items[k]
            &&& forall|x: Seq<char>| items.contains(x) ==> #[trigger] more.contains(x)
        }),
{
    let item = action.label() + ": "@ + decimal(tally(outcomes, action));
    let more = with_tally(items, outcomes, action);
    if tally(outcomes, action) > 0 {
        assert(more[items.len() as int] == item);
    }
    assert forall|x: Seq<char>| items.contains(x) implies #[trigger] more.contains(x) by {
        let k = choose|k: int| 0 <= k < items.len() && items[k] == x;
        assert(more[k] == x);
    }
}

/// Whether `width` is the width of a column for `items`: that of the longest, and
/// `least` where none is longer.
pub open spec fn fits(width: int, items: Seq<Seq<char>>, least: int) -> bool {
    &&& width >= least
    &&& forall|i: int| 0 <= i < items.len() ==> byte_len(#[trigger] items[i]) <= width
    &&& width == least || exists|i: int|
        0 <= i < items.len() && byte_len(#[trigger] items[i]) == width
}

proof fn only_one_width_fits(width: int, items: Seq<Seq<char>>, least: int)
    requires
        least >= 0,
        fits(width, items, least),
    ensures
        width == at_least(widest(items) as int, least),
{
    widest_is_the_largest(items);
    if width != least {
        let k = choose|k: int| 0 <= k < items.len() && byte_len(#[trigger] items[k]) == width;
        assert(byte_len(items[k]) <= widest(items));
    }
    if items.len() > 0 {
        let k = choose|k: int|
            0 <= k < items.len() && byte_len(#[trigger] items[k]) == widest(items);
        assert(byte_len(items[k]) <= width);
    }
}

/// The table has a line for every outcome: its name and action in columns that
/// fit them all, its id in one of 36, then its error.
pub proof fn table_shows_every_outcome(
    outcomes: Seq<OutcomeView>,
    dry_run: bool,
    name_w: int,
    action_w: int,
    i: int,
)
    requires
        0 <= i < outcomes.len(),
        fits(name_w, outcomes.map_values(|o: OutcomeView| o.name), 4),
        fits(action_w, outcomes.map_values(|o: OutcomeView| o.action.label()), 6),
    ensures
        holds(
            outcomes_text(outcomes, dry_run),
            flush_left(outcomes[i].name, name_w) + "  "@ + flush_left(
                outcomes[i].action.label(),
                action_w,
            ) + "  "@ + flush_left(
                if outcomes[i].id is Some {
                    outcomes[i].id->0
                } else {
                    Seq::empty()
                },
                36,
            ) + "  "@ + (if outcomes[i].error is Some {
                outcomes[i].error->0
            } else {
                Seq::empty()
            }) + "\n"@,
        ),
        (flush_left("NAME"@, name_w) + "  "@ + flush_left("ACTION"@, action_w)
            + "  ID                                   ERROR\n"@).is_prefix_of(
            outcomes_text(outcomes, dry_run),
        ),
{
    only_one_width_fits(name_w, names_of(outcomes), 4);
    only_one_width_fits(action_w, labels_of(outcomes), 6);
    lines_hold_each(outcomes, name_w, action_w, i);
    let line = outcome_line(outcomes[i], name_w, action_w);
    let head = flush_left("NAME"@, name_w) + "  "@ + flush_left("ACTION"@, action_w)
        + "  ID                                   ERROR\n"@;
    let lines = outcome_lines(outcomes, name_w, action_w);
    let summary = joined(summary_items(outcomes, dry_run), "  "@);
    table_parts(head, lines, summary, line);
}

proof fn table_parts(head: Seq<char>, lines: Seq<char>, summary: Seq<char>, line: Seq<char>)
    requires
        holds(lines, line),
    ensures
        holds(head + lines + "\n"@ + summary + "\n"@, line),
        holds(head + lines + "\n"@ + summary + "\n"@, "\n"@ + summary + "\n"@),
        head.is_prefix_of(head + lines + "\n"@ + summary + "\n"@),
{
    let tail = "\n"@ + summary + "\n"@;
    assert(head + lines + "\n"@ + summary + "\n"@ == head + (lines + tail)) by {
        table_regroups(head, lines, "\n"@, summary, "\n"@);
    }
    holds_on(lines, tail, line);
    holds_behind(head, lines + tail, line);
    holds_end(lines, tail);
    holds_behind(head, lines + tail, tail);
    begins_with(head, lines + tail);
}

proof fn begins_with(head: Seq<char>, rest: Seq<char>)
    ensures
        head.is_prefix_of(head + rest),
{
    assert((head + rest).subrange(0, head.len() as int) =~= head);
}

proof fn table_regroups(
    head: Seq<char>,
    lines: Seq<char>,
    gap: Seq<char>,
    summary: Seq<char>,
    end: Seq<char>,
)
    ensures
        head + lines + gap + summary + end == head + (lines + (gap + summary + end)),
{
    assert(head + lines + gap + summary + end =~= head + (lines + (gap + summary + end)));
}

/// The table is followed by an empty line and the summary on a line of its own.
pub proof fn summary_is_shown(outcomes: Seq<OutcomeView>, dry_run: bool)
    requires
        outcomes.len() > 0,
    ensures
        holds(
            outcomes_text(outcomes, dry_run),
            "\n"@ + joined(summary_items(outcomes, dry_run), "  "@) + "\n"@,
        ),
{
    let name_w = at_least(widest(names_of(outcomes)) as int, 4);
    let action_w = at_least(widest(labels_of(outcomes)) as int, 6);
    lines_hold_each(outcomes, name_w, action_w, 0);
    table_parts(
        flush_left("NAME"@, name_w) + "  "@ + flush_left("ACTION"@, action_w)
            + "  ID                                   ERROR\n"@,
        outcome_lines(outcomes, name_w, action_w),
        joined(summary_items(outcomes, dry_run), "  "@),
        outcome_line(outcomes[0], name_w, action_w),
    );
}

proof fn lines_hold_each(outcomes: Seq<OutcomeView>, name_w: int, action_w: int, i: int)
    requires
        0 <= i < outcomes.len(),
    ensures
        holds(
            outcome_lines(outcomes, name_w, action_w),
            outcome_line(outcomes[i], name_w, action_w),
        ),
    decreases outcomes.len(),
{
    let before = outcome_lines(outcomes.drop_last(), name_w, action_w);
    let last = outcome_line(outcomes.last(), name_w, action_w);
    if i == outcomes.len() - 1 {
        holds_end(before, last);
    } else {
        lines_hold_each(outcomes.drop_last(), name_w, action_w, i);
        holds_on(before, last, outcome_line(outcomes[i], name_w, action_w));
    }
}

/// An empty migration says that there are no rows, and no table.
pub proof fn no_rows_are_said(dry_run: bool)
    ensures
        outcomes_text(Seq::empty(), dry_run) == "(no rows)\n"@,
        outcomes_array(Seq::empty()) == seq!['[', ']'],
{
    array_lines_grow(Seq::empty(), Seq::empty());
    assert(Seq::<OutcomeView>::empty().map_values(
        |o: OutcomeView| object_lines(outcome_members(o)),
    ) =~= Seq::empty());
}

/// As JSON an outcome has its name and its action, and an id and an error
/// exactly where there is one.
pub proof fn outcome_has_these_members(o: OutcomeView)
    ensures
        outcome_members(o).len() == 2 + (if o.id is Some { 1int } else { 0 }) + (
        if o.error is Some { 1int } else { 0 }),
        outcome_members(o)[0] == ("name"@, quoted(o.name)),
        outcome_members(o)[1] == ("action"@, quoted(o.action.label())),
        o.id is Some ==> outcome_members(o)[2] == ("id"@, quoted(o.id->0)),
        o.error is Some ==> outcome_members(o).last() == ("error"@, quoted(o.error->0)),
{
}

/// Each outcome of a migration stands in the array, an object of its own; one
/// more outcome makes one more object at the end.
pub proof fn array_shows_every_outcome(outcomes: Seq<OutcomeView>, o: OutcomeView, i: int)
    requires
        0 <= i < outcomes.len(),
    ensures
        holds(outcomes_array(outcomes), indented(object_lines(outcome_members(outcomes[i])))),
        holds(outcomes_array(outcomes), quoted("name"@) + seq![':', ' '] + quoted(outcomes[i].name)),
        holds(
            outcomes_array(outcomes),
            quoted("action"@) + seq![':', ' '] + quoted(outcomes[i].action.label()),
        ),
        outcomes[i].id is Some ==> holds(
            outcomes_array(outcomes),
            quoted("id"@) + seq![':', ' '] + quoted(outcomes[i].id->0),
        ),
        outcomes[i].error is Some ==> holds(
            outcomes_array(outcomes),
            quoted("error"@) + seq![':', ' '] + quoted(outcomes[i].error->0),
        ),
        outcomes_array(outcomes.push(o)) == outcomes_array(outcomes).take(
            outcomes_array(outcomes).len() - 2,
        ) + seq![',', '\n', ' ', ' '] + indented(object_lines(outcome_members(o))) + seq!['\n', ']'],
{
    let f = |o: OutcomeView| object_lines(outcome_members(o));
    let items = outcomes.map_values(f);
    array_holds_each_item(items, i);
    assert(outcomes.push(o).map_values(f) =~= items.push(f(o)));
    array_lines_grow(items, f(o));
    let members = outcome_members(outcomes[i]);
    outcome_has_these_members(outcomes[i]);
    member_is_shown(outcomes, i, 0);
    member_is_shown(outcomes, i, 1);
    if outcomes[i].id is Some {
        member_is_shown(outcomes, i, 2);
    }
    if outcomes[i].error is Some {
        member_is_shown(outcomes, i, members.len() - 1);
    }
}

proof fn member_is_shown(outcomes: Seq<OutcomeView>, i: int, k: int)
    requires
        0 <= i < outcomes.len(),
        0 <= k < outcome_members(outcomes[i]).len(),
    ensures
        holds(
            outcomes_array(outcomes),
            quoted(outcome_members(outcomes[i])[k].0) + seq![':', ' '] + outcome_members(
                outcomes[i],
            )[k].1,
        ),
{
    let members = outcome_members(outcomes[i]);
    let text = object_lines(members);
    let part = quoted(members[k].0) + seq![':', ' '] + members[k].1;
    objects_hold_each_member(members, k);
    let value = if k == 0 {
        outcomes[i].name
    } else if k == 1 {
        outcomes[i].action.label()
    } else if members[k].0 == "id"@ && outcomes[i].id is Some && k == 2 {
        outcomes[i].id->0
    } else {
        outcomes[i].error->0
    };
    quoted_is_one_line(members[k].0);
    quoted_is_one_line(value);
    assert(members[k].1 == quoted(value));
    assert(one_line(part));
    indented_keeps_lines(text, part);
    let items = outcomes.map_values(|o: OutcomeView| object_lines(outcome_members(o)));
    array_holds_each_item(items, i);
    holds_through(outcomes_array(outcomes), indented(text), part);
}

/// The summary line, whole: a mark in a dry run, and the actions that occurred in
/// the order of their names, each once, with how often it did.
pub proof fn summary_is_in_order(outcomes: Seq<OutcomeView>, dry_run: bool)
    ensures
        summary_items(outcomes, dry_run) == (if dry_run {
            seq!["DRY-RUN"@]
        } else {
            Seq::empty()
        }) + seq![
            Action::Created,
            Action::Drift,
            Action::Failed,
            Action::Matched,
            Action::WouldCreate,
        ].filter(
            |a: Action| outcomes.filter(|o: OutcomeView| o.action == a).len() > 0,
        ).map_values(
            |a: Action|
                a.label() + ": "@ + decimal(
                    outcomes.filter(|o: OutcomeView| o.action == a).len(),
                ),
        ),
{
    let start = if dry_run {
        seq!["DRY-RUN"@]
    } else {
        Seq::empty()
    };
    let none = Seq::<Action>::empty();
    let s1 = with_tally(start, outcomes, Action::Created);
    let s2 = with_tally(s1, outcomes, Action::Drift);
    let s3 = with_tally(s2, outcomes, Action::Failed);
    let s4 = with_tally(s3, outcomes, Action::Matched);
    let a1 = none.push(Action::Created);
    let a2 = a1.push(Action::Drift);
    let a3 = a2.push(Action::Failed);
    let a4 = a3.push(Action::Matched);
    let a5 = a4.push(Action::WouldCreate);
    assert(start + occurred(outcomes, none) =~= start) by {
        reveal(Seq::filter);
    }
    one_more_action(start, start, outcomes, none, Action::Created);
    one_more_action(start, s1, outcomes, a1, Action::Drift);
    one_more_action(start, s2, outcomes, a2, Action::Failed);
    one_more_action(start, s3, outcomes, a3, Action::Matched);
    one_more_action(start, s4, outcomes, a4, Action::WouldCreate);
    assert(a5 =~= seq![
        Action::Created,
        Action::Drift,
        Action::Failed,
        Action::Matched,
        Action::WouldCreate,
    ]);
}

/// Those of `actions` that occurred, with how often each did.
pub open spec fn occurred(outcomes: Seq<OutcomeView>, actions: Seq<Action>) -> Seq<Seq<char>> {
    actions.filter(
        |a: Action| outcomes.filter(|o: OutcomeView| o.action == a).len() > 0,
    ).map_values(
        |a: Action|
            a.label() + ": "@ + decimal(outcomes.filter(|o: OutcomeView| o.action == a).len()),
    )
}

proof fn one_more_action(
    start: Seq<Seq<char>>,
    items: Seq<Seq<char>>,
    outcomes: Seq<OutcomeView>,
    actions: Seq<Action>,
    action: Action,
)
    requires
        items == start + occurred(outcomes, actions),
    ensures
        with_tally(items, outcomes, action) == start + occurred(outcomes, actions.push(action)),
{
    let keep = |a: Action| outcomes.filter(|o: OutcomeView| o.action == a).len() > 0;
    let f = |a: Action|
        a.label() + ": "@ + decimal(outcomes.filter(|o: OutcomeView| o.action == a).len());
    tally_counts(outcomes, action);
    reveal(Seq::filter);
    assert(actions.push(action).drop_last() =~= actions);
    let before = actions.filter(keep);
    if keep(action) {
        assert(before.push(action).map_values(f) =~= before.map_values(f).push(f(action)));
        assert(start + before.map_values(f).push(f(action)) =~= (start + before.map_values(f)).push(
            f(action),
        ));
    }
}

/// Outcomes are seen as they are.
pub proof fn outcomes_are_seen_whole(outcomes: Seq<Outcome>, i: int)
    requires
        0 <= i < outcomes.len(),
    ensures
        outcomes_of(outcomes).len() == outcomes.len(),
        outcomes_of(outcomes)[i].name == outcomes[i].name@,
        outcomes_of(outcomes)[i].action == outcomes[i].action,
        outcomes_of(outcomes)[i].id is Some <==> outcomes[i].id is Some,
        outcomes[i].id is Some ==> outcomes_of(outcomes)[i].id == Some(outcomes[i].id->0@),
        outcomes_of(outcomes)[i].error is Some <==> outcomes[i].error is Some,
        outcomes[i].error is Some ==> outcomes_of(outcomes)[i].error == Some(outcomes[i].error->0@),
{
}

/// Between its head and the summary the table has a line for each outcome, in
/// their order, and nothing else.
pub proof fn table_has_no_other_lines(
    outcomes: Seq<OutcomeView>,
    dry_run: bool,
    name_w: int,
    action_w: int,
)
    requires
        outcomes.len() > 0,
        fits(name_w, outcomes.map_values(|o: OutcomeView| o.name), 4),
        fits(action_w, outcomes.map_values(|o: OutcomeView| o.action.label()), 6),
    ensures
        outcomes_text(outcomes, dry_run) == flush_left("NAME"@, name_w) + "  "@ + flush_left(
            "ACTION"@,
            action_w,
        ) + "  ID                                   ERROR\n"@ + joined(
            outcomes.map_values(
                |o: OutcomeView|
                    flush_left(o.name, name_w) + "  "@ + flush_left(o.action.label(), action_w)
                        + "  "@ + flush_left(
                        if o.id is Some {
                            o.id->0
                        } else {
                            Seq::empty()
                        },
                        36,
                    ) + "  "@ + (if o.error is Some {
                        o.error->0
                    } else {
                        Seq::empty()
                    }) + "\n"@,
            ),
            Seq::empty(),
        ) + "\n"@ + joined(summary_items(outcomes, dry_run), "  "@) + "\n"@,
{
    only_one_width_fits(name_w, names_of(outcomes), 4);
    only_one_width_fits(action_w, labels_of(outcomes), 6);
    lines_are_joined(outcomes, name_w, action_w);
    let line = |o: OutcomeView| outcome_line(o, name_w, action_w);
    assert(outcomes.map_values(line) =~= outcomes.map_values(
        |o: OutcomeView|
            flush_left(o.name, name_w) + "  "@ + flush_left(o.action.label(), action_w) + "  "@
                + flush_left(
                if o.id is Some {
                    o.id->0
                } else {
                    Seq::empty()
                },
                36,
            ) + "  "@ + (if o.error is Some {
                o.error->0
            } else {
                Seq::empty()
            }) + "\n"@,
    ));
}

proof fn lines_are_joined(outcomes: Seq<OutcomeView>, name_w: int, action_w: int)
    ensures
        outcome_lines(outcomes, name_w, action_w) == joined(
            outcomes.map_values(|o: OutcomeView| outcome_line(o, name_w, action_w)),
            Seq::empty(),
        ),
    decreases outcomes.len(),
{
    let f = |o: OutcomeView| outcome_line(o, name_w, action_w);
    let lines = outcomes.map_values(f);
    if outcomes.len() == 0 {
        assert(lines =~= Seq::empty());
        joined_grows(lines, Seq::empty(), Seq::empty());
    } else {
        let front = outcomes.drop_last();
        let before = front.map_values(f);
        let text = outcome_lines(front, name_w, action_w);
        lines_are_joined(front, name_w, action_w);
        assert(lines =~= before.push(f(outcomes.last())));
        joined_grows(before, f(outcomes.last()), Seq::empty());
        if front.len() == 0 {
            assert(lines =~= seq![f(outcomes.last())]);
        }
        assert(text + Seq::<char>::empty() =~= text);
        assert(Seq::<char>::empty() + f(outcomes.last()) =~= f(outcomes.last()));
    }
}

} // verus!
