//! `wardenctl policy library`: the policy engine's starter templates.

use crate::report::{
    complain, complaint, exit_of_failure, exit_of_status, said, say, show_json, show_text, shown,
    shown_json, ExitCode, Failure, FailureView, Report, ReportView,
};
use crate::text::{
    copy_texts, debug_quoted, debug_text, filter_keeps_all, flush_left, holds, holds_behind,
    holds_end, holds_on, kept_was_there, listed, pad_right, show_signed, signed_decimal, text_of,
    texts, trim, trimmed,
};
use vstd::prelude::*;
use vstd::string::*;

verus! {

/// The arguments of `policy library`.
#[derive(Debug)]
pub struct LibraryArgs {
    pub action: LibraryAction,
}

/// The verbs of `policy library`.
#[derive(Debug)]
pub enum LibraryAction {
    /// List the templates that pass every given filter.
    List(LibraryListArgs),
    /// Install one template.
    Install(LibraryInstallArgs),
}

/// The arguments of `policy library list`. A filter that is given several times
/// passes a template that has any of the values.
#[derive(Debug)]
pub struct LibraryListArgs {
    pub domain: Vec<String>,
    pub severity: Vec<String>,
    pub framework: Vec<String>,
    pub tier: Vec<String>,
    /// Only templates that are installed.
    pub installed_only: bool,
    /// Only templates that are not installed.
    pub not_installed: bool,
    /// Print JSON.
    pub json: bool,
    /// The policy engine's address.
    pub policy_url: Option<String>,
}

/// The arguments of `policy library install`.
#[derive(Debug)]
pub struct LibraryInstallArgs {
    /// The template's name.
    pub name: String,
    /// Why it is installed; kept on the ledger.
    pub reason: String,
    /// Who installs it.
    pub actor_sub: String,
    /// Who vouches for that identity.
    pub actor_idp: String,
    /// The policy engine's address.
    pub policy_url: Option<String>,
}

/// A starter template of the policy engine.
#[derive(Debug)]
pub struct PolicyTemplate {
    pub name: String,
    pub content_type: String,
    pub domain: Option<String>,
    pub severity: Option<String>,
    pub frameworks: Vec<String>,
    pub tags: Vec<String>,
    pub tier: Option<String>,
    pub tool_surface: Vec<String>,
    pub summary: Option<String>,
    /// Whether it is part of the active policy set.
    pub installed: bool,
}

/// Which templates a listing shows.
#[derive(Debug)]
pub struct LibraryFilters {
    pub domain: Vec<String>,
    pub severity: Vec<String>,
    pub framework: Vec<String>,
    pub tier: Vec<String>,
    pub installed_only: bool,
    pub not_installed: bool,
}

/// Whether a value passes a facet: the facet is not asked for, or the value is
/// one of those that are.
pub open spec fn passes_facet(wanted: Seq<Seq<char>>, value: Option<Seq<char>>) -> bool {
    wanted.len() == 0 || (value matches Some(v) && wanted.contains(v))
}

/// Whether any of several values passes a facet.
pub open spec fn passes_any(wanted: Seq<Seq<char>>, values: Seq<Seq<char>>) -> bool {
    wanted.len() == 0 || exists|i: int| 0 <= i < values.len() && wanted.contains(#[trigger] values[i])
}

/// Whether a template passes every filter.
pub open spec fn passes(f: LibraryFilters, t: PolicyTemplate) -> bool {
    &&& f.installed_only ==> t.installed
    &&& f.not_installed ==> !t.installed
    &&& passes_facet(texts(f.domain@), text_of(t.domain))
    &&& passes_facet(texts(f.severity@), text_of(t.severity))
    &&& passes_any(texts(f.framework@), texts(t.frameworks@))
    &&& passes_facet(texts(f.tier@), text_of(t.tier))
}

/// The templates that pass every filter, in their order.
pub open spec fn kept(templates: Seq<PolicyTemplate>, f: LibraryFilters) -> Seq<PolicyTemplate> {
    templates.filter(|t: PolicyTemplate| passes(f, t))
}

/// Whether a value passes a facet.
fn check_facet(wanted: &Vec<String>, value: &Option<String>) -> (r: bool)
    ensures
        r == passes_facet(texts(wanted@), text_of(*value)),
        wanted@.len() == 0 ==> r,
        wanted@.len() > 0 && value is None ==> !r,
        wanted@.len() > 0 && value is Some ==> r == texts(wanted@).contains(value->0@),
{
    if wanted.len() == 0 {
        return true;
    }
    match value {
        Some(v) => listed(wanted, v),
        None => false,
    }
}

/// Whether any of several values passes a facet.
fn check_any(wanted: &Vec<String>, values: &Vec<String>) -> (r: bool)
    ensures
        r == passes_any(texts(wanted@), texts(values@)),
        wanted@.len() == 0 ==> r,
        forall|i: int, j: int|
            0 <= i < wanted@.len() && 0 <= j < values@.len() && #[trigger] wanted@[i]@
                == #[trigger] values@[j]@ ==> r,
        wanted@.len() > 0 && (forall|i: int, j: int|
            0 <= i < wanted@.len() && 0 <= j < values@.len() ==> #[trigger] wanted@[i]@
                != #[trigger] values@[j]@) ==> !r,
{
    proof {
        common_value_passes_in_texts(wanted@, values@);
    }
    if wanted.len() == 0 {
        return true;
    }
    let mut i: usize = 0;
    while i < values.len()
        invariant
            wanted.len() > 0,
            i <= values.len(),
            forall|j: int|
                0 <= j < i ==> !texts(wanted@).contains(#[trigger] texts(values@)[j]),
        decreases values.len() - i,
    {
        if listed(wanted, &values[i]) {
            assert(texts(wanted@).contains(texts(values@)[i as int]));
            return true;
        }
        assert(!texts(wanted@).contains(texts(values@)[i as int]));
        i += 1;
    }
    false
}

/// Whether a template passes every filter.
pub fn matches_filters(f: &LibraryFilters, t: &PolicyTemplate) -> (r: bool)
    ensures
        r == passes(*f, *t),
        f.installed_only && !t.installed ==> !r,
        f.not_installed && t.installed ==> !r,
{
    if f.installed_only && !t.installed {
        return false;
    }
    if f.not_installed && t.installed {
        return false;
    }
    check_facet(&f.domain, &t.domain) && check_facet(&f.severity, &t.severity) && check_any(
        &f.framework,
        &t.frameworks,
    ) && check_facet(&f.tier, &t.tier)
}

/// The templates that pass every filter, in their order.
pub fn apply_filters(templates: Vec<PolicyTemplate>, filters: &LibraryFilters) -> (r: Vec<
    PolicyTemplate,
>)
    ensures
        r@ == kept(templates@, *filters),
{
    let ghost all = templates@;
    let mut out: Vec<PolicyTemplate> = Vec::new();
    proof {
        reveal(Seq::filter);
        assert(all.take(0) =~= Seq::<PolicyTemplate>::empty());
    }
    for t in it: templates
        invariant
            it.seq() == all,
            out@ == kept(all.take(it.index() as int), *filters),
    {
        proof {
            reveal(Seq::filter);
            let n = it.index() as int;
            assert(all.take(n + 1).drop_last() =~= all.take(n));
        }
        if matches_filters(filters, &t) {
            out.push(t);
        }
    }
    assert(all.take(all.len() as int) =~= all);
    out
}

/// Whether `places` are the places in `templates` of those that pass, in their
/// order.
pub open spec fn places_of_kept(
    places: Seq<usize>,
    templates: Seq<PolicyTemplate>,
    f: LibraryFilters,
) -> bool {
    &&& forall|j: int, k: int| 0 <= j < k < places.len() ==> places[j] < places[k]
    &&& forall|j: int| 0 <= j < places.len() ==> (#[trigger] places[j]) < templates.len()
    &&& kept(templates, f) == places.map_values(|i: usize| templates[i as int])
}

/// The places of the templates that pass every filter.
pub fn kept_places(templates: &Vec<PolicyTemplate>, filters: &LibraryFilters) -> (r: Vec<usize>)
    ensures
        places_of_kept(r@, templates@, *filters),
{
    let mut out: Vec<usize> = Vec::new();
    let mut i: usize = 0;
    proof {
        reveal(Seq::filter);
        assert(templates@.take(0) =~= Seq::<PolicyTemplate>::empty());
    }
    while i < templates.len()
        invariant
            i <= templates.len(),
            forall|j: int, k: int| 0 <= j < k < out@.len() ==> out@[j] < out@[k],
            forall|j: int| 0 <= j < out@.len() ==> (#[trigger] out@[j]) < i,
            kept(templates@.take(i as int), *filters) == out@.map_values(
                |n: usize| templates@[n as int],
            ),
        decreases templates.len() - i,
    {
        proof {
            reveal(Seq::filter);
            assert(templates@.take(i + 1).drop_last() =~= templates@.take(i as int));
        }
        if matches_filters(filters, &templates[i]) {
            let ghost before = out@;
            out.push(i);
            assert(out@.map_values(|n: usize| templates@[n as int]) =~= before.map_values(
                |n: usize| templates@[n as int],
            ).push(templates@[i as int]));
        }
        i += 1;
    }
    assert(templates@.take(i as int) =~= templates@);
    out
}

/// The filters that the arguments of a listing ask for.
pub fn filters_of(args: &LibraryListArgs) -> (r: LibraryFilters)
    ensures
        texts(r.domain@) == texts(args.domain@),
        texts(r.severity@) == texts(args.severity@),
        texts(r.framework@) == texts(args.framework@),
        texts(r.tier@) == texts(args.tier@),
        r.installed_only == args.installed_only,
        r.not_installed == args.not_installed,
{
    LibraryFilters {
        domain: copy_texts(&args.domain),
        severity: copy_texts(&args.severity),
        framework: copy_texts(&args.framework),
        tier: copy_texts(&args.tier),
        installed_only: args.installed_only,
        not_installed: args.not_installed,
    }
}

/// Whether a template passes what the arguments of a listing ask for.
pub open spec fn listed_by(args: LibraryListArgs, t: PolicyTemplate) -> bool {
    &&& args.installed_only ==> t.installed
    &&& args.not_installed ==> !t.installed
    &&& passes_facet(texts(args.domain@), text_of(t.domain))
    &&& passes_facet(texts(args.severity@), text_of(t.severity))
    &&& passes_any(texts(args.framework@), texts(t.frameworks@))
    &&& passes_facet(texts(args.tier@), text_of(t.tier))
}

/// What stands in the cell of a value that may be missing.
pub open spec fn or_dash(value: Option<Seq<char>>) -> Seq<char> {
    match value {
        Some(v) => v,
        None => "—"@,
    }
}

/// A line of the table. What is too long for its column is kept whole.
pub open spec fn library_line(
    name: Seq<char>,
    domain: Seq<char>,
    severity: Seq<char>,
    tier: Seq<char>,
    state: Seq<char>,
) -> Seq<char> {
    flush_left(name, 32) + " "@ + flush_left(domain, 14) + " "@ + flush_left(severity, 10) + " "@
        + flush_left(tier, 8) + " "@ + state + "\n"@
}

/// The line of a template.
pub open spec fn library_row(t: PolicyTemplate) -> Seq<char> {
    library_line(
        t.name@,
        or_dash(text_of(t.domain)),
        or_dash(text_of(t.severity)),
        or_dash(text_of(t.tier)),
        if t.installed {
            "installed"@
        } else {
            "available"@
        },
    )
}

/// The lines of the templates.
pub open spec fn library_rows(rows: Seq<PolicyTemplate>) -> Seq<char>
    decreases rows.len(),
{
    if rows.len() == 0 {
        Seq::empty()
    } else {
        library_rows(rows.drop_last()) + library_row(rows.last())
    }
}

/// The table of templates.
pub open spec fn library_text(rows: Seq<PolicyTemplate>) -> Seq<char> {
    if rows.len() == 0 {
        "(no templates match the current filters)\n"@
    } else {
        library_line("NAME"@, "DOMAIN"@, "SEVERITY"@, "TIER"@, "STATE"@) + library_rows(rows)
    }
}

/// A line of the table.
fn render_line(name: &str, domain: &str, severity: &str, tier: &str, state: &str) -> (r: String)
    ensures
        r@ == library_line(name@, domain@, severity@, tier@, state@),
{
    let mut out = pad_right(name, 32);
    out.append(" ");
    out.append(pad_right(domain, 14).as_str());
    out.append(" ");
    out.append(pad_right(severity, 10).as_str());
    out.append(" ");
    out.append(pad_right(tier, 8).as_str());
    out.append(" ");
    out.append(state);
    out.append("\n");
    out
}

/// What stands in the cell of a value that may be missing.
fn dash_or(value: &Option<String>) -> (r: &str)
    ensures
        r@ == or_dash(text_of(*value)),
{
    match value {
        Some(v) => v.as_str(),
        None => "—",
    }
}

/// The table of templates.
pub fn render_table(rows: &Vec<PolicyTemplate>) -> (r: String)
    ensures
        r@ == library_text(rows@),
{
    if rows.len() == 0 {
        return "(no templates match the current filters)\n".to_owned();
    }
    let mut out = render_line("NAME", "DOMAIN", "SEVERITY", "TIER", "STATE");
    let ghost head = out@;
    let mut i: usize = 0;
    assert(head + Seq::<char>::empty() =~= head);
    while i < rows.len()
        invariant
            i <= rows.len(),
            out@ == head + library_rows(rows@.take(i as int)),
        decreases rows.len() - i,
    {
        assert(rows@.take(i + 1).drop_last() =~= rows@.take(i as int));
        let t = &rows[i];
        let state = if t.installed { "installed" } else { "available" };
        let line = render_line(
            t.name.as_str(),
            dash_or(&t.domain),
            dash_or(&t.severity),
            dash_or(&t.tier),
            state,
        );
        out.append(line.as_str());
        assert(out@ =~= head + library_rows(rows@.take(i + 1)));
        i += 1;
    }
    assert(rows@.take(i as int) =~= rows@);
    out
}

/// What is reported of a policy engine's address that is none.
pub fn bad_policy_url(url: &str, message: &str) -> (r: Report)
    ensures
        r@ == complaint("policy url "@ + url@ + ": "@ + message@, ExitCode::Validation),
{
    let mut text = "policy url ".to_owned();
    text.append(url);
    text.append(": ");
    text.append(message);
    complain(text.as_str(), ExitCode::Validation)
}

/// The report of a listing that contradicts itself, before anything is asked.
pub fn contradiction(args: &LibraryListArgs) -> (r: Option<Report>)
    ensures
        if args.installed_only && args.not_installed {
            r matches Some(report) && report@ == contradiction_report() && report.exit
                == ExitCode::Validation && report.stderr@
                == "error: "@ + "--installed-only and --not-installed are mutually exclusive."@
                + "\n"@
        } else {
            r is None
        },
{
    if args.installed_only && args.not_installed {
        Some(
            complain(
                "--installed-only and --not-installed are mutually exclusive.",
                ExitCode::Validation,
            ),
        )
    } else {
        None
    }
}

/// What a listing shows.
#[derive(Debug)]
pub struct Listing {
    /// The templates that pass.
    pub rows: Vec<PolicyTemplate>,
    /// Their places in the catalog, by which JSON shows the service's own.
    pub places: Vec<usize>,
    pub report: Report,
}

/// The report of a listing that contradicts itself.
pub open spec fn contradiction_report() -> ReportView {
    complaint(
        "--installed-only and --not-installed are mutually exclusive."@,
        ExitCode::Validation,
    )
}

/// What a listing shows of the whole catalog, or of the failure to get it; one
/// that contradicts itself is refused, whatever the catalog.
pub fn list(args: &LibraryListArgs, catalog: Result<Vec<PolicyTemplate>, Failure>) -> (r: Listing)
    ensures
        args.installed_only && args.not_installed ==> r.rows@.len() == 0 && r.places@.len() == 0
            && r.report@ == contradiction_report(),
        !(args.installed_only && args.not_installed) ==> match catalog {
            Ok(all) => {
                let rows = all@.filter(|t: PolicyTemplate| listed_by(*args, t));
                &&& r.rows@ == rows
                &&& forall|j: int, k: int|
                    0 <= j < k < r.places@.len() ==> r.places@[j] < r.places@[k]
                &&& forall|j: int|
                    0 <= j < r.places@.len() ==> (#[trigger] r.places@[j]) < all@.len()
                &&& rows == r.places@.map_values(|i: usize| all@[i as int])
                &&& r.report@ == if args.json {
                    shown_json()
                } else {
                    shown(library_text(rows))
                }
            },
            Err(failure) => {
                &&& r.rows@.len() == 0
                &&& r.places@.len() == 0
                &&& r.report@ == complaint(
                    "list templates: "@ + failure@.message,
                    exit_of_failure(failure@),
                )
            },
        },
{
    if let Some(report) = contradiction(args) {
        return Listing { rows: Vec::new(), places: Vec::new(), report };
    }
    match catalog {
        Ok(all) => {
            let filters = filters_of(args);
            let places = kept_places(&all, &filters);
            let rows = apply_filters(all, &filters);
            assert((|t: PolicyTemplate| passes(filters, t)) =~= (|t: PolicyTemplate|
                listed_by(*args, t)));
            let report = if args.json {
                show_json()
            } else {
                show_text(render_table(&rows))
            };
            Listing { rows, places, report }
        },
        Err(failure) => {
            let mut text = "list templates: ".to_owned();
            text.append(failure.message.as_str());
            Listing {
                rows: Vec::new(),
                places: Vec::new(),
                report: complain(text.as_str(), ExitCode::from_warden_error(&failure)),
            }
        },
    }
}

/// A request to install a template.
#[derive(Debug)]
pub struct InstallTemplateRequest {
    pub reason: String,
    pub actor_sub: String,
    pub actor_idp: String,
}

/// The request to install a template, or the report where no reason is given.
pub fn install_request(args: &LibraryInstallArgs) -> (r: Result<InstallTemplateRequest, Report>)
    ensures
        if trimmed(args.reason@).len() == 0 {
            r matches Err(report) && report@ == complaint(
                "--reason must be non-empty."@,
                ExitCode::Validation,
            )
        } else {
            r matches Ok(request) && request.reason@ == args.reason@ && request.actor_sub@
                == args.actor_sub@ && request.actor_idp@ == args.actor_idp@
        },
{
    if trim(args.reason.as_str()).is_empty() {
        return Err(complain("--reason must be non-empty.", ExitCode::Validation));
    }
    Ok(
        InstallTemplateRequest {
            reason: args.reason.clone(),
            actor_sub: args.actor_sub.clone(),
            actor_idp: args.actor_idp.clone(),
        },
    )
}

/// A template as the engine installed it.
#[derive(Debug)]
pub struct Installed {
    pub name: String,
    pub version: i64,
    pub body_sha256: String,
}

/// What is reported of a failed installation, and `shown_name` the template's
/// name between quotation marks.
pub open spec fn install_failed(
    name: Seq<char>,
    shown_name: Seq<char>,
    failure: FailureView,
) -> ReportView {
    match failure.answer {
        Some(answer) => if answer.status == 404 {
            complaint(
                "template "@ + shown_name + " not found on engine: "@ + answer.body,
                ExitCode::Validation,
            )
        } else if answer.status == 409 {
            complaint(
                "template "@ + shown_name + " already installed: "@ + answer.body,
                ExitCode::Conflict,
            )
        } else {
            complaint("install "@ + name + ": "@ + failure.message, exit_of_failure(failure))
        },
        None => complaint("install "@ + name + ": "@ + failure.message, exit_of_failure(failure)),
    }
}

/// What is reported of a failed installation, the name between quotation marks
/// being given.
pub fn report_failure(name: &str, shown_name: &str, failure: &Failure) -> (r: Report)
    ensures
        r@ == install_failed(name@, shown_name@, failure@),
        r.exit != ExitCode::Success,
        failure.answer matches Some(answer) ==> {
            &&& r.exit == exit_of_status(answer.status)
            &&& answer.status == 404 ==> r.stderr@ == "error: "@ + ("template "@ + shown_name@
                + " not found on engine: "@ + answer.body@) + "\n"@
            &&& answer.status == 409 ==> r.stderr@ == "error: "@ + ("template "@ + shown_name@
                + " already installed: "@ + answer.body@) + "\n"@
            &&& answer.status != 404 && answer.status != 409 ==> r.stderr@ == "error: "@ + (
            "install "@ + name@ + ": "@ + failure.message@) + "\n"@
        },
        failure.answer is None ==> r.exit == ExitCode::Server && r.stderr@ == "error: "@ + (
        "install "@ + name@ + ": "@ + failure.message@) + "\n"@,
{
    if let Some(answer) = &failure.answer {
        if answer.status == 404 {
            let mut text = "template ".to_owned();
            text.append(shown_name);
            text.append(" not found on engine: ");
            text.append(answer.body.as_str());
            return complain(text.as_str(), ExitCode::Validation);
        }
        if answer.status == 409 {
            let mut text = "template ".to_owned();
            text.append(shown_name);
            text.append(" already installed: ");
            text.append(answer.body.as_str());
            return complain(text.as_str(), ExitCode::Conflict);
        }
    }
    let mut text = "install ".to_owned();
    text.append(name);
    text.append(": ");
    text.append(failure.message.as_str());
    complain(text.as_str(), ExitCode::from_warden_error(failure))
}

/// What is reported of an installation.
pub fn install_report(name: &str, result: &Result<Installed, Failure>) -> (r: Report)
    ensures
        match *result {
            Ok(done) => r@ == said(
                "installed "@ + done.name@ + " (v"@ + signed_decimal(done.version as int)
                    + ", sha256 "@ + done.body_sha256@ + ")"@,
            ),
            Err(failure) => r@ == install_failed(name@, debug_text(name@), failure@),
        },
        r.exit == ExitCode::Success <==> *result is Ok,
{
    match result {
        Ok(done) => {
            let mut text = "installed ".to_owned();
            text.append(done.name.as_str());
            text.append(" (v");
            text.append(show_signed(done.version).as_str());
            text.append(", sha256 ");
            text.append(done.body_sha256.as_str());
            text.append(")");
            say(text.as_str())
        },
        Err(failure) => report_failure(name, debug_quoted(name).as_str(), failure),
    }
}

// ── Laws ─────────────────────────────────────────────────────────────────

/// Filters that ask for nothing.
pub open spec fn asks_nothing(f: LibraryFilters) -> bool {
    &&& f.domain@.len() == 0
    &&& f.severity@.len() == 0
    &&& f.framework@.len() == 0
    &&& f.tier@.len() == 0
    &&& !f.installed_only
    &&& !f.not_installed
}

/// Without filters the whole catalog is shown.
pub proof fn no_filters_keep_everything(templates: Seq<PolicyTemplate>, f: LibraryFilters)
    requires
        asks_nothing(f),
    ensures
        kept(templates, f) == templates,
{
    filter_keeps_all(templates, |t: PolicyTemplate| passes(f, t));
}

/// What is kept stands in the catalog and passes every filter, and everything
/// in the catalog that passes is kept.
pub proof fn kept_is_what_passes(
    templates: Seq<PolicyTemplate>,
    f: LibraryFilters,
    t: PolicyTemplate,
)
    ensures
        kept(templates, f).contains(t) <==> templates.contains(t) && passes(f, t),
{
    let keep = |t: PolicyTemplate| passes(f, t);
    kept_was_there(templates, keep);
    if templates.contains(t) && passes(f, t) {
        let i = choose|i: int| 0 <= i < templates.len() && templates[i] == t;
        kept_if_passes(templates, keep, i);
    }
}

/// An item that passes is kept.
proof fn kept_if_passes<A>(s: Seq<A>, keep: spec_fn(A) -> bool, i: int)
    requires
        0 <= i < s.len(),
        keep(s[i]),
    ensures
        s.filter(keep).contains(s[i]),
    decreases s.len(),
{
    reveal(Seq::filter);
    let before = s.drop_last();
    if i < s.len() - 1 {
        kept_if_passes(before, keep, i);
        let k = choose|k: int| 0 <= k < before.filter(keep).len() && before.filter(keep)[k] == s[i];
        assert(s.filter(keep)[k] == s[i]);
    } else {
        assert(s.filter(keep)[s.filter(keep).len() - 1] == s[i]);
    }
}

/// Filtering again changes nothing.
pub proof fn filtering_twice_is_filtering_once(templates: Seq<PolicyTemplate>, f: LibraryFilters)
    ensures
        kept(kept(templates, f), f) == kept(templates, f),
{
    let keep = |t: PolicyTemplate| passes(f, t);
    kept_was_there(templates, keep);
    filter_keeps_all(templates.filter(keep), keep);
}

/// Facets narrow each other down: what passes all of them at once is what
/// passes one after another.
pub proof fn facets_narrow_in_turn(templates: Seq<PolicyTemplate>, f: LibraryFilters)
    ensures
        kept(templates, f) == templates.filter(
            |t: PolicyTemplate|
                (f.installed_only ==> t.installed) && (f.not_installed ==> !t.installed),
        ).filter(|t: PolicyTemplate| passes_facet(texts(f.domain@), text_of(t.domain))).filter(
            |t: PolicyTemplate| passes_facet(texts(f.severity@), text_of(t.severity)),
        ).filter(|t: PolicyTemplate| passes_any(texts(f.framework@), texts(t.frameworks@))).filter(
            |t: PolicyTemplate| passes_facet(texts(f.tier@), text_of(t.tier)),
        ),
{
    let state = |t: PolicyTemplate|
        (f.installed_only ==> t.installed) && (f.not_installed ==> !t.installed);
    let domain = |t: PolicyTemplate| passes_facet(texts(f.domain@), text_of(t.domain));
    let severity = |t: PolicyTemplate| passes_facet(texts(f.severity@), text_of(t.severity));
    let framework = |t: PolicyTemplate| passes_any(texts(f.framework@), texts(t.frameworks@));
    let tier = |t: PolicyTemplate| passes_facet(texts(f.tier@), text_of(t.tier));
    let two = |t: PolicyTemplate| state(t) && domain(t);
    let three = |t: PolicyTemplate| two(t) && severity(t);
    let four = |t: PolicyTemplate| three(t) && framework(t);
    let all = |t: PolicyTemplate| passes(f, t);
    filters_compose(templates, state, domain, two);
    filters_compose(templates, two, severity, three);
    filters_compose(templates, three, framework, four);
    filters_compose(templates, four, tier, all);
}

/// Two filters in a row are one filter for both.
proof fn filters_compose<A>(
    s: Seq<A>,
    one: spec_fn(A) -> bool,
    other: spec_fn(A) -> bool,
    both: spec_fn(A) -> bool,
)
    requires
        forall|a: A| #[trigger] both(a) <==> one(a) && other(a),
    ensures
        s.filter(one).filter(other) == s.filter(both),
    decreases s.len(),
{
    reveal(Seq::filter);
    if s.len() > 0 {
        let before = s.drop_last();
        filters_compose(before, one, other, both);
        assert(both(s.last()) <==> one(s.last()) && other(s.last()));
        if one(s.last()) {
            assert(s.filter(one).drop_last() =~= before.filter(one));
        }
    }
}

/// Values of one facet widen it: what passes with more values passed with some
/// of them.
pub proof fn values_widen(a: Seq<Seq<char>>, b: Seq<Seq<char>>, value: Option<Seq<char>>)
    requires
        a.len() > 0,
        b.len() > 0,
    ensures
        passes_facet(a + b, value) <==> passes_facet(a, value) || passes_facet(b, value),
{
    if let Some(v) = value {
        if a.contains(v) {
            let i = choose|i: int| 0 <= i < a.len() && a[i] == v;
            assert((a + b)[i] == v);
        }
        if b.contains(v) {
            let i = choose|i: int| 0 <= i < b.len() && b[i] == v;
            assert((a + b)[a.len() + i] == v);
        }
        if (a + b).contains(v) {
            let i = choose|i: int| 0 <= i < (a + b).len() && (a + b)[i] == v;
            assert(if i < a.len() {
                a[i] == v
            } else {
                b[i - a.len()] == v
            });
        }
    }
}

/// No template is both installed and not: a listing that asks for both is
/// refused because it could show nothing.
pub proof fn contradiction_keeps_nothing(templates: Seq<PolicyTemplate>, f: LibraryFilters)
    requires
        f.installed_only,
        f.not_installed,
    ensures
        kept(templates, f).len() == 0,
{
    kept_was_there(templates, |t: PolicyTemplate| passes(f, t));
    if kept(templates, f).len() > 0 {
        assert(passes(f, kept(templates, f)[0]));
    }
}

proof fn common_value_passes_in_texts(wanted: Seq<String>, values: Seq<String>)
    ensures
        wanted.len() == 0 ==> passes_any(texts(wanted), texts(values)),
        forall|i: int, j: int|
            0 <= i < wanted.len() && 0 <= j < values.len() && #[trigger] wanted[i]@
                == #[trigger] values[j]@ ==> passes_any(texts(wanted), texts(values)),
        wanted.len() > 0 && (forall|i: int, j: int|
            0 <= i < wanted.len() && 0 <= j < values.len() ==> #[trigger] wanted[i]@
                != #[trigger] values[j]@) ==> !passes_any(texts(wanted), texts(values)),
{
    assert forall|i: int, j: int|
        0 <= i < wanted.len() && 0 <= j < values.len() && #[trigger] wanted[i]@
            == #[trigger] values[j]@ implies passes_any(texts(wanted), texts(values)) by {
        assert(texts(wanted)[i] == texts(values)[j]);
        common_value_passes(texts(wanted), texts(values), i, j);
    }
    if wanted.len() > 0 && (forall|i: int, j: int|
        0 <= i < wanted.len() && 0 <= j < values.len() ==> #[trigger] wanted[i]@
            != #[trigger] values[j]@) {
        assert forall|i: int, j: int|
            0 <= i < texts(wanted).len() && 0 <= j < texts(values).len() implies #[trigger] texts(
            wanted,
        )[i] != #[trigger] texts(values)[j] by {
            assert(wanted[i]@ != values[j]@);
        }
        nothing_in_common_fails(texts(wanted), texts(values));
    }
}

/// One value in common is enough, wherever it stands among those that are asked
/// for and those that the template has.
pub proof fn common_value_passes(wanted: Seq<Seq<char>>, values: Seq<Seq<char>>, i: int, j: int)
    requires
        0 <= i < wanted.len(),
        0 <= j < values.len(),
        wanted[i] == values[j],
    ensures
        passes_any(wanted, values),
        passes_facet(wanted, Some(values[j])),
{
    assert(wanted.contains(values[j]));
}

/// Without a value in common a template does not pass, once any value is asked
/// for; one that has no value at all does not either.
pub proof fn nothing_in_common_fails(wanted: Seq<Seq<char>>, values: Seq<Seq<char>>)
    requires
        wanted.len() > 0,
        forall|i: int, j: int|
            0 <= i < wanted.len() && 0 <= j < values.len() ==> #[trigger] wanted[i]
                != #[trigger] values[j],
    ensures
        !passes_any(wanted, values),
        forall|j: int| 0 <= j < values.len() ==> !passes_facet(wanted, Some(#[trigger] values[j])),
        !passes_facet(wanted, None),
{
}

/// A facet that is not asked for passes everything.
pub proof fn facet_not_asked_for_passes(values: Seq<Seq<char>>, value: Option<Seq<char>>)
    ensures
        passes_any(Seq::empty(), values),
        passes_facet(Seq::empty(), value),
{
}

/// A further framework, at whatever place, never takes a template out of a
/// listing, and lets in a template that has it.
pub proof fn frameworks_add_up(
    wanted: Seq<Seq<char>>,
    values: Seq<Seq<char>>,
    at: int,
    framework: Seq<char>,
)
    requires
        0 <= at <= values.len(),
    ensures
        passes_any(wanted, values) ==> passes_any(wanted, values.insert(at, framework)),
        wanted.contains(framework) ==> passes_any(wanted, values.insert(at, framework)),
{
    let more = values.insert(at, framework);
    if wanted.contains(framework) {
        assert(wanted.contains(more[at]));
    }
    if wanted.len() > 0 && passes_any(wanted, values) {
        let k = choose|k: int| 0 <= k < values.len() && wanted.contains(#[trigger] values[k]);
        let place = if k < at { k } else { k + 1 };
        assert(more[place] == values[k]);
    }
}

/// One facet that a template does not meet keeps it out, whatever the others
/// say; one that meets them all is in.
pub proof fn every_facet_counts(f: LibraryFilters, t: PolicyTemplate)
    ensures
        f.installed_only && !t.installed ==> !passes(f, t),
        f.not_installed && t.installed ==> !passes(f, t),
        f.domain@.len() > 0 && (t.domain is None || !texts(f.domain@).contains(t.domain->0@))
            ==> !passes(f, t),
        f.severity@.len() > 0 && (t.severity is None || !texts(f.severity@).contains(
            t.severity->0@,
        )) ==> !passes(f, t),
        f.tier@.len() > 0 && (t.tier is None || !texts(f.tier@).contains(t.tier->0@)) ==> !passes(
            f,
            t,
        ),
        f.framework@.len() > 0 && (forall|j: int|
            0 <= j < t.frameworks@.len() ==> !texts(f.framework@).contains(
                (#[trigger] t.frameworks@[j])@,
            )) ==> !passes(f, t),
        ({
            &&& f.installed_only ==> t.installed
            &&& f.not_installed ==> !t.installed
            &&& f.domain@.len() == 0 || (t.domain is Some && texts(f.domain@).contains(
                t.domain->0@,
            ))
            &&& f.severity@.len() == 0 || (t.severity is Some && texts(f.severity@).contains(
                t.severity->0@,
            ))
            &&& f.tier@.len() == 0 || (t.tier is Some && texts(f.tier@).contains(t.tier->0@))
            &&& f.framework@.len() == 0 || exists|j: int|
                0 <= j < t.frameworks@.len() && texts(f.framework@).contains(
                    (#[trigger] t.frameworks@[j])@,
                )
        }) ==> passes(f, t),
{
    if f.framework@.len() > 0 {
        assert forall|j: int| 0 <= j < t.frameworks@.len() implies #[trigger] texts(
            t.frameworks@,
        )[j] == t.frameworks@[j]@ by {}
        if exists|j: int|
            0 <= j < t.frameworks@.len() && texts(f.framework@).contains(
                (#[trigger] t.frameworks@[j])@,
            ) {
            let j = choose|j: int|
                0 <= j < t.frameworks@.len() && texts(f.framework@).contains(
                    (#[trigger] t.frameworks@[j])@,
                );
            assert(texts(f.framework@).contains(texts(t.frameworks@)[j]));
        } else if passes(f, t) {
            let j = choose|j: int|
                0 <= j < texts(t.frameworks@).len() && texts(f.framework@).contains(
                    #[trigger] texts(t.frameworks@)[j],
                );
            assert(texts(f.framework@).contains(t.frameworks@[j]@));
        }
    }
}

/// A listing goes by the flags that it was given, each facet by its own.
pub proof fn listing_goes_by_its_flags(args: LibraryListArgs, f: LibraryFilters, t: PolicyTemplate)
    requires
        texts(f.domain@) == texts(args.domain@),
        texts(f.severity@) == texts(args.severity@),
        texts(f.framework@) == texts(args.framework@),
        texts(f.tier@) == texts(args.tier@),
        f.installed_only == args.installed_only,
        f.not_installed == args.not_installed,
    ensures
        listed_by(args, t) <==> passes(f, t),
{
}

/// The table has a line for every template: its name, domain, severity and tier
/// in columns, then whether it is installed. What a template does not have is a
/// dash.
pub proof fn table_shows_every_template(rows: Seq<PolicyTemplate>, i: int)
    requires
        0 <= i < rows.len(),
    ensures
        holds(
            library_text(rows),
            flush_left(rows[i].name@, 32) + " "@ + flush_left(
                if rows[i].domain is Some {
                    rows[i].domain->0@
                } else {
                    "—"@
                },
                14,
            ) + " "@ + flush_left(
                if rows[i].severity is Some {
                    rows[i].severity->0@
                } else {
                    "—"@
                },
                10,
            ) + " "@ + flush_left(
                if rows[i].tier is Some {
                    rows[i].tier->0@
                } else {
                    "—"@
                },
                8,
            ) + " "@ + (if rows[i].installed {
                "installed"@
            } else {
                "available"@
            }) + "\n"@,
        ),
{
    rows_hold_each(rows, i);
    let head = library_line("NAME"@, "DOMAIN"@, "SEVERITY"@, "TIER"@, "STATE"@);
    holds_behind(head, library_rows(rows), library_row(rows[i]));
}

proof fn rows_hold_each(rows: Seq<PolicyTemplate>, i: int)
    requires
        0 <= i < rows.len(),
    ensures
        holds(library_rows(rows), library_row(rows[i])),
    decreases rows.len(),
{
    let before = library_rows(rows.drop_last());
    if i == rows.len() - 1 {
        holds_end(before, library_row(rows.last()));
    } else {
        rows_hold_each(rows.drop_last(), i);
        holds_on(before, library_row(rows.last()), library_row(rows[i]));
    }
}

/// The table begins with the columns' heads; a further template only adds its
/// line at the end; without any there is no table.
pub proof fn table_grows_by_a_line(rows: Seq<PolicyTemplate>, t: PolicyTemplate)
    ensures
        library_text(Seq::empty()) == "(no templates match the current filters)\n"@,
        library_text(seq![t]) == flush_left("NAME"@, 32) + " "@ + flush_left("DOMAIN"@, 14) + " "@
            + flush_left("SEVERITY"@, 10) + " "@ + flush_left("TIER"@, 8) + " "@ + "STATE"@ + "\n"@
            + library_row(t),
        rows.len() > 0 ==> library_text(rows.push(t)) == library_text(rows) + library_row(t),
{
    let head = library_line("NAME"@, "DOMAIN"@, "SEVERITY"@, "TIER"@, "STATE"@);
    assert(seq![t].drop_last() =~= Seq::empty());
    assert(library_rows(Seq::empty()) == Seq::<char>::empty());
    assert(Seq::<char>::empty() + library_row(t) =~= library_row(t));
    assert(rows.push(t).drop_last() =~= rows);
    assert(head + (library_rows(rows) + library_row(t)) =~= head + library_rows(rows)
        + library_row(t));
}

/// A template that is not there, one that is there already and any other
/// refusal are told apart, in words and by the exit code.
pub proof fn refusals_are_told_apart(
    name: Seq<char>,
    shown_name: Seq<char>,
    failure: FailureView,
)
    ensures
        failure.answer matches Some(answer) ==> {
            let r = install_failed(name, shown_name, failure);
            &&& r.exit == exit_of_status(answer.status)
            &&& answer.status == 404 ==> r.stderr == "error: "@ + ("template "@ + shown_name
                + " not found on engine: "@ + answer.body) + "\n"@
            &&& answer.status == 409 ==> r.stderr == "error: "@ + ("template "@ + shown_name
                + " already installed: "@ + answer.body) + "\n"@
            &&& answer.status != 404 && answer.status != 409 ==> r.stderr == "error: "@ + (
            "install "@ + name + ": "@ + failure.message) + "\n"@
        },
        failure.answer is None ==> install_failed(name, shown_name, failure).exit
            == ExitCode::Server && install_failed(name, shown_name, failure).stderr == "error: "@
            + ("install "@ + name + ": "@ + failure.message) + "\n"@,
{
}

} // verus!
